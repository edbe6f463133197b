use crate::model::{
    edge_views, spec_edge, EdgeKind, EdgeView, GraphEdge, GraphNode, GraphPartition, NodeKind,
    NodeView, PartitionView,
};
use crate::ids::NodeId;
use vstd::prelude::*;

verus! {

/// Whether `n` is a local symbol that `key` names, by its name or its qualified name.
pub open spec fn names_symbol(n: NodeView, key: Seq<char>) -> bool {
    n.kind == NodeKind::Symbol && (n.name == Some(key) || n.qualified_name == Some(key))
}

/// The id of the first local symbol that `key` names.
pub open spec fn local_lookup(nodes: Seq<NodeView>, key: Seq<char>) -> Option<Seq<char>>
    decreases nodes.len(),
{
    if nodes.len() == 0 {
        None
    } else if names_symbol(nodes[0], key) {
        Some(nodes[0].id)
    } else {
        local_lookup(nodes.drop_first(), key)
    }
}

/// The name of the last named external symbol with the id `id`.
pub open spec fn external_name(nodes: Seq<NodeView>, id: Seq<char>) -> Option<Seq<char>>
    decreases nodes.len(),
{
    if nodes.len() == 0 {
        None
    } else {
        let n = nodes.last();
        if n.kind == NodeKind::ExternalSymbol && n.id == id && n.name is Some {
            n.name
        } else {
            external_name(nodes.drop_last(), id)
        }
    }
}

/// A call or reference to an external symbol that a local symbol of the same
/// name defines is redirected to that local symbol, keeping its fact quality.
pub open spec fn resolve_edge(nodes: Seq<NodeView>, e: EdgeView) -> EdgeView {
    if e.kind == EdgeKind::Calls || e.kind == EdgeKind::References {
        match external_name(nodes, e.to) {
            Some(name) => match local_lookup(nodes, name) {
                Some(target) => EdgeView {
                    provenance: e.provenance,
                    confidence: e.confidence,
                    ..spec_edge(e.kind, e.from, target, e.span)
                },
                None => e,
            },
            None => e,
        }
    } else {
        e
    }
}

pub open spec fn resolve_edges(nodes: Seq<NodeView>, edges: Seq<EdgeView>) -> Seq<EdgeView> {
    edges.map_values(|e: EdgeView| resolve_edge(nodes, e))
}

/// The partition with its calls and references resolved to local symbols.
pub open spec fn spec_resolve(p: PartitionView) -> PartitionView {
    PartitionView { edges: resolve_edges(p.nodes, p.edges), ..p }
}

fn lookup_local(nodes: &Vec<GraphNode>, key: &String) -> (r: Option<NodeId>)
    ensures
        match r {
            Some(id) => local_lookup(crate::model::node_views(nodes@), key@) == Some(id@),
            None => local_lookup(crate::model::node_views(nodes@), key@) is None,
        },
{
    let ghost all = crate::model::node_views(nodes@);
    let mut i: usize = 0;
    assert(all.skip(0) =~= all);
    while i < nodes.len()
        invariant
            i <= nodes.len(),
            all == crate::model::node_views(nodes@),
            local_lookup(all.skip(i as int), key@) == local_lookup(all, key@),
        decreases nodes.len() - i,
    {
        let n = &nodes[i];
        assert(all.skip(i as int)[0] == n@);
        assert(all.skip(i as int).drop_first() =~= all.skip(i + 1));
        if n.kind == NodeKind::Symbol {
            let by_name = match &n.name {
                Some(name) => name.eq(key),
                None => false,
            };
            let by_qualified = match &n.qualified_name {
                Some(q) => q.eq(key),
                None => false,
            };
            assert(by_name == (n@.name == Some(key@)));
            assert(by_qualified == (n@.qualified_name == Some(key@)));
            if by_name || by_qualified {
                return Some(n.id.clone());
            }
        }
        i += 1;
    }
    None
}

fn lookup_external(nodes: &Vec<GraphNode>, id: &NodeId) -> (r: Option<String>)
    ensures
        match r {
            Some(name) => external_name(crate::model::node_views(nodes@), id@) == Some(name@),
            None => external_name(crate::model::node_views(nodes@), id@) is None,
        },
{
    let ghost all = crate::model::node_views(nodes@);
    let mut i: usize = nodes.len();
    assert(all.take(all.len() as int) =~= all);
    while i > 0
        invariant
            i <= nodes.len(),
            all == crate::model::node_views(nodes@),
            external_name(all.take(i as int), id@) == external_name(all, id@),
        decreases i,
    {
        let n = &nodes[i - 1];
        assert(all.take(i as int).last() == n@);
        assert(all.take(i as int).drop_last() =~= all.take(i - 1));
        if n.kind == NodeKind::ExternalSymbol && n.id == *id {
            if let Some(name) = &n.name {
                return Some(name.clone());
            }
        }
        i -= 1;
    }
    None
}

/// Redirects calls and references to external symbols that a local symbol of the
/// same name (or qualified name) defines; the first such local symbol wins.
pub fn resolve_partition(partition: GraphPartition) -> (r: GraphPartition)
    ensures
        r@ == spec_resolve(partition@),
{
    let mut partition = partition;
    let ghost nodes = partition@.nodes;
    let ghost old_edges = partition@.edges;
    let mut edges: Vec<GraphEdge> = Vec::new();
    let mut i: usize = 0;
    while i < partition.edges.len()
        invariant
            i <= partition.edges.len(),
            nodes == partition@.nodes,
            old_edges == partition@.edges,
            edge_views(edges@) =~= resolve_edges(nodes, old_edges).take(i as int),
        decreases partition.edges.len() - i,
    {
        let e = &partition.edges[i];
        let mut resolved = e.clone();
        if e.kind == EdgeKind::Calls || e.kind == EdgeKind::References {
            if let Some(name) = lookup_external(&partition.nodes, &e.to) {
                if let Some(target) = lookup_local(&partition.nodes, &name) {
                    resolved = GraphEdge::deterministic(e.kind, &e.from, &target, e.span)
                        .with_fact_quality(e.provenance, e.confidence);
                }
            }
        }
        let ghost before = edges@;
        edges.push(resolved);
        proof {
            assert(edge_views(before.push(resolved)) =~= edge_views(before).push(resolved@));
            assert(old_edges[i as int] == e@);
        }
        i += 1;
    }
    assert(resolve_edges(nodes, old_edges).take(old_edges.len() as int) =~= resolve_edges(nodes, old_edges));
    partition.edges = edges;
    partition
}


proof fn lemma_local_lookup_symbol(nodes: Seq<NodeView>, key: Seq<char>)
    requires
        local_lookup(nodes, key) is Some,
    ensures
        exists|i: int| 0 <= i < nodes.len() && nodes[i].kind == NodeKind::Symbol && nodes[i].id == local_lookup(nodes, key)->0,
    decreases nodes.len(),
{
    if !names_symbol(nodes[0], key) {
        lemma_local_lookup_symbol(nodes.drop_first(), key);
        let i = choose|i: int| 0 <= i < nodes.drop_first().len() && nodes.drop_first()[i].kind == NodeKind::Symbol
            && nodes.drop_first()[i].id == local_lookup(nodes.drop_first(), key)->0;
        assert(nodes[i + 1] == nodes.drop_first()[i]);
    } else {
        assert(nodes[0].kind == NodeKind::Symbol);
    }
}

proof fn lemma_external_name_node(nodes: Seq<NodeView>, id: Seq<char>)
    requires
        external_name(nodes, id) is Some,
    ensures
        exists|j: int| 0 <= j < nodes.len() && nodes[j].kind == NodeKind::ExternalSymbol && nodes[j].id == id,
    decreases nodes.len(),
{
    let n = nodes.last();
    if !(n.kind == NodeKind::ExternalSymbol && n.id == id && n.name is Some) {
        lemma_external_name_node(nodes.drop_last(), id);
        let j = choose|j: int| 0 <= j < nodes.drop_last().len() && nodes.drop_last()[j].kind == NodeKind::ExternalSymbol
            && nodes.drop_last()[j].id == id;
        assert(nodes[j] == nodes.drop_last()[j]);
    } else {
        assert(nodes[nodes.len() - 1] == n);
    }
}

/// No local symbol shares its id with an external symbol.
pub open spec fn symbol_ids_distinct_from_externals(nodes: Seq<NodeView>) -> bool {
    forall|i: int, j: int|
        0 <= i < nodes.len() && 0 <= j < nodes.len() && nodes[i].kind == NodeKind::Symbol
            && nodes[j].kind == NodeKind::ExternalSymbol ==> nodes[i].id != nodes[j].id
}

/// Resolving twice is resolving once, when no local symbol shares its id with an
/// external symbol: a redirected edge points at a local symbol, which no second
/// pass redirects again.
pub proof fn resolving_twice_is_resolving_once(p: PartitionView)
    requires
        symbol_ids_distinct_from_externals(p.nodes),
    ensures
        spec_resolve(spec_resolve(p)) == spec_resolve(p),
{
    let nodes = p.nodes;
    let once = resolve_edges(nodes, p.edges);
    let twice = resolve_edges(nodes, once);
    assert forall|k: int| 0 <= k < once.len() implies #[trigger] twice[k] == once[k] by {
        let e = p.edges[k];
        let r = once[k];
        assert(r == resolve_edge(nodes, e));
        if r != e {
            let name = external_name(nodes, e.to)->0;
            lemma_local_lookup_symbol(nodes, name);
            let target = local_lookup(nodes, name)->0;
            assert(r.to == target);
            let i = choose|i: int| 0 <= i < nodes.len() && nodes[i].kind == NodeKind::Symbol && nodes[i].id == target;
            if external_name(nodes, r.to) is Some {
                lemma_external_name_node(nodes, r.to);
                let j = choose|j: int| 0 <= j < nodes.len() && nodes[j].kind == NodeKind::ExternalSymbol && nodes[j].id == r.to;
                assert(nodes[i].id != nodes[j].id);
            }
        }
    }
    assert(twice =~= once);
    assert(spec_resolve(p).nodes == nodes);
}

proof fn lemma_local_lookup_first(nodes: Seq<NodeView>, key: Seq<char>, s: int)
    requires
        0 <= s < nodes.len(),
        nodes[s].kind == NodeKind::Symbol && (nodes[s].name == Some(key) || nodes[s].qualified_name == Some(key)),
        forall|m: int| 0 <= m < s ==> !((#[trigger] nodes[m]).kind == NodeKind::Symbol
            && (nodes[m].name == Some(key) || nodes[m].qualified_name == Some(key))),
    ensures
        local_lookup(nodes, key) == Some(nodes[s].id),
    decreases s,
{
    if s > 0 {
        assert(!(nodes[0].kind == NodeKind::Symbol && (nodes[0].name == Some(key) || nodes[0].qualified_name == Some(key))));
        assert forall|m: int| 0 <= m < s - 1 implies !((#[trigger] nodes.drop_first()[m]).kind == NodeKind::Symbol
            && (nodes.drop_first()[m].name == Some(key) || nodes.drop_first()[m].qualified_name == Some(key))) by {
            assert(nodes.drop_first()[m] == nodes[m + 1]);
        }
        lemma_local_lookup_first(nodes.drop_first(), key, s - 1);
    }
}

proof fn lemma_external_name_is(nodes: Seq<NodeView>, id: Seq<char>, name: Seq<char>, j: int)
    requires
        0 <= j < nodes.len(),
        nodes[j].kind == NodeKind::ExternalSymbol && nodes[j].id == id && nodes[j].name == Some(name),
        forall|m: int| 0 <= m < nodes.len() && (#[trigger] nodes[m]).kind == NodeKind::ExternalSymbol && nodes[m].id == id
            ==> nodes[m].name == Some(name),
    ensures
        external_name(nodes, id) == Some(name),
    decreases nodes.len(),
{
    let n = nodes.last();
    assert(n == nodes[nodes.len() - 1]);
    if !(n.kind == NodeKind::ExternalSymbol && n.id == id && n.name is Some) {
        assert(j < nodes.len() - 1);
        assert forall|m: int| 0 <= m < nodes.drop_last().len() && (#[trigger] nodes.drop_last()[m]).kind == NodeKind::ExternalSymbol
            && nodes.drop_last()[m].id == id implies nodes.drop_last()[m].name == Some(name) by {
            assert(nodes.drop_last()[m] == nodes[m]);
        }
        assert(nodes.drop_last()[j] == nodes[j]);
        lemma_external_name_is(nodes.drop_last(), id, name, j);
    }
}

/// After resolution, a call or reference to an external symbol named `n` points
/// at the first local symbol whose name or qualified name is `n`, when there is
/// one, and keeps its kind and its caller.
pub proof fn calls_resolve_to_local_symbols(p: PartitionView, k: int, j: int, s: int, n: Seq<char>)
    requires
        0 <= k < p.edges.len(),
        p.edges[k].kind == EdgeKind::Calls || p.edges[k].kind == EdgeKind::References,
        0 <= j < p.nodes.len(),
        p.nodes[j].kind == NodeKind::ExternalSymbol && p.nodes[j].id == p.edges[k].to && p.nodes[j].name == Some(n),
        forall|m: int| 0 <= m < p.nodes.len() && (#[trigger] p.nodes[m]).kind == NodeKind::ExternalSymbol
            && p.nodes[m].id == p.edges[k].to ==> p.nodes[m].name == Some(n),
        0 <= s < p.nodes.len(),
        p.nodes[s].kind == NodeKind::Symbol && (p.nodes[s].name == Some(n) || p.nodes[s].qualified_name == Some(n)),
        forall|m: int| 0 <= m < s ==> !((#[trigger] p.nodes[m]).kind == NodeKind::Symbol
            && (p.nodes[m].name == Some(n) || p.nodes[m].qualified_name == Some(n))),
    ensures
        spec_resolve(p).edges.len() == p.edges.len(),
        spec_resolve(p).edges[k].to == p.nodes[s].id,
        spec_resolve(p).edges[k].from == p.edges[k].from,
        spec_resolve(p).edges[k].kind == p.edges[k].kind,
{
    lemma_external_name_is(p.nodes, p.edges[k].to, n, j);
    lemma_local_lookup_first(p.nodes, n, s);
    assert(spec_resolve(p).edges[k] == resolve_edge(p.nodes, p.edges[k]));
}

} // verus!
