use crate::diagnostics::{Diagnostic, DiagnosticView};
use crate::ids::NodeId;
use crate::language::Language;
use crate::model::{
    diagnostic_views, edge_views, node_views, spec_edge, spec_node, EdgeKind, EdgeView,
    GraphEdge, GraphNode, GraphPartition, NodeKind, NodeView, PartitionView, SourceFile,
    SymbolKind,
};
use crate::paths::spec_file_name;
use crate::quality::{Confidence, FactProvenance};
use crate::span::{LineColumn, SourceSpan};
use crate::text::{chars_of, string_views, strings_from, is_ident_char, split_all, split_on, spec_read_identifier, read_identifier_chars, starts_with, string_from, trim_end, trim_start, trimmed_end, trimmed_start, text_is, strip_prefix_str, index_of, lemma_index_of, position, slice, lemma_encode_len_bound, lines, lines_of, scan_lines, strip_cr, utf8_len};
use vstd::prelude::*;
use vstd::utf8::encode_utf8;

verus! {


pub proof fn lemma_node_views_push(s: Seq<GraphNode>, n: GraphNode)
    ensures
        node_views(s.push(n)) == node_views(s).push(n@),
{
    assert(node_views(s.push(n)) =~= node_views(s).push(n@));
}

pub proof fn lemma_edge_views_push(s: Seq<GraphEdge>, e: GraphEdge)
    ensures
        edge_views(s.push(e)) == edge_views(s).push(e@),
{
    assert(edge_views(s.push(e)) =~= edge_views(s).push(e@));
}

pub proof fn lemma_diagnostic_views_push(s: Seq<Diagnostic>, d: Diagnostic)
    ensures
        diagnostic_views(s.push(d)) == diagnostic_views(s).push(d@),
{
    assert(diagnostic_views(s.push(d)) =~= diagnostic_views(s).push(d@));
}

/// What a partition builder holds, as plain values.
pub struct BuilderView {
    pub partition: PartitionView,
    pub file_node: Seq<char>,
    pub repo: Seq<char>,
    pub file: Seq<char>,
    pub language: Language,
    pub provenance: FactProvenance,
    pub confidence: Confidence,
}

/// Whether some node has the id.
pub open spec fn has_node_id(nodes: Seq<NodeView>, id: Seq<char>) -> bool {
    exists|i: int| 0 <= i < nodes.len() && nodes[i].id == id
}

/// Whether some edge has the id.
pub open spec fn has_edge_id(edges: Seq<EdgeView>, id: Seq<char>) -> bool {
    exists|i: int| 0 <= i < edges.len() && edges[i].id == id
}

/// The nodes with `n` added, unless a node with its id is already there.
pub open spec fn with_node(nodes: Seq<NodeView>, n: NodeView) -> Seq<NodeView> {
    if has_node_id(nodes, n.id) {
        nodes
    } else {
        nodes.push(n)
    }
}

/// The edges with `e` added, unless an edge with its id is already there.
pub open spec fn with_edge(edges: Seq<EdgeView>, e: EdgeView) -> Seq<EdgeView> {
    if has_edge_id(edges, e.id) {
        edges
    } else {
        edges.push(e)
    }
}

/// No two edges share an id.
pub open spec fn edge_ids_unique(edges: Seq<EdgeView>) -> bool {
    forall|i: int, j: int| 0 <= i < j < edges.len() ==> edges[i].id != edges[j].id
}

/// A node of the builder's file, carrying the builder's fact quality.
pub open spec fn local_node(
    b: BuilderView,
    kind: NodeKind,
    name: Seq<char>,
    qualified: Seq<char>,
    symbol_kind: Option<SymbolKind>,
    span: Option<SourceSpan>,
) -> NodeView {
    NodeView {
        symbol_kind,
        provenance: b.provenance,
        confidence: b.confidence,
        ..spec_node(b.repo, Some(b.file), kind, b.language, Some(name), Some(qualified), span)
    }
}

/// A node outside the file (a package or an unresolved symbol), named `name`.
pub open spec fn external_node(
    b: BuilderView,
    kind: NodeKind,
    name: Seq<char>,
    symbol_kind: Option<SymbolKind>,
) -> NodeView {
    NodeView {
        symbol_kind,
        provenance: b.provenance,
        confidence: b.confidence,
        ..spec_node(b.repo, None, kind, Language::Unknown, Some(name), Some(name), None)
    }
}

/// An edge carrying the builder's fact quality.
pub open spec fn quality_edge(
    b: BuilderView,
    kind: EdgeKind,
    from: Seq<char>,
    to: Seq<char>,
    span: Option<SourceSpan>,
) -> EdgeView {
    EdgeView { provenance: b.provenance, confidence: b.confidence, ..spec_edge(kind, from, to, span) }
}

pub open spec fn set_nodes(b: BuilderView, nodes: Seq<NodeView>) -> BuilderView {
    BuilderView { partition: PartitionView { nodes, ..b.partition }, ..b }
}

pub open spec fn set_edges(b: BuilderView, edges: Seq<EdgeView>) -> BuilderView {
    BuilderView { partition: PartitionView { edges, ..b.partition }, ..b }
}

/// The builder after adding an edge (kept out when its id is already there).
pub open spec fn spec_add_edge(
    b: BuilderView,
    kind: EdgeKind,
    from: Seq<char>,
    to: Seq<char>,
    span: Option<SourceSpan>,
) -> BuilderView {
    set_edges(b, with_edge(b.partition.edges, quality_edge(b, kind, from, to, span)))
}

/// The builder after adding an external node (kept out when its id is already there).
pub open spec fn spec_add_external(
    b: BuilderView,
    kind: NodeKind,
    name: Seq<char>,
    symbol_kind: Option<SymbolKind>,
) -> BuilderView {
    set_nodes(b, with_node(b.partition.nodes, external_node(b, kind, name, symbol_kind)))
}

/// The builder after adding a symbol: its node, and a `Defines` edge from the file.
pub open spec fn spec_add_symbol(
    b: BuilderView,
    name: Seq<char>,
    qualified: Seq<char>,
    kind: SymbolKind,
    span: SourceSpan,
) -> BuilderView {
    let n = local_node(b, NodeKind::Symbol, name, qualified, Some(kind), Some(span));
    let b1 = set_nodes(b, b.partition.nodes.push(n));
    spec_add_edge(b1, EdgeKind::Defines, b.file_node, n.id, Some(span))
}

/// The id of the node `spec_add_symbol` adds.
pub open spec fn symbol_id(
    b: BuilderView,
    name: Seq<char>,
    qualified: Seq<char>,
    kind: SymbolKind,
    span: SourceSpan,
) -> Seq<char> {
    local_node(b, NodeKind::Symbol, name, qualified, Some(kind), Some(span)).id
}

/// The builder after adding an import: its node, the imported package, an `Imports`
/// edge to the package and a `Contains` edge from the file.
pub open spec fn spec_add_import(b: BuilderView, specifier: Seq<char>, span: SourceSpan) -> BuilderView {
    let n = local_node(b, NodeKind::Import, specifier, specifier, None, Some(span));
    let b1 = set_nodes(b, b.partition.nodes.push(n));
    let b2 = spec_add_external(b1, NodeKind::Package, specifier, None);
    let package = external_node(b, NodeKind::Package, specifier, None).id;
    let b3 = spec_add_edge(b2, EdgeKind::Imports, n.id, package, Some(span));
    spec_add_edge(b3, EdgeKind::Contains, b.file_node, n.id, None)
}

/// The builder after adding an import under a local alias: a node named by the
/// alias and qualified by the module, the module's package, an `Imports` edge to
/// it and a `Contains` edge from the file.
pub open spec fn spec_add_import_alias(b: BuilderView, module: Seq<char>, alias: Seq<char>, span: SourceSpan) -> BuilderView {
    let n = local_node(b, NodeKind::Import, alias, module, None, Some(span));
    let b1 = set_nodes(b, b.partition.nodes.push(n));
    let b2 = spec_add_external(b1, NodeKind::Package, module, None);
    let package = external_node(b, NodeKind::Package, module, None).id;
    let b3 = spec_add_edge(b2, EdgeKind::Imports, n.id, package, Some(span));
    spec_add_edge(b3, EdgeKind::Contains, b.file_node, n.id, None)
}

/// The id of the node `spec_add_import` adds.
pub open spec fn import_id(b: BuilderView, specifier: Seq<char>, span: SourceSpan) -> Seq<char> {
    local_node(b, NodeKind::Import, specifier, specifier, None, Some(span)).id
}

/// The builder after adding an export: its node and an `Exports` edge from the file.
pub open spec fn spec_add_export(b: BuilderView, name: Seq<char>, span: SourceSpan) -> BuilderView {
    let n = local_node(b, NodeKind::Export, name, name, None, Some(span));
    let b1 = set_nodes(b, b.partition.nodes.push(n));
    spec_add_edge(b1, EdgeKind::Exports, b.file_node, n.id, Some(span))
}

/// The builder after adding an edge of `kind` from `from` to the external symbol `target`.
pub open spec fn spec_add_link(
    b: BuilderView,
    kind: EdgeKind,
    from: Seq<char>,
    target: Seq<char>,
    span: SourceSpan,
) -> BuilderView {
    let b1 = spec_add_external(b, NodeKind::ExternalSymbol, target, Some(SymbolKind::Unknown));
    let to = external_node(b, NodeKind::ExternalSymbol, target, Some(SymbolKind::Unknown)).id;
    spec_add_edge(b1, kind, from, to, Some(span))
}

/// The builder after adding a dependency of `from` on the package `package`.
pub open spec fn spec_add_dependency(
    b: BuilderView,
    from: Seq<char>,
    package: Seq<char>,
    span: SourceSpan,
) -> BuilderView {
    let b1 = spec_add_external(b, NodeKind::Package, package, None);
    let to = external_node(b, NodeKind::Package, package, None).id;
    spec_add_edge(b1, EdgeKind::DependsOn, from, to, Some(span))
}

/// The builder after adding a diagnostic.
pub open spec fn spec_add_diagnostic(b: BuilderView, d: DiagnosticView) -> BuilderView {
    BuilderView {
        partition: PartitionView { diagnostics: b.partition.diagnostics.push(d), ..b.partition },
        ..b
    }
}

/// The builder after adding several diagnostics, in order.
pub open spec fn spec_add_diagnostics(b: BuilderView, ds: Seq<DiagnosticView>) -> BuilderView {
    BuilderView {
        partition: PartitionView { diagnostics: b.partition.diagnostics + ds, ..b.partition },
        ..b
    }
}

/// The file node a builder starts from: named after the file, qualified by its path.
pub open spec fn file_node_view(file: SourceFile, provenance: FactProvenance, confidence: Confidence) -> NodeView {
    NodeView {
        provenance,
        confidence,
        ..spec_node(
            file.repo_id@,
            Some(file.file_id@),
            NodeKind::File,
            file.language,
            spec_file_name(file.path@),
            Some(replace_backslashes(file.path@)),
            None,
        )
    }
}

/// `s` with each `\` replaced by `/`.
pub open spec fn replace_backslashes(s: Seq<char>) -> Seq<char> {
    s.map_values(|c: char| if c == '\\' { '/' } else { c })
}

/// The builder a file starts from: its partition holds only the file node.
pub open spec fn spec_new_builder(file: SourceFile, provenance: FactProvenance, confidence: Confidence) -> BuilderView {
    let n = file_node_view(file, provenance, confidence);
    BuilderView {
        partition: PartitionView {
            file_id: file.file_id@,
            path: file.path@,
            language: file.language,
            fingerprint: file.fingerprint@,
            nodes: seq![n],
            edges: Seq::empty(),
            diagnostics: Seq::empty(),
            metrics: crate::model::PartitionMetrics::zero_spec(),
        },
        file_node: n.id,
        repo: file.repo_id@,
        file: file.file_id@,
        language: file.language,
        provenance,
        confidence,
    }
}

/// Builds the graph partition of one source file.
pub struct PartitionBuilder<'a> {
    file: &'a SourceFile,
    partition: GraphPartition,
    file_node: NodeId,
    provenance: FactProvenance,
    confidence: Confidence,
}

impl<'a> View for PartitionBuilder<'a> {
    type V = BuilderView;

    closed spec fn view(&self) -> BuilderView {
        BuilderView {
            partition: self.partition@,
            file_node: self.file_node@,
            repo: self.file.repo_id@,
            file: self.file.file_id@,
            language: self.file.language,
            provenance: self.provenance,
            confidence: self.confidence,
        }
    }
}

fn replaced_backslashes(s: &[char]) -> (r: Vec<char>)
    ensures
        r@ == replace_backslashes(s@),
{
    let mut r: Vec<char> = Vec::new();
    let mut i: usize = 0;
    while i < s.len()
        invariant
            i <= s.len(),
            r@ == replace_backslashes(s@.take(i as int)),
        decreases s.len() - i,
    {
        let c = if s[i] == '\\' {
            '/'
        } else {
            s[i]
        };
        r.push(c);
        i += 1;
        assert(r@ =~= replace_backslashes(s@.take(i as int)));
    }
    assert(s@.take(s.len() as int) =~= s@);
    r
}

impl<'a> PartitionBuilder<'a> {
    /// Whether the builder keeps its shape: the file node, of kind `File`, comes
    /// first; no two edges share an id; no two package or external-symbol nodes
    /// share an id; and every `Defines`, `Exports` and `Contains` edge starts at
    /// the file node.
    pub open spec fn wf(&self) -> bool {
        builder_shape(self@)
    }

    /// What the builder's own steps need: the file node first and no two edges
    /// with one id.
    spec fn consistent(&self) -> bool {
        &&& self@.partition.nodes.len() >= 1
        &&& self@.partition.nodes[0].id == self@.file_node
        &&& edge_ids_unique(self@.partition.edges)
    }

    /// A builder whose nodes and edges carry the given fact quality.
    pub fn new_with_quality(file: &'a SourceFile, provenance: FactProvenance, confidence: Confidence) -> (r: Self)
        ensures
            r@ == spec_new_builder(*file, provenance, confidence),
            r.wf(),
    {
        let mut partition = GraphPartition::empty(file);
        let path = crate::text::chars_of(file.path.as_str());
        let file_name = match crate::paths::file_name_of(&path) {
            Some(n) => Some(crate::text::string_from(&n)),
            None => None,
        };
        let qualified = crate::text::string_from(&replaced_backslashes(&path));
        let node = GraphNode::deterministic(
            &file.repo_id,
            Some(&file.file_id),
            NodeKind::File,
            file.language,
            file_name,
            Some(qualified),
            None,
        ).with_fact_quality(provenance, confidence);
        let file_node = node.id.clone();
        let ghost nv = node@;
        partition.nodes.push(node);
        proof {
            assert(node_views(partition.nodes@) =~= seq![nv]);
            assert(edge_views(partition.edges@) =~= Seq::<EdgeView>::empty());
            assert(diagnostic_views(partition.diagnostics@) =~= Seq::<DiagnosticView>::empty());
        }
        PartitionBuilder { file, partition, file_node, provenance, confidence }
    }

    /// A builder whose facts come from the structural scanner.
    pub fn new(file: &'a SourceFile) -> (r: Self)
        ensures
            r@ == spec_new_builder(*file, FactProvenance::StructuralScanner, Confidence::Medium),
            r.wf(),
    {
        Self::new_with_quality(file, FactProvenance::StructuralScanner, Confidence::Medium)
    }

    /// The id of the file node.
    pub fn file_node(&self) -> (r: NodeId)
        ensures
            r@ == self@.file_node,
    {
        self.file_node.clone()
    }

    fn push_node(&mut self, node: GraphNode)
        requires
            old(self).consistent(),
        ensures
            final(self)@ == set_nodes(old(self)@, old(self)@.partition.nodes.push(node@)),
            final(self).consistent(),
    {
        let ghost before = self.partition.nodes@;
        self.partition.nodes.push(node);
        proof {
            lemma_node_views_push(before, node);
        }
    }

    fn add_edge(&mut self, kind: EdgeKind, from: &NodeId, to: &NodeId, span: Option<SourceSpan>)
        requires
            old(self).consistent(),
        ensures
            final(self)@ == spec_add_edge(old(self)@, kind, from@, to@, span),
            final(self).consistent(),
    {
        let edge = GraphEdge::deterministic(kind, from, to, span).with_fact_quality(
            self.provenance,
            self.confidence,
        );
        let ghost ev = edge@;
        let ghost es = edge_views(self.partition.edges@);
        let mut i: usize = 0;
        while i < self.partition.edges.len()
            invariant
                i <= self.partition.edges.len(),
                es == edge_views(self.partition.edges@),
                ev == edge@,
                self@ == old(self)@,
                self.consistent(),
                ev == quality_edge(old(self)@, kind, from@, to@, span),
                forall|j: int| 0 <= j < i ==> es[j].id != ev.id,
            decreases self.partition.edges.len() - i,
        {
            if self.partition.edges[i].id == edge.id {
                assert(es[i as int].id == ev.id);
                return;
            }
            i += 1;
        }
        let ghost before = self.partition.edges@;
        self.partition.edges.push(edge);
        proof {
            lemma_edge_views_push(before, edge);
        }
    }

    fn add_external(&mut self, kind: NodeKind, name: &str, symbol_kind: Option<SymbolKind>) -> (r: NodeId)
        requires
            old(self).consistent(),
        ensures
            final(self)@ == spec_add_external(old(self)@, kind, name@, symbol_kind),
            r@ == external_node(old(self)@, kind, name@, symbol_kind).id,
            final(self).consistent(),
    {
        let mut node = GraphNode::deterministic(
            &self.file.repo_id,
            None,
            kind,
            Language::Unknown,
            Some(copy_string(name)),
            Some(copy_string(name)),
            None,
        ).with_fact_quality(self.provenance, self.confidence);
        node.symbol_kind = symbol_kind;
        let id = node.id.clone();
        let ghost nv = node@;
        let ghost ns = node_views(self.partition.nodes@);
        let mut i: usize = 0;
        while i < self.partition.nodes.len()
            invariant
                i <= self.partition.nodes.len(),
                ns == node_views(self.partition.nodes@),
                nv == node@,
                self@ == old(self)@,
                self.consistent(),
                nv == external_node(old(self)@, kind, name@, symbol_kind),
                id@ == nv.id,
                forall|j: int| 0 <= j < i ==> ns[j].id != nv.id,
            decreases self.partition.nodes.len() - i,
        {
            if self.partition.nodes[i].id == node.id {
                assert(ns[i as int].id == nv.id);
                return id;
            }
            i += 1;
        }
        self.push_node(node);
        id
    }

    /// Adds a symbol node and its `Defines` edge from the file; returns its id.
    pub fn add_symbol(&mut self, name: &str, qualified_name: &str, kind: SymbolKind, span: SourceSpan) -> (r: NodeId)
        requires
            old(self).wf(),
        ensures
            final(self)@ == spec_add_symbol(old(self)@, name@, qualified_name@, kind, span),
            r@ == symbol_id(old(self)@, name@, qualified_name@, kind, span),
            final(self).wf(),
    {
        let ghost before = self@;
        proof {
            lemma_step(before, BuildStep::Symbol(name@, qualified_name@, kind, span));
        }
        let node = GraphNode::deterministic(
            &self.file.repo_id,
            Some(&self.file.file_id),
            NodeKind::Symbol,
            self.file.language,
            Some(copy_string(name)),
            Some(copy_string(qualified_name)),
            Some(span),
        ).with_symbol_kind(kind).with_fact_quality(self.provenance, self.confidence);
        let id = node.id.clone();
        self.push_node(node);
        let from = self.file_node.clone();
        self.add_edge(EdgeKind::Defines, &from, &id, Some(span));
        id
    }

    /// Adds an import node, the imported package, and their edges; returns the
    /// import node's id.
    pub fn add_import(&mut self, specifier: &str, span: SourceSpan) -> (r: NodeId)
        requires
            old(self).wf(),
        ensures
            final(self)@ == spec_add_import(old(self)@, specifier@, span),
            r@ == import_id(old(self)@, specifier@, span),
            final(self).wf(),
    {
        let ghost before = self@;
        proof {
            lemma_step(before, BuildStep::Import(specifier@, span));
        }
        let node = GraphNode::deterministic(
            &self.file.repo_id,
            Some(&self.file.file_id),
            NodeKind::Import,
            self.file.language,
            Some(copy_string(specifier)),
            Some(copy_string(specifier)),
            Some(span),
        ).with_fact_quality(self.provenance, self.confidence);
        let id = node.id.clone();
        self.push_node(node);
        let package = self.add_external(NodeKind::Package, specifier, None);
        self.add_edge(EdgeKind::Imports, &id, &package, Some(span));
        let from = self.file_node.clone();
        self.add_edge(EdgeKind::Contains, &from, &id, None);
        id
    }

    /// Adds an import of `module` under the local name `alias`; returns the import
    /// node's id.
    pub fn add_import_alias(&mut self, module: &str, alias: &str, span: SourceSpan) -> (r: NodeId)
        requires
            old(self).wf(),
        ensures
            final(self)@ == spec_add_import_alias(old(self)@, module@, alias@, span),
            final(self).wf(),
    {
        let ghost before = self@;
        proof {
            lemma_step(before, BuildStep::ImportAlias(module@, alias@, span));
        }
        let node = GraphNode::deterministic(
            &self.file.repo_id,
            Some(&self.file.file_id),
            NodeKind::Import,
            self.file.language,
            Some(copy_string(alias)),
            Some(copy_string(module)),
            Some(span),
        ).with_fact_quality(self.provenance, self.confidence);
        let id = node.id.clone();
        self.push_node(node);
        let package = self.add_external(NodeKind::Package, module, None);
        self.add_edge(EdgeKind::Imports, &id, &package, Some(span));
        let from = self.file_node.clone();
        self.add_edge(EdgeKind::Contains, &from, &id, None);
        id
    }

    /// Adds an export node and its `Exports` edge from the file; returns its id.
    pub fn add_export(&mut self, name: &str, span: SourceSpan) -> (r: NodeId)
        requires
            old(self).wf(),
        ensures
            final(self)@ == spec_add_export(old(self)@, name@, span),
            r@ == local_node(old(self)@, NodeKind::Export, name@, name@, None, Some(span)).id,
            final(self).wf(),
    {
        let ghost before = self@;
        proof {
            lemma_step(before, BuildStep::Export(name@, span));
        }
        let node = GraphNode::deterministic(
            &self.file.repo_id,
            Some(&self.file.file_id),
            NodeKind::Export,
            self.file.language,
            Some(copy_string(name)),
            Some(copy_string(name)),
            Some(span),
        ).with_fact_quality(self.provenance, self.confidence);
        let id = node.id.clone();
        self.push_node(node);
        let from = self.file_node.clone();
        self.add_edge(EdgeKind::Exports, &from, &id, Some(span));
        id
    }

    /// Adds a `Calls` edge from `caller` to the external symbol `callee`.
    pub fn add_call(&mut self, caller: &NodeId, callee: &str, span: SourceSpan)
        requires
            old(self).wf(),
        ensures
            final(self)@ == spec_add_link(old(self)@, EdgeKind::Calls, caller@, callee@, span),
            final(self).wf(),
    {
        let ghost before = self@;
        proof {
            lemma_step(before, BuildStep::Call(caller@, callee@, span));
        }
        let callee_id = self.add_external(NodeKind::ExternalSymbol, callee, Some(SymbolKind::Unknown));
        self.add_edge(EdgeKind::Calls, caller, &callee_id, Some(span));
    }

    /// Adds a `References` edge from `from` to the external symbol `target`.
    pub fn add_reference(&mut self, from: &NodeId, target: &str, span: SourceSpan)
        requires
            old(self).wf(),
        ensures
            final(self)@ == spec_add_link(old(self)@, EdgeKind::References, from@, target@, span),
            final(self).wf(),
    {
        let ghost before = self@;
        proof {
            lemma_step(before, BuildStep::Reference(from@, target@, span));
        }
        let target_id = self.add_external(NodeKind::ExternalSymbol, target, Some(SymbolKind::Unknown));
        self.add_edge(EdgeKind::References, from, &target_id, Some(span));
    }

    /// Adds a `DependsOn` edge from `from` to the package `package`.
    pub fn add_dependency(&mut self, from: &NodeId, package: &str, span: SourceSpan)
        requires
            old(self).wf(),
        ensures
            final(self)@ == spec_add_dependency(old(self)@, from@, package@, span),
            final(self).wf(),
    {
        let ghost before = self@;
        proof {
            lemma_step(before, BuildStep::Dependency(from@, package@, span));
        }
        let package_id = self.add_external(NodeKind::Package, package, None);
        self.add_edge(EdgeKind::DependsOn, from, &package_id, Some(span));
    }

    /// Adds a diagnostic to the partition.
    pub fn add_diagnostic(&mut self, diagnostic: Diagnostic)
        requires
            old(self).wf(),
        ensures
            final(self)@ == spec_add_diagnostic(old(self)@, diagnostic@),
            final(self).wf(),
    {
        let ghost before = self@;
        proof {
            lemma_step(before, BuildStep::Diagnostic(diagnostic@));
        }
        let ghost before = self.partition.diagnostics@;
        self.partition.diagnostics.push(diagnostic);
        proof {
            lemma_diagnostic_views_push(before, diagnostic);
        }
    }

    /// Adds diagnostics to the partition, in order.
    pub fn add_diagnostics(&mut self, diagnostics: Vec<Diagnostic>)
        requires
            old(self).wf(),
        ensures
            final(self)@ == spec_add_diagnostics(old(self)@, diagnostic_views(diagnostics@)),
            final(self).wf(),
    {
        let ghost start = self@;
        let mut i: usize = 0;
        while i < diagnostics.len()
            invariant
                i <= diagnostics.len(),
                self.wf(),
                self@ == spec_add_diagnostics(start, diagnostic_views(diagnostics@).take(i as int)),
            decreases diagnostics.len() - i,
        {
            self.add_diagnostic(diagnostics[i].clone());
            i += 1;
            assert(start.partition.diagnostics + diagnostic_views(diagnostics@).take(i as int) =~= (start.partition.diagnostics + diagnostic_views(diagnostics@).take(i - 1)).push(diagnostics@[i - 1]@));
        }
        assert(diagnostic_views(diagnostics@).take(diagnostics.len() as int) =~= diagnostic_views(diagnostics@));
    }

    /// The partition built so far.
    pub fn finish(self) -> (r: GraphPartition)
        ensures
            r@ == self@.partition,
    {
        self.partition
    }
}

fn copy_string(s: &str) -> (r: String)
    ensures
        r@ == s@,
{
    crate::text::string_from(&crate::text::chars_of(s))
}

/// The builder keeps edge ids unique: adding an edge whose id is already present
/// leaves the edges as they were, and otherwise appends it.
pub proof fn adding_edges_keeps_ids_unique(edges: Seq<EdgeView>, e: EdgeView)
    requires
        edge_ids_unique(edges),
    ensures
        edge_ids_unique(with_edge(edges, e)),
        has_edge_id(with_edge(edges, e), e.id),
{
    if !has_edge_id(edges, e.id) {
        let r = edges.push(e);
        assert forall|i: int, j: int| 0 <= i < j < r.len() implies r[i].id != r[j].id by {
            if j == edges.len() {
                assert(edges[i].id != e.id);
            }
        }
        assert(r[edges.len() as int].id == e.id);
    }
}

/// Bytes before line `k`: each earlier line's UTF-8 length plus one for its line feed.
pub open spec fn line_offset(ls: Seq<Seq<char>>, k: int) -> int
    decreases k,
{
    if k <= 0 || k > ls.len() {
        0
    } else {
        line_offset(ls, k - 1) + encode_utf8(ls[k - 1]).len() + 1
    }
}

/// Characters in the lines, each counted with one more for its line feed.
pub open spec fn lines_total(ls: Seq<Seq<char>>) -> int
    decreases ls.len(),
{
    if ls.len() == 0 {
        0
    } else {
        lines_total(ls.drop_last()) + ls.last().len() + 1
    }
}

proof fn lemma_scan_lines_total(s: Seq<char>)
    ensures
        lines_total(scan_lines(s).0) + scan_lines(s).1.len() <= s.len(),
    decreases s.len(),
{
    if s.len() > 0 {
        lemma_scan_lines_total(s.drop_last());
        let prev = scan_lines(s.drop_last());
        if s.last() == '\n' {
            assert(prev.0.push(strip_cr(prev.1)).drop_last() =~= prev.0);
        }
    }
}

proof fn lemma_line_len_bound(ls: Seq<Seq<char>>, i: int)
    requires
        0 <= i < ls.len(),
    ensures
        ls[i].len() + 1 <= lines_total(ls),
    decreases ls.len(),
{
    lemma_lines_total_nonneg(ls.drop_last());
    if i < ls.len() - 1 {
        lemma_line_len_bound(ls.drop_last(), i);
    }
}

proof fn lemma_lines_total_nonneg(ls: Seq<Seq<char>>)
    ensures
        lines_total(ls) >= 0,
    decreases ls.len(),
{
    if ls.len() > 0 {
        lemma_lines_total_nonneg(ls.drop_last());
    }
}

proof fn lemma_line_offset_bound(ls: Seq<Seq<char>>, k: int)
    requires
        0 <= k <= ls.len(),
    ensures
        0 <= line_offset(ls, k) <= 4 * lines_total(ls.take(k)),
    decreases k,
{
    if k > 0 {
        lemma_line_offset_bound(ls, k - 1);
        assert(ls.take(k).drop_last() =~= ls.take(k - 1));
        lemma_encode_len_bound(ls[k - 1]);
    }
}

proof fn lemma_lines_total_take(ls: Seq<Seq<char>>, k: int)
    requires
        0 <= k <= ls.len(),
    ensures
        lines_total(ls.take(k)) <= lines_total(ls),
    decreases ls.len(),
{
    if k < ls.len() {
        lemma_lines_total_take(ls.drop_last(), k);
        assert(ls.drop_last().take(k) =~= ls.take(k));
    } else {
        assert(ls.take(k) =~= ls);
    }
}

/// Each line is no longer than the text it comes from, and there is at most one
/// line more than characters.
pub proof fn lemma_line_within_text(text: Seq<char>, i: int)
    requires
        0 <= i < lines(text).len(),
    ensures
        lines(text)[i].len() <= text.len(),
{
    lemma_scan_lines_total(text);
    let sc = scan_lines(text);
    if sc.1.len() > 0 {
        assert(sc.0.push(sc.1).drop_last() =~= sc.0);
    }
    lemma_line_len_bound(lines(text), i);
}

/// What `line_span` gives for line `index` of `text`: its byte range (each earlier
/// line counted with one byte for its line feed) and its columns one-based.
pub open spec fn spec_line_span(text: Seq<char>, index: int) -> SourceSpan {
    let ls = lines(text);
    let k = if index < ls.len() {
        index
    } else {
        ls.len() as int
    };
    let start = line_offset(ls, k);
    let line = if index < ls.len() {
        ls[index]
    } else {
        Seq::empty()
    };
    SourceSpan {
        byte_start: start as u32,
        byte_end: (start + encode_utf8(line).len()) as u32,
        start: LineColumn { line: (index as u32 + 1) as u32, column: 1 },
        end: LineColumn { line: (index as u32 + 1) as u32, column: (line.len() as u32 + 1) as u32 },
    }
}

/// The span of line `line_index` of `text`.
pub fn line_span_of(text: &[char], line_index: usize) -> (r: SourceSpan)
    requires
        8 * text@.len() + 8 <= usize::MAX,
        text@.len() < u32::MAX,
        (line_index as u32) < u32::MAX,
    ensures
        r == spec_line_span(text@, line_index as int),
{
    let ls = lines_of(text);
    let ghost lsv = ls.deep_view();
    proof {
        lemma_scan_lines_total(text@);
        let sc = scan_lines(text@);
        if sc.1.len() > 0 {
            assert(sc.0.push(sc.1).drop_last() =~= sc.0);
        }
        assert(lines_total(lsv) <= text@.len() + 1);
    }
    let k = if line_index < ls.len() {
        line_index
    } else {
        ls.len()
    };
    let mut start: usize = 0;
    let mut i: usize = 0;
    while i < k
        invariant
            i <= k <= ls.len(),
            lsv == ls.deep_view(),
            lines_total(lsv) <= text@.len() + 1,
            8 * text@.len() + 8 <= usize::MAX,
            start == line_offset(lsv, i as int),
        decreases k - i,
    {
        proof {
            lemma_line_offset_bound(lsv, i + 1);
            lemma_lines_total_take(lsv, i + 1);
            assert(lsv[i as int] =~= ls[i as int]@);
            lemma_encode_len_bound(lsv[i as int]);
            lemma_line_len_bound(lsv, i as int);
        }
        start = start + utf8_len(&ls[i]) + 1;
        i += 1;
    }
    let empty: Vec<char> = Vec::new();
    let line: &Vec<char> = if line_index < ls.len() {
        &ls[line_index]
    } else {
        &empty
    };
    proof {
        lemma_line_offset_bound(lsv, k as int);
        lemma_lines_total_take(lsv, k as int);
        if line_index < ls.len() {
            assert(lsv[line_index as int] =~= ls[line_index as int]@);
            lemma_line_len_bound(lsv, line_index as int);
        }
        assert(line@.len() <= text@.len() + 1);
        lemma_encode_len_bound(line@);
        assert(empty@ =~= Seq::<char>::empty());
    }
    let width = utf8_len(line);
    let count = line.len();
    SourceSpan::new(
        start as u32,
        (start + width) as u32,
        LineColumn::new(line_index as u32 + 1, 1),
        LineColumn::new(line_index as u32 + 1, count as u32 + 1),
    )
}

/// The span of line `line_index` of `text`.
pub fn line_span(text: &str, line_index: usize) -> (r: SourceSpan)
    requires
        8 * text@.len() + 8 <= usize::MAX,
        text@.len() < u32::MAX,
        (line_index as u32) < u32::MAX,
    ensures
        r == spec_line_span(text@, line_index as int),
{
    let t = chars_of(text);
    line_span_of(&t, line_index)
}


/// The identifier after `prefix` at the start of the trimmed line.
pub open spec fn spec_first_identifier_after(line: Seq<char>, prefix: Seq<char>) -> Option<
    Seq<char>,
> {
    let t = trim_start(line);
    if starts_with(t, prefix) {
        spec_read_identifier(trim_start(t.skip(prefix.len() as int)))
    } else {
        None
    }
}

/// The identifier after `prefix` at the start of the trimmed line.
pub fn first_identifier_after_chars(line: &[char], prefix: &str) -> (r: Option<Vec<char>>)
    ensures
        match r {
            Some(v) => spec_first_identifier_after(line@, prefix@) == Some(v@),
            None => spec_first_identifier_after(line@, prefix@) is None,
        },
{
    let t = trimmed_start(line);
    match strip_prefix_str(&t, prefix) {
        Some(rest) => {
            let r = trimmed_start(&rest);
            read_identifier_chars(&r)
        },
        None => None,
    }
}

/// The identifier after `prefix` at the start of the trimmed line.
pub fn first_identifier_after(line: &str, prefix: &str) -> (r: Option<String>)
    ensures
        match r {
            Some(v) => spec_first_identifier_after(line@, prefix@) == Some(v@),
            None => spec_first_identifier_after(line@, prefix@) is None,
        },
{
    let l = chars_of(line);
    match first_identifier_after_chars(&l, prefix) {
        Some(v) => Some(string_from(&v)),
        None => None,
    }
}

/// The identifier at the start of `input`.
pub fn read_identifier(input: &str) -> (r: Option<String>)
    ensures
        match r {
            Some(v) => spec_read_identifier(input@) == Some(v@),
            None => spec_read_identifier(input@) is None,
        },
{
    let l = chars_of(input);
    match read_identifier_chars(&l) {
        Some(v) => Some(string_from(&v)),
        None => None,
    }
}

/// The text between the first `q` in `s` and the next `q` after it.
pub open spec fn quoted_by(s: Seq<char>, q: char) -> Option<Seq<char>> {
    match index_of(s, q) {
        Some(a) => match index_of(s.skip(a + 1), q) {
            Some(b) => Some(s.subrange(a + 1, a + 1 + b)),
            None => None,
        },
        None => None,
    }
}

/// The first text quoted by double quotes, else the first quoted by single quotes.
pub open spec fn spec_quoted_module(s: Seq<char>) -> Option<Seq<char>> {
    match quoted_by(s, '"') {
        Some(m) => Some(m),
        None => quoted_by(s, '\''),
    }
}

fn quoted_by_chars(s: &[char], q: char) -> (r: Option<Vec<char>>)
    ensures
        match r {
            Some(v) => quoted_by(s@, q) == Some(v@),
            None => quoted_by(s@, q) is None,
        },
{
    proof {
        lemma_index_of(s@, q);
    }
    match position(s, q) {
        Some(a) => {
            assert(index_of(s@, q) == Some(a as int));
            assert(a < s.len());
            let rest = slice(s, a + 1, s.len());
            assert(rest@ =~= s@.skip(a + 1));
            proof {
                lemma_index_of(rest@, q);
            }
            match position(&rest, q) {
                Some(b) => {
                    assert(index_of(rest@, q) == Some(b as int));
                    let v = slice(s, a + 1, a + 1 + b);
                    Some(v)
                },
                None => None,
            }
        },
        None => None,
    }
}

/// The first quoted module name in `line`.
pub fn quoted_module_chars(line: &[char]) -> (r: Option<Vec<char>>)
    ensures
        match r {
            Some(v) => spec_quoted_module(line@) == Some(v@),
            None => spec_quoted_module(line@) is None,
        },
{
    match quoted_by_chars(line, '"') {
        Some(m) => Some(m),
        None => quoted_by_chars(line, '\''),
    }
}

/// The first quoted module name in `line`.
pub fn quoted_module(line: &str) -> (r: Option<String>)
    ensures
        match r {
            Some(v) => spec_quoted_module(line@) == Some(v@),
            None => spec_quoted_module(line@) is None,
        },
{
    let l = chars_of(line);
    match quoted_module_chars(&l) {
        Some(v) => Some(string_from(&v)),
        None => None,
    }
}

/// Characters that may appear in a called name, a dotted path included.
pub open spec fn is_call_char(c: char) -> bool {
    is_ident_char(c) || c == '.'
}

/// The part of `s` after its last character that cannot be in a called name.
pub open spec fn after_last_non_call(s: Seq<char>) -> Seq<char>
    decreases s.len(),
{
    if s.len() == 0 {
        s
    } else if !is_call_char(s.last()) {
        Seq::empty()
    } else {
        after_last_non_call(s.drop_last()).push(s.last())
    }
}

/// The part of `s` after its last `.`.
pub open spec fn after_last_dot(s: Seq<char>) -> Seq<char>
    decreases s.len(),
{
    if s.len() == 0 {
        s
    } else if s.last() == '.' {
        Seq::empty()
    } else {
        after_last_dot(s.drop_last()).push(s.last())
    }
}

/// Words that look like calls but are not.
pub open spec fn is_call_keyword(n: Seq<char>) -> bool {
    n == "if"@ || n == "for"@ || n == "while"@ || n == "switch"@ || n == "function"@ || n
        == "def"@ || n == "class"@ || n == "return"@
}

/// The name called by the text before a `(`.
pub open spec fn call_candidate(part: Seq<char>) -> Seq<char> {
    after_last_dot(after_last_non_call(trim_end(part)))
}

/// The called names of the pieces, in order, leaving out empty names and keywords.
pub open spec fn call_names(parts: Seq<Seq<char>>) -> Seq<Seq<char>>
    decreases parts.len(),
{
    if parts.len() == 0 {
        Seq::empty()
    } else {
        let prev = call_names(parts.drop_last());
        let n = call_candidate(parts.last());
        if n.len() > 0 && !is_call_keyword(n) {
            prev.push(n)
        } else {
            prev
        }
    }
}

/// The names that `line` appears to call: for each piece of the line before a `(`,
/// the last dotted name in it, without its qualifiers.
pub open spec fn spec_call_identifiers(line: Seq<char>) -> Seq<Seq<char>> {
    call_names(split_all(line, '('))
}

fn after_last_non_call_chars(s: &[char]) -> (r: Vec<char>)
    ensures
        r@ == after_last_non_call(s@),
{
    let mut i: usize = s.len();
    while i > 0 && (is_identifier_char_exec(s[i - 1]) || s[i - 1] == '.')
        invariant
            i <= s.len(),
            forall|j: int| i <= j < s.len() ==> is_call_char(s@[j]),
        decreases i,
    {
        i -= 1;
    }
    proof {
        lemma_after_last_non_call(s@, i as int);
    }
    slice(s, i, s.len())
}

fn is_identifier_char_exec(c: char) -> (r: bool)
    ensures
        r == is_ident_char(c),
{
    crate::text::is_identifier_char(c)
}

proof fn lemma_after_last_non_call(s: Seq<char>, i: int)
    requires
        0 <= i <= s.len(),
        forall|j: int| i <= j < s.len() ==> is_call_char(s[j]),
        i > 0 ==> !is_call_char(s[i - 1]),
    ensures
        after_last_non_call(s) == s.subrange(i, s.len() as int),
    decreases s.len(),
{
    if s.len() > i {
        lemma_after_last_non_call(s.drop_last(), i);
        assert(s.drop_last().subrange(i, s.len() - 1).push(s.last()) =~= s.subrange(
            i,
            s.len() as int,
        ));
    } else if i > 0 {
        assert(s.subrange(i, s.len() as int) =~= Seq::<char>::empty());
    } else {
        assert(s.subrange(i, s.len() as int) =~= s);
        assert(s.len() == 0);
    }
}

proof fn lemma_after_last_dot(s: Seq<char>, i: int)
    requires
        0 <= i <= s.len(),
        forall|j: int| i <= j < s.len() ==> s[j] != '.',
        i > 0 ==> s[i - 1] == '.',
    ensures
        after_last_dot(s) == s.subrange(i, s.len() as int),
    decreases s.len(),
{
    if s.len() > i {
        lemma_after_last_dot(s.drop_last(), i);
        assert(s.drop_last().subrange(i, s.len() - 1).push(s.last()) =~= s.subrange(
            i,
            s.len() as int,
        ));
    } else if i > 0 {
        assert(s.subrange(i, s.len() as int) =~= Seq::<char>::empty());
    } else {
        assert(s.subrange(i, s.len() as int) =~= s);
        assert(s.len() == 0);
    }
}

pub fn after_last_dot_chars(s: &[char]) -> (r: Vec<char>)
    ensures
        r@ == after_last_dot(s@),
{
    let mut i: usize = s.len();
    while i > 0 && s[i - 1] != '.'
        invariant
            i <= s.len(),
            forall|j: int| i <= j < s.len() ==> s@[j] != '.',
        decreases i,
    {
        i -= 1;
    }
    proof {
        lemma_after_last_dot(s@, i as int);
    }
    slice(s, i, s.len())
}

fn is_call_keyword_chars(n: &[char]) -> (r: bool)
    ensures
        r == is_call_keyword(n@),
{
    text_is(n, "if") || text_is(n, "for") || text_is(n, "while") || text_is(n, "switch")
        || text_is(n, "function") || text_is(n, "def") || text_is(n, "class") || text_is(
        n,
        "return",
    )
}

/// The names that `line` appears to call.
pub fn call_identifiers_chars(line: &[char]) -> (r: Vec<Vec<char>>)
    ensures
        r.deep_view() == spec_call_identifiers(line@),
{
    let parts = split_on(line, '(');
    let ghost pv = parts.deep_view();
    let mut r: Vec<Vec<char>> = Vec::new();
    let mut i: usize = 0;
    while i < parts.len()
        invariant
            i <= parts.len(),
            pv == parts.deep_view(),
            r.deep_view() == call_names(pv.take(i as int)),
        decreases parts.len() - i,
    {
        assert(pv.take(i + 1).drop_last() =~= pv.take(i as int));
        assert(pv[i as int] =~= parts[i as int]@);
        let t = trimmed_end(&parts[i]);
        let a = after_last_non_call_chars(&t);
        let n = after_last_dot_chars(&a);
        if n.len() > 0 && !is_call_keyword_chars(&n) {
            assert(n.deep_view() =~= n@);
            let ghost before = r.deep_view();
            r.push(n);
            assert(r.deep_view() =~= before.push(call_candidate(pv[i as int])));
        }
        i += 1;
    }
    assert(pv.take(parts.len() as int) =~= pv);
    r
}

/// The names that `line` appears to call.
pub fn call_identifiers(line: &str) -> (r: Vec<String>)
    ensures
        string_views(r@) == spec_call_identifiers(line@),
{
    let l = chars_of(line);
    let names = call_identifiers_chars(&l);
    strings_from(&names)
}

/// One call on a partition builder, by its arguments.
pub enum BuildStep {
    Symbol(Seq<char>, Seq<char>, SymbolKind, SourceSpan),
    Import(Seq<char>, SourceSpan),
    ImportAlias(Seq<char>, Seq<char>, SourceSpan),
    Export(Seq<char>, SourceSpan),
    Call(Seq<char>, Seq<char>, SourceSpan),
    Reference(Seq<char>, Seq<char>, SourceSpan),
    Dependency(Seq<char>, Seq<char>, SourceSpan),
    Diagnostic(DiagnosticView),
}

/// The builder after one call.
pub open spec fn build_step(b: BuilderView, s: BuildStep) -> BuilderView {
    match s {
        BuildStep::Symbol(name, qualified, kind, span) => spec_add_symbol(b, name, qualified, kind, span),
        BuildStep::Import(specifier, span) => spec_add_import(b, specifier, span),
        BuildStep::ImportAlias(module, alias, span) => spec_add_import_alias(b, module, alias, span),
        BuildStep::Export(name, span) => spec_add_export(b, name, span),
        BuildStep::Call(caller, callee, span) => spec_add_link(b, EdgeKind::Calls, caller, callee, span),
        BuildStep::Reference(from, target, span) => spec_add_link(b, EdgeKind::References, from, target, span),
        BuildStep::Dependency(from, package, span) => spec_add_dependency(b, from, package, span),
        BuildStep::Diagnostic(d) => spec_add_diagnostic(b, d),
    }
}

/// The builder after a sequence of calls, in order.
pub open spec fn build_steps(b: BuilderView, steps: Seq<BuildStep>) -> BuilderView
    decreases steps.len(),
{
    if steps.len() == 0 {
        b
    } else {
        build_step(build_steps(b, steps.drop_last()), steps.last())
    }
}

/// Whether a node stands outside the file: a package or an unresolved symbol.
pub open spec fn is_external_kind(k: NodeKind) -> bool {
    k == NodeKind::Package || k == NodeKind::ExternalSymbol
}

/// No two package or external-symbol nodes share an id.
pub open spec fn external_ids_unique(nodes: Seq<NodeView>) -> bool {
    forall|i: int, j: int|
        0 <= i < j < nodes.len() && is_external_kind(nodes[i].kind) && is_external_kind(nodes[j].kind)
            ==> nodes[i].id != nodes[j].id
}

/// Whether an edge kind hangs a node off its file.
pub open spec fn is_file_edge_kind(k: EdgeKind) -> bool {
    k == EdgeKind::Defines || k == EdgeKind::Exports || k == EdgeKind::Contains
}

/// Every `Defines`, `Exports` and `Contains` edge starts at the file node.
pub open spec fn file_edges_from(edges: Seq<EdgeView>, file_node: Seq<char>) -> bool {
    forall|i: int| 0 <= i < edges.len() && is_file_edge_kind(edges[i].kind) ==> edges[i].from == file_node
}

/// Every external-symbol node is the one `add_call` and `add_reference` make for
/// its name.
pub open spec fn externals_canonical(b: BuilderView) -> bool {
    forall|i: int| 0 <= i < b.partition.nodes.len() && (#[trigger] b.partition.nodes[i]).kind == NodeKind::ExternalSymbol
        ==> (b.partition.nodes[i].name matches Some(n)
            && b.partition.nodes[i] == external_node(b, NodeKind::ExternalSymbol, n, Some(SymbolKind::Unknown)))
}

/// The shape every builder keeps: its file node first, unique edge ids, unique
/// package and external-symbol ids, file edges only from the file node, and each
/// external-symbol node the one made for its name.
pub open spec fn builder_shape(b: BuilderView) -> bool {
    &&& b.partition.nodes.len() >= 1
    &&& b.partition.nodes[0].id == b.file_node
    &&& b.partition.nodes[0].kind == NodeKind::File
    &&& edge_ids_unique(b.partition.edges)
    &&& external_ids_unique(b.partition.nodes)
    &&& file_edges_from(b.partition.edges, b.file_node)
    &&& externals_canonical(b)
}

/// What one call keeps of a builder beyond its shape.
pub open spec fn keeps_frame(b: BuilderView, c: BuilderView) -> bool {
    &&& c.file_node == b.file_node
    &&& c.repo == b.repo
    &&& c.file == b.file
    &&& c.language == b.language
    &&& c.provenance == b.provenance
    &&& c.confidence == b.confidence
    &&& c.partition.nodes.len() >= b.partition.nodes.len()
    &&& forall|i: int| 0 <= i < b.partition.nodes.len() ==> #[trigger] c.partition.nodes[i] == b.partition.nodes[i]
    &&& c.partition.edges.len() >= b.partition.edges.len()
    &&& forall|i: int| 0 <= i < b.partition.edges.len() ==> #[trigger] c.partition.edges[i] == b.partition.edges[i]
}

/// What a builder holds it keeps: a node or edge id that `b` has, `c` has too.
pub proof fn lemma_frame_keeps_ids(b: BuilderView, c: BuilderView, id: Seq<char>)
    requires
        keeps_frame(b, c),
    ensures
        has_node_id(b.partition.nodes, id) ==> has_node_id(c.partition.nodes, id),
        has_edge_id(b.partition.edges, id) ==> has_edge_id(c.partition.edges, id),
{
    if has_node_id(b.partition.nodes, id) {
        let i = choose|i: int| 0 <= i < b.partition.nodes.len() && b.partition.nodes[i].id == id;
        assert(c.partition.nodes[i] == b.partition.nodes[i]);
    }
    if has_edge_id(b.partition.edges, id) {
        let i = choose|i: int| 0 <= i < b.partition.edges.len() && b.partition.edges[i].id == id;
        assert(c.partition.edges[i] == b.partition.edges[i]);
    }
}

proof fn lemma_push_local(b: BuilderView, n: NodeView)
    requires
        builder_shape(b),
        !is_external_kind(n.kind),
    ensures
        builder_shape(set_nodes(b, b.partition.nodes.push(n))),
        keeps_frame(b, set_nodes(b, b.partition.nodes.push(n))),
{
    let ns = b.partition.nodes.push(n);
    assert forall|i: int, j: int|
        0 <= i < j < ns.len() && is_external_kind(ns[i].kind) && is_external_kind(ns[j].kind)
        implies ns[i].id != ns[j].id by {
        assert(j < b.partition.nodes.len());
    }
}

/// Adding an external node keeps the builder's shape and frame, and the node's
/// id is then present.
pub proof fn lemma_add_external(b: BuilderView, kind: NodeKind, name: Seq<char>, symbol_kind: Option<SymbolKind>)
    requires
        builder_shape(b),
        is_external_kind(kind),
        kind == NodeKind::ExternalSymbol ==> symbol_kind == Some(SymbolKind::Unknown),
    ensures
        builder_shape(spec_add_external(b, kind, name, symbol_kind)),
        keeps_frame(b, spec_add_external(b, kind, name, symbol_kind)),
        has_node_id(spec_add_external(b, kind, name, symbol_kind).partition.nodes, external_node(b, kind, name, symbol_kind).id),
{
    let n = external_node(b, kind, name, symbol_kind);
    let old_nodes = b.partition.nodes;
    if !has_node_id(old_nodes, n.id) {
        let ns = old_nodes.push(n);
        assert forall|i: int, j: int|
            0 <= i < j < ns.len() && is_external_kind(ns[i].kind) && is_external_kind(ns[j].kind)
            implies ns[i].id != ns[j].id by {
            if j == old_nodes.len() {
                assert(old_nodes[i].id != n.id);
            }
        }
        assert(ns[old_nodes.len() as int].id == n.id);
    }
}

/// Adding an edge keeps the builder's shape and frame, and the edge's id is then
/// present.
pub proof fn lemma_add_edge(b: BuilderView, kind: EdgeKind, from: Seq<char>, to: Seq<char>, span: Option<SourceSpan>)
    requires
        builder_shape(b),
        is_file_edge_kind(kind) ==> from == b.file_node,
    ensures
        builder_shape(spec_add_edge(b, kind, from, to, span)),
        keeps_frame(b, spec_add_edge(b, kind, from, to, span)),
        has_edge_id(spec_add_edge(b, kind, from, to, span).partition.edges, quality_edge(b, kind, from, to, span).id),
{
    let e = quality_edge(b, kind, from, to, span);
    adding_edges_keeps_ids_unique(b.partition.edges, e);
    let es = with_edge(b.partition.edges, e);
    assert forall|i: int| 0 <= i < es.len() && is_file_edge_kind(es[i].kind) implies es[i].from == b.file_node by {
        if i >= b.partition.edges.len() {
            assert(es[i] == e);
        }
    }
}

/// Keeping a frame is transitive.
pub proof fn lemma_frame_trans(a: BuilderView, b: BuilderView, c: BuilderView)
    requires
        keeps_frame(a, b),
        keeps_frame(b, c),
    ensures
        keeps_frame(a, c),
{
    assert forall|i: int| 0 <= i < a.partition.nodes.len() implies #[trigger] c.partition.nodes[i] == a.partition.nodes[i] by {
        assert(b.partition.nodes[i] == a.partition.nodes[i]);
    }
    assert forall|i: int| 0 <= i < a.partition.edges.len() implies #[trigger] c.partition.edges[i] == a.partition.edges[i] by {
        assert(b.partition.edges[i] == a.partition.edges[i]);
    }
}

proof fn lemma_link(b: BuilderView, kind: EdgeKind, from: Seq<char>, target: Seq<char>, span: SourceSpan)
    requires
        builder_shape(b),
        !is_file_edge_kind(kind),
    ensures
        builder_shape(spec_add_link(b, kind, from, target, span)),
        keeps_frame(b, spec_add_link(b, kind, from, target, span)),
{
    let b1 = spec_add_external(b, NodeKind::ExternalSymbol, target, Some(SymbolKind::Unknown));
    let to = external_node(b, NodeKind::ExternalSymbol, target, Some(SymbolKind::Unknown)).id;
    lemma_add_external(b, NodeKind::ExternalSymbol, target, Some(SymbolKind::Unknown));
    lemma_add_edge(b1, kind, from, to, Some(span));
    lemma_frame_trans(b, b1, spec_add_edge(b1, kind, from, to, Some(span)));
}

/// One call keeps a builder's shape, its frame, and all it already holds.
pub proof fn lemma_step(b: BuilderView, s: BuildStep)
    requires
        builder_shape(b),
    ensures
        builder_shape(build_step(b, s)),
        keeps_frame(b, build_step(b, s)),
{
    match s {
        BuildStep::Symbol(name, qualified, kind, span) => {
            let n = local_node(b, NodeKind::Symbol, name, qualified, Some(kind), Some(span));
            let b1 = set_nodes(b, b.partition.nodes.push(n));
            lemma_push_local(b, n);
            lemma_add_edge(b1, EdgeKind::Defines, b.file_node, n.id, Some(span));
            lemma_frame_trans(b, b1, build_step(b, s));
        },
        BuildStep::Import(specifier, span) => {
            let n = local_node(b, NodeKind::Import, specifier, specifier, None, Some(span));
            let b1 = set_nodes(b, b.partition.nodes.push(n));
            lemma_push_local(b, n);
            let b2 = spec_add_external(b1, NodeKind::Package, specifier, None);
            lemma_add_external(b1, NodeKind::Package, specifier, None);
            let package = external_node(b, NodeKind::Package, specifier, None).id;
            let b3 = spec_add_edge(b2, EdgeKind::Imports, n.id, package, Some(span));
            lemma_add_edge(b2, EdgeKind::Imports, n.id, package, Some(span));
            lemma_add_edge(b3, EdgeKind::Contains, b.file_node, n.id, None);
            lemma_frame_trans(b, b1, b2);
            lemma_frame_trans(b, b2, b3);
            lemma_frame_trans(b, b3, build_step(b, s));
        },
        BuildStep::ImportAlias(module, alias, span) => {
            let n = local_node(b, NodeKind::Import, alias, module, None, Some(span));
            let b1 = set_nodes(b, b.partition.nodes.push(n));
            lemma_push_local(b, n);
            let b2 = spec_add_external(b1, NodeKind::Package, module, None);
            lemma_add_external(b1, NodeKind::Package, module, None);
            let package = external_node(b, NodeKind::Package, module, None).id;
            let b3 = spec_add_edge(b2, EdgeKind::Imports, n.id, package, Some(span));
            lemma_add_edge(b2, EdgeKind::Imports, n.id, package, Some(span));
            lemma_add_edge(b3, EdgeKind::Contains, b.file_node, n.id, None);
            lemma_frame_trans(b, b1, b2);
            lemma_frame_trans(b, b2, b3);
            lemma_frame_trans(b, b3, build_step(b, s));
        },
        BuildStep::Export(name, span) => {
            let n = local_node(b, NodeKind::Export, name, name, None, Some(span));
            let b1 = set_nodes(b, b.partition.nodes.push(n));
            lemma_push_local(b, n);
            lemma_add_edge(b1, EdgeKind::Exports, b.file_node, n.id, Some(span));
            lemma_frame_trans(b, b1, build_step(b, s));
        },
        BuildStep::Call(caller, callee, span) => {
            lemma_link(b, EdgeKind::Calls, caller, callee, span);
        },
        BuildStep::Reference(from, target, span) => {
            lemma_link(b, EdgeKind::References, from, target, span);
        },
        BuildStep::Dependency(from, package, span) => {
            let b1 = spec_add_external(b, NodeKind::Package, package, None);
            let to = external_node(b, NodeKind::Package, package, None).id;
            lemma_add_external(b, NodeKind::Package, package, None);
            lemma_add_edge(b1, EdgeKind::DependsOn, from, to, Some(span));
            lemma_frame_trans(b, b1, build_step(b, s));
        },
        BuildStep::Diagnostic(d) => {},
    }
}

proof fn lemma_steps(b: BuilderView, steps: Seq<BuildStep>)
    requires
        builder_shape(b),
    ensures
        builder_shape(build_steps(b, steps)),
        keeps_frame(b, build_steps(b, steps)),
    decreases steps.len(),
{
    if steps.len() > 0 {
        let mid = build_steps(b, steps.drop_last());
        lemma_steps(b, steps.drop_last());
        lemma_step(mid, steps.last());
        lemma_frame_trans(b, mid, build_steps(b, steps));
    }
}

/// Whatever a builder made by `PartitionBuilder::new` or `new_with_quality` is
/// asked to add (`steps` are its `add_*` calls, in order), its file node, which
/// `file_node` returns, stays the same and stays the first node of the partition
/// that `finish` returns; that partition has no two edges with one id, no two
/// package or external-symbol nodes with one id, and every `Defines`, `Exports`
/// and `Contains` edge starts at the file node.
pub proof fn built_partitions_keep_their_shape(
    file: SourceFile,
    provenance: FactProvenance,
    confidence: Confidence,
    steps: Seq<BuildStep>,
)
    ensures
        ({
            let start = spec_new_builder(file, provenance, confidence);
            let b = build_steps(start, steps);
            &&& b.file_node == start.file_node
            &&& b.partition.nodes[0] == file_node_view(file, provenance, confidence)
            &&& b.partition.nodes[0].id == b.file_node
            &&& b.partition.nodes[0].kind == NodeKind::File
            &&& edge_ids_unique(b.partition.edges)
            &&& external_ids_unique(b.partition.nodes)
            &&& file_edges_from(b.partition.edges, b.file_node)
        }),
{
    let start = spec_new_builder(file, provenance, confidence);
    assert(builder_shape(start));
    lemma_steps(start, steps);
}

/// However a builder made by `PartitionBuilder::new` or `new_with_quality` is
/// called (`steps`), no two external-symbol nodes of its partition share a name:
/// the node `add_call` or `add_reference` makes for a callee is the only one of
/// that name.
pub proof fn external_symbols_are_named_once(
    file: SourceFile,
    provenance: FactProvenance,
    confidence: Confidence,
    steps: Seq<BuildStep>,
    i: int,
    j: int,
)
    requires
        ({
            let nodes = build_steps(spec_new_builder(file, provenance, confidence), steps).partition.nodes;
            &&& 0 <= i < j < nodes.len()
            &&& nodes[i].kind == NodeKind::ExternalSymbol
            &&& nodes[j].kind == NodeKind::ExternalSymbol
        }),
    ensures
        ({
            let nodes = build_steps(spec_new_builder(file, provenance, confidence), steps).partition.nodes;
            nodes[i].name != nodes[j].name
        }),
{
    let start = spec_new_builder(file, provenance, confidence);
    let b = build_steps(start, steps);
    assert(builder_shape(start));
    lemma_steps(start, steps);
    let nodes = b.partition.nodes;
    assert(externals_canonical(b));
    assert(nodes[i].kind == NodeKind::ExternalSymbol);
    assert(nodes[j].kind == NodeKind::ExternalSymbol);
    if nodes[i].name == nodes[j].name {
        assert(nodes[i] == nodes[j]);
        assert(is_external_kind(nodes[i].kind) && is_external_kind(nodes[j].kind));
        assert(nodes[i].id != nodes[j].id);
    }
}

/// A call recorded once stays recorded once: after `add_call` the partition has the
/// callee's external-symbol node and the `Calls` edge to it, and the same call
/// again changes nothing. The same holds of `add_reference`.
pub proof fn repeated_links_change_nothing(b: BuilderView, kind: EdgeKind, from: Seq<char>, target: Seq<char>, span: SourceSpan)
    requires
        builder_shape(b),
        kind == EdgeKind::Calls || kind == EdgeKind::References,
    ensures
        has_node_id(spec_add_link(b, kind, from, target, span).partition.nodes, external_node(b, NodeKind::ExternalSymbol, target, Some(SymbolKind::Unknown)).id),
        has_edge_id(
            spec_add_link(b, kind, from, target, span).partition.edges,
            quality_edge(b, kind, from, external_node(b, NodeKind::ExternalSymbol, target, Some(SymbolKind::Unknown)).id, Some(span)).id,
        ),
        spec_add_link(spec_add_link(b, kind, from, target, span), kind, from, target, span) == spec_add_link(b, kind, from, target, span),
{
    let n = external_node(b, NodeKind::ExternalSymbol, target, Some(SymbolKind::Unknown));
    let b1 = spec_add_external(b, NodeKind::ExternalSymbol, target, Some(SymbolKind::Unknown));
    lemma_add_external(b, NodeKind::ExternalSymbol, target, Some(SymbolKind::Unknown));
    lemma_add_edge(b1, kind, from, n.id, Some(span));
    let b2 = spec_add_link(b, kind, from, target, span);
    assert(external_node(b2, NodeKind::ExternalSymbol, target, Some(SymbolKind::Unknown)) == n);
    assert(quality_edge(b2, kind, from, n.id, Some(span)) == quality_edge(b1, kind, from, n.id, Some(span)));
    assert(has_node_id(b2.partition.nodes, n.id)) by {
        let i = choose|i: int| 0 <= i < b1.partition.nodes.len() && b1.partition.nodes[i].id == n.id;
        assert(b2.partition.nodes[i] == b1.partition.nodes[i]);
    }
    assert(spec_add_external(b2, NodeKind::ExternalSymbol, target, Some(SymbolKind::Unknown)) == b2);
}

} // verus!
