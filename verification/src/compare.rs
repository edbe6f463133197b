use crate::diagnostics::{Diagnostic, DiagnosticView};
use crate::diff_report::{
    change_label, edge_impact_label, risk_for, spec_change_label, spec_edge_impact_label,
    spec_risk_for, ChangeKind, ChangedSymbol, ChangedSymbolView, DependencyChange,
    DependencyChangeView, DiffDiagnostic, DiffDiagnosticView, FileChange, FileChangeView,
    ImpactedFile, ImpactedFileView, RefSide, SymbolSummary, SymbolSummaryView,
};
use crate::ids::NodeId;
use crate::language::Language;
use crate::model::{
    opt_view, EdgeKind, EdgeView, GraphNode, GraphPartition, NodeKind, NodeView, PartitionView,
    SymbolKind,
};
use crate::order::{chars_lt, seq_lt, set_add, set_insert, strictly_sorted};
use crate::quality::{Confidence, FactProvenance};
use crate::span::{LineColumn, SourceSpan};
use crate::symbol_identity::{kind_key, spec_kind_key, spec_scoped_name, symbol_key, SymbolKey};
use crate::syntax::same_chars;
use crate::ids::{blake3_hex, blake3_hex_of};
use crate::order::string_views;
use crate::syntax::{byte_slice, text_of_bytes};
use crate::text::{
    chars_of, concat, lines, lines_of, starts_with, starts_with_str, string_from, trim_start, trimmed_start,
};
use vstd::utf8::encode_utf8;
use vstd::prelude::*;

verus! {

/// One side of a diff: a reference, the commit it resolved to, the tree it was
/// indexed in, the partitions and diagnostics of that index, the paths it
/// skipped, and the source text of each partition's file where it could be read.
pub struct IndexedRef {
    pub label: String,
    pub commit: String,
    pub root: String,
    pub partitions: Vec<GraphPartition>,
    pub diagnostics: Vec<Diagnostic>,
    pub skipped: Vec<String>,
    pub sources: Vec<Option<String>>,
}

pub open spec fn partition_views(ps: Seq<GraphPartition>) -> Seq<PartitionView> {
    ps.map_values(|p: GraphPartition| p@)
}

pub open spec fn source_views(s: Seq<Option<String>>) -> Seq<Option<Seq<char>>> {
    s.map_values(|o: Option<String>| opt_view(o))
}

/// The last node with id `id` among `ns`.
pub open spec fn last_node_in(ns: Seq<NodeView>, id: Seq<char>) -> Option<NodeView>
    decreases ns.len(),
{
    if ns.len() == 0 {
        None
    } else if ns.last().id == id {
        Some(ns.last())
    } else {
        last_node_in(ns.drop_last(), id)
    }
}

/// The node with id `id` as an index of all nodes keeps it: the last one met
/// when the partitions' nodes are taken in order.
pub open spec fn find_node(ps: Seq<PartitionView>, id: Seq<char>) -> Option<NodeView>
    decreases ps.len(),
{
    if ps.len() == 0 {
        None
    } else {
        match last_node_in(ps.last().nodes, id) {
            Some(n) => Some(n),
            None => find_node(ps.drop_last(), id),
        }
    }
}

/// How a node is named in a diff: its qualified name, else its name.
pub open spec fn node_label(ps: Seq<PartitionView>, id: Seq<char>) -> Option<Seq<char>> {
    match find_node(ps, id) {
        Some(n) => match n.qualified_name {
            Some(q) => Some(q),
            None => n.name,
        },
        None => None,
    }
}

/// The path, relative to `root`, of the last partition of the file `file_id`.
pub open spec fn file_path_of(ps: Seq<PartitionView>, root: Seq<char>, file_id: Seq<char>) -> Option<Seq<char>>
    decreases ps.len(),
{
    if ps.len() == 0 {
        None
    } else if ps.last().file_id == file_id {
        Some(crate::model::relative_key(ps.last().path, root))
    } else {
        file_path_of(ps.drop_last(), root, file_id)
    }
}

/// The path of the file a node belongs to.
pub open spec fn file_for_node(ps: Seq<PartitionView>, root: Seq<char>, id: Seq<char>) -> Option<Seq<char>> {
    match find_node(ps, id) {
        Some(n) => match n.file_id {
            Some(f) => file_path_of(ps, root, f),
            None => None,
        },
        None => None,
    }
}

/// Where a rename moved `file`: the new path of the last rename from it.
pub open spec fn rename_target(changes: Seq<FileChangeView>, file: Seq<char>) -> Option<Seq<char>>
    decreases changes.len(),
{
    if changes.len() == 0 {
        None
    } else if changes.last().change == ChangeKind::Renamed && changes.last().old_path == Some(file) {
        Some(changes.last().path)
    } else {
        rename_target(changes.drop_last(), file)
    }
}

/// The path a file is compared under: where a rename moved it, else its own.
pub open spec fn comparison_file(changes: Seq<FileChangeView>, file: Seq<char>) -> Seq<char> {
    match rename_target(changes, file) {
        Some(p) => p,
        None => file,
    }
}

fn last_node_exec<'a>(ps: &'a Vec<GraphPartition>, id: &NodeId) -> (r: Option<&'a GraphNode>)
    ensures
        match r {
            Some(n) => find_node(partition_views(ps@), id@) == Some(n@),
            None => find_node(partition_views(ps@), id@) is None,
        },
{
    let ghost pv = partition_views(ps@);
    let mut i: usize = ps.len();
    assert(pv.take(ps.len() as int) =~= pv);
    while i > 0
        invariant
            i <= ps.len(),
            pv == partition_views(ps@),
            find_node(pv, id@) == find_node(pv.take(i as int), id@),
        decreases i,
    {
        let p = &ps[i - 1];
        let ghost nv = p@.nodes;
        assert(pv.take(i as int).last() == p@);
        assert(pv.take(i as int).drop_last() =~= pv.take(i - 1));
        let mut j: usize = p.nodes.len();
        assert(nv.take(p.nodes.len() as int) =~= nv);
        assert(find_node(pv, id@) == (match last_node_in(nv, id@) {
            Some(n) => Some(n),
            None => find_node(pv.take(i - 1), id@),
        }));
        while j > 0
            invariant
                j <= p.nodes.len(),
                nv == crate::model::node_views(p.nodes@),
                pv == partition_views(ps@),
                find_node(pv, id@) == (match last_node_in(nv, id@) {
                    Some(n) => Some(n),
                    None => find_node(pv.take(i - 1), id@),
                }),
                last_node_in(nv, id@) == last_node_in(nv.take(j as int), id@),
            decreases j,
        {
            assert(nv.take(j as int).last() == p.nodes@[j - 1]@);
            assert(nv.take(j as int).drop_last() =~= nv.take(j - 1));
            if p.nodes[j - 1].id == *id {
                return Some(&p.nodes[j - 1]);
            }
            j -= 1;
        }
        assert(nv.take(0) =~= Seq::<NodeView>::empty());
        i -= 1;
    }
    None
}

fn node_label_exec(ps: &Vec<GraphPartition>, id: &NodeId) -> (r: Option<String>)
    ensures
        opt_view(r) == node_label(partition_views(ps@), id@),
{
    match last_node_exec(ps, id) {
        Some(n) => match &n.qualified_name {
            Some(q) => Some(q.clone()),
            None => n.name.clone(),
        },
        None => None,
    }
}

fn file_path_exec(ps: &Vec<GraphPartition>, root: &str, file_id: &crate::ids::FileId) -> (r: Option<String>)
    ensures
        opt_view(r) == file_path_of(partition_views(ps@), root@, file_id@),
{
    let ghost pv = partition_views(ps@);
    let mut i: usize = ps.len();
    assert(pv.take(ps.len() as int) =~= pv);
    while i > 0
        invariant
            i <= ps.len(),
            pv == partition_views(ps@),
            file_path_of(pv, root@, file_id@) == file_path_of(pv.take(i as int), root@, file_id@),
        decreases i,
    {
        assert(pv.take(i as int).last() == ps@[i - 1]@);
        assert(pv.take(i as int).drop_last() =~= pv.take(i - 1));
        if ps[i - 1].file_id == *file_id {
            return Some(crate::model::relative_key_of(ps[i - 1].path.as_str(), root));
        }
        i -= 1;
    }
    None
}

fn file_for_node_exec(ps: &Vec<GraphPartition>, root: &str, id: &NodeId) -> (r: Option<String>)
    ensures
        opt_view(r) == file_for_node(partition_views(ps@), root@, id@),
{
    match last_node_exec(ps, id) {
        Some(n) => match &n.file_id {
            Some(f) => file_path_exec(ps, root, f),
            None => None,
        },
        None => None,
    }
}

fn comparison_file_exec(changes: &Vec<FileChange>, file: &String) -> (r: String)
    ensures
        r@ == comparison_file(crate::diff_report::file_views(changes@), file@),
{
    let ghost cv = crate::diff_report::file_views(changes@);
    let mut i: usize = changes.len();
    assert(cv.take(changes.len() as int) =~= cv);
    while i > 0
        invariant
            i <= changes.len(),
            cv == crate::diff_report::file_views(changes@),
            rename_target(cv, file@) == rename_target(cv.take(i as int), file@),
        decreases i,
    {
        assert(cv.take(i as int).last() == changes@[i - 1]@);
        assert(cv.take(i as int).drop_last() =~= cv.take(i - 1));
        let c = &changes[i - 1];
        if c.change == ChangeKind::Renamed {
            if let Some(old) = &c.old_path {
                if same_chars(old.as_str(), file.as_str()) {
                    return c.path.clone();
                }
            }
        }
        i -= 1;
    }
    file.clone()
}

/// What a symbol key holds, as plain values: the file it is compared under, its
/// language, its kind and its name within the file.
pub struct ComparisonKeyView {
    pub file: Seq<char>,
    pub language: Language,
    pub kind: Option<SymbolKind>,
    pub scoped_name: Seq<char>,
}

impl View for SymbolKey {
    type V = ComparisonKeyView;

    open spec fn view(&self) -> ComparisonKeyView {
        ComparisonKeyView { file: self.file@, language: self.language, kind: self.kind, scoped_name: self.scoped_name@ }
    }
}

/// A symbol on one side: its summary, the hash of its source text, the quality
/// of the fact and whether it is public API.
pub struct SymbolEntry {
    pub summary: SymbolSummary,
    pub source_hash: Option<String>,
    pub provenance: FactProvenance,
    pub confidence: Confidence,
    pub public_api: bool,
}

pub struct SymbolEntryView {
    pub summary: SymbolSummaryView,
    pub source_hash: Option<Seq<char>>,
    pub provenance: FactProvenance,
    pub confidence: Confidence,
    pub public_api: bool,
}

impl View for SymbolEntry {
    type V = SymbolEntryView;

    open spec fn view(&self) -> SymbolEntryView {
        SymbolEntryView {
            summary: self.summary@,
            source_hash: opt_view(self.source_hash),
            provenance: self.provenance,
            confidence: self.confidence,
            public_api: self.public_api,
        }
    }
}

/// Where a span starts and ends, by line and column.
pub open spec fn span_position(span: Option<SourceSpan>) -> Option<(LineColumn, LineColumn)> {
    match span {
        Some(s) => Some((s.start, s.end)),
        None => None,
    }
}

/// Whether two sides of a symbol are the same: same lines and columns, same
/// source hash and same fact quality. A symbol that only moved by bytes, because
/// text before it on earlier lines changed, is unchanged.
pub open spec fn same_fingerprint(a: SymbolEntryView, b: SymbolEntryView) -> bool {
    span_position(a.summary.span) == span_position(b.summary.span) && a.source_hash == b.source_hash
        && a.provenance == b.provenance && a.confidence == b.confidence
}

/// The place of each language in the order of languages.
pub open spec fn language_rank(l: Language) -> int {
    match l {
        Language::C => 0,
        Language::Cpp => 1,
        Language::Go => 2,
        Language::JavaScript => 3,
        Language::Json => 4,
        Language::Java => 5,
        Language::ObjectiveC => 6,
        Language::TypeScript => 7,
        Language::Python => 8,
        Language::Rust => 9,
        Language::Unknown => 10,
    }
}

/// The place of each symbol kind in the order of the kinds' labels (`class`,
/// `enum`, `field`, `function`, ...), no kind first.
pub open spec fn kind_rank(k: Option<SymbolKind>) -> int {
    match k {
        None => 0,
        Some(SymbolKind::Class) => 1,
        Some(SymbolKind::Enum) => 2,
        Some(SymbolKind::Field) => 3,
        Some(SymbolKind::Function) => 4,
        Some(SymbolKind::Interface) => 5,
        Some(SymbolKind::Method) => 6,
        Some(SymbolKind::Module) => 7,
        Some(SymbolKind::TypeAlias) => 8,
        Some(SymbolKind::Unknown) => 9,
        Some(SymbolKind::Variable) => 10,
    }
}

/// The order of symbol keys: by file, then language, then kind, then scoped name.
pub open spec fn key_lt(a: ComparisonKeyView, b: ComparisonKeyView) -> bool {
    seq_lt(a.file, b.file) || (a.file == b.file && (language_rank(a.language) < language_rank(b.language)
        || (a.language == b.language && (kind_rank(a.kind) < kind_rank(b.kind) || (a.kind == b.kind
        && seq_lt(a.scoped_name, b.scoped_name))))))
}

fn language_rank_exec(l: Language) -> (r: u8)
    ensures
        r == language_rank(l),
{
    match l {
        Language::C => 0,
        Language::Cpp => 1,
        Language::Go => 2,
        Language::JavaScript => 3,
        Language::Json => 4,
        Language::Java => 5,
        Language::ObjectiveC => 6,
        Language::TypeScript => 7,
        Language::Python => 8,
        Language::Rust => 9,
        Language::Unknown => 10,
    }
}

fn kind_rank_exec(k: Option<SymbolKind>) -> (r: u8)
    ensures
        r == kind_rank(k),
{
    match k {
        None => 0,
        Some(SymbolKind::Class) => 1,
        Some(SymbolKind::Enum) => 2,
        Some(SymbolKind::Field) => 3,
        Some(SymbolKind::Function) => 4,
        Some(SymbolKind::Interface) => 5,
        Some(SymbolKind::Method) => 6,
        Some(SymbolKind::Module) => 7,
        Some(SymbolKind::TypeAlias) => 8,
        Some(SymbolKind::Unknown) => 9,
        Some(SymbolKind::Variable) => 10,
    }
}

/// The kind of each place in the order of kinds.
pub open spec fn kind_at(i: int) -> Option<SymbolKind> {
    if i == 1 {
        Some(SymbolKind::Class)
    } else if i == 2 {
        Some(SymbolKind::Enum)
    } else if i == 3 {
        Some(SymbolKind::Field)
    } else if i == 4 {
        Some(SymbolKind::Function)
    } else if i == 5 {
        Some(SymbolKind::Interface)
    } else if i == 6 {
        Some(SymbolKind::Method)
    } else if i == 7 {
        Some(SymbolKind::Module)
    } else if i == 8 {
        Some(SymbolKind::TypeAlias)
    } else if i == 9 {
        Some(SymbolKind::Unknown)
    } else if i == 10 {
        Some(SymbolKind::Variable)
    } else {
        None
    }
}

proof fn lemma_kind_step(i: int)
    requires
        0 <= i < 10,
    ensures
        seq_lt(spec_kind_key(kind_at(i)), spec_kind_key(kind_at(i + 1))),
{
    reveal_strlit("class");
    reveal_strlit("enum");
    reveal_strlit("field");
    reveal_strlit("function");
    reveal_strlit("interface");
    reveal_strlit("method");
    reveal_strlit("module");
    reveal_strlit("type-alias");
    reveal_strlit("unknown");
    reveal_strlit("variable");
    reveal_with_fuel(seq_lt, 3);
    let a = spec_kind_key(kind_at(i));
    let b = spec_kind_key(kind_at(i + 1));
    if i == 3 || i == 6 {
        assert(a[0] == b[0]);
        assert(a.drop_first()[0] == a[1]);
        assert(b.drop_first()[0] == b[1]);
    }
}

proof fn lemma_kind_chain(i: int, j: int)
    requires
        0 <= i < j <= 10,
    ensures
        seq_lt(spec_kind_key(kind_at(i)), spec_kind_key(kind_at(j))),
    decreases j - i,
{
    lemma_kind_step(j - 1);
    if i < j - 1 {
        lemma_kind_chain(i, j - 1);
        crate::order::seq_lt_transitive(spec_kind_key(kind_at(i)), spec_kind_key(kind_at(j - 1)), spec_kind_key(kind_at(j)));
    }
}

/// Keys order symbol kinds by their labels, no kind first: one kind comes before
/// another exactly when its label does, and two kinds share a label only when
/// they are the same kind.
pub proof fn kind_order_follows_labels(a: Option<SymbolKind>, b: Option<SymbolKind>)
    ensures
        kind_rank(a) < kind_rank(b) <==> seq_lt(spec_kind_key(a), spec_kind_key(b)),
        spec_kind_key(a) == spec_kind_key(b) <==> a == b,
{
    assert(kind_at(kind_rank(a)) == a);
    assert(kind_at(kind_rank(b)) == b);
    if kind_rank(a) < kind_rank(b) {
        lemma_kind_chain(kind_rank(a), kind_rank(b));
        crate::order::seq_lt_irreflexive(spec_kind_key(a));
    } else if kind_rank(b) < kind_rank(a) {
        lemma_kind_chain(kind_rank(b), kind_rank(a));
        crate::order::seq_lt_irreflexive(spec_kind_key(b));
        if seq_lt(spec_kind_key(a), spec_kind_key(b)) {
            crate::order::seq_lt_transitive(spec_kind_key(a), spec_kind_key(b), spec_kind_key(a));
            crate::order::seq_lt_irreflexive(spec_kind_key(a));
        }
    } else {
        crate::order::seq_lt_irreflexive(spec_kind_key(a));
    }
}

fn text_less(a: &String, b: &String) -> (r: bool)
    ensures
        r == seq_lt(a@, b@),
{
    chars_lt(&chars_of(a.as_str()), &chars_of(b.as_str()))
}

fn key_less(a: &SymbolKey, b: &SymbolKey) -> (r: bool)
    ensures
        r == key_lt(a@, b@),
{
    if text_less(&a.file, &b.file) {
        return true;
    }
    if !same_chars(a.file.as_str(), b.file.as_str()) {
        return false;
    }
    let la = language_rank_exec(a.language);
    let lb = language_rank_exec(b.language);
    if la != lb {
        return la < lb;
    }
    let ka = kind_key(a.kind);
    let kb = kind_key(b.kind);
    proof {
        kind_order_follows_labels(a.kind, b.kind);
    }
    if !same_chars(ka, kb) {
        return chars_lt(&chars_of(ka), &chars_of(kb));
    }
    text_less(&a.scoped_name, &b.scoped_name)
}

fn key_same(a: &SymbolKey, b: &SymbolKey) -> (r: bool)
    ensures
        r == (a@ == b@),
{
    same_chars(a.file.as_str(), b.file.as_str()) && language_rank_exec(a.language) == language_rank_exec(b.language)
        && kind_rank_exec(a.kind) == kind_rank_exec(b.kind) && same_chars(a.scoped_name.as_str(), b.scoped_name.as_str())
}

pub open spec fn entry_views(v: Seq<(SymbolKey, SymbolEntry)>) -> Seq<(ComparisonKeyView, SymbolEntryView)> {
    v.map_values(|p: (SymbolKey, SymbolEntry)| (p.0@, p.1@))
}

/// A symbol index with `e` under `k`, kept in key order: `k` goes before the
/// first greater key, and replaces an equal one.
pub open spec fn symbol_insert(s: Seq<(ComparisonKeyView, SymbolEntryView)>, k: ComparisonKeyView, e: SymbolEntryView) -> Seq<(ComparisonKeyView, SymbolEntryView)>
    decreases s.len(),
{
    if s.len() == 0 {
        seq![(k, e)]
    } else if key_lt(k, s[0].0) {
        seq![(k, e)] + s
    } else if k == s[0].0 {
        seq![(k, e)] + s.drop_first()
    } else {
        seq![s[0]] + symbol_insert(s.drop_first(), k, e)
    }
}

fn insert_symbol(index: &mut Vec<(SymbolKey, SymbolEntry)>, k: SymbolKey, e: SymbolEntry)
    ensures
        entry_views(final(index)@) == symbol_insert(entry_views(old(index)@), k@, e@),
{
    let ghost s = entry_views(index@);
    let ghost kv = k@;
    let ghost ev = e@;
    let mut i: usize = 0;
    assert(s.skip(0) =~= s);
    assert(s.take(0) + symbol_insert(s.skip(0), kv, ev) =~= symbol_insert(s, kv, ev));
    while i < index.len()
        invariant
            i <= index.len(),
            s == entry_views(index@),
            index@ == old(index)@,
            kv == k@,
            ev == e@,
            s.take(i as int) + symbol_insert(s.skip(i as int), kv, ev) == symbol_insert(s, kv, ev),
        decreases index.len() - i,
    {
        assert(s.skip(i as int)[0] == s[i as int]);
        assert(s[i as int].0 == index@[i as int].0@);
        if key_less(&k, &index[i].0) {
            assert(symbol_insert(s.skip(i as int), kv, ev) == seq![(kv, ev)] + s.skip(i as int));
            index.insert(i, (k, e));
            assert(entry_views(index@) =~= s.take(i as int) + (seq![(kv, ev)] + s.skip(i as int)));
            return;
        }
        if key_same(&k, &index[i].0) {
            assert(symbol_insert(s.skip(i as int), kv, ev) == seq![(kv, ev)] + s.skip(i as int).drop_first());
            index.remove(i);
            index.insert(i, (k, e));
            assert(s.skip(i as int).drop_first() =~= s.skip(i + 1));
            assert(entry_views(index@) =~= s.take(i as int) + (seq![(kv, ev)] + s.skip(i as int).drop_first()));
            return;
        }
        assert(s.skip(i as int).drop_first() =~= s.skip(i + 1));
        assert(s.take(i + 1) =~= s.take(i as int) + seq![s[i as int]]);
        i += 1;
    }
    assert(s.skip(i as int) =~= Seq::<(ComparisonKeyView, SymbolEntryView)>::empty());
    index.push((k, e));
    assert(entry_views(index@) =~= s.take(i as int) + seq![(kv, ev)]);
}

/// The name an export node exports: its name, else its qualified name.
pub open spec fn export_label(n: NodeView) -> Option<Seq<char>> {
    match n.name {
        Some(x) => Some(x),
        None => n.qualified_name,
    }
}

/// The names the export nodes among `ns` export, in order.
pub open spec fn exported_names(ns: Seq<NodeView>) -> Seq<Seq<char>>
    decreases ns.len(),
{
    if ns.len() == 0 {
        Seq::empty()
    } else {
        exported_names(ns.drop_last()) + if ns.last().kind == NodeKind::Export {
            match export_label(ns.last()) {
                Some(x) => seq![x],
                None => Seq::empty(),
            }
        } else {
            Seq::empty()
        }
    }
}

/// The first line that holds code: not blank once leading space is gone, and not
/// an attribute.
pub open spec fn first_code_line(ls: Seq<Seq<char>>) -> Option<Seq<char>>
    decreases ls.len(),
{
    if ls.len() == 0 {
        None
    } else {
        let l = trim_start(ls[0]);
        if l.len() > 0 && !starts_with(l, "#["@) {
            Some(l)
        } else {
            first_code_line(ls.drop_first())
        }
    }
}

/// Whether a line declares something public: `pub `, `pub(` or `export `.
pub open spec fn starts_public(l: Seq<char>) -> bool {
    starts_with(l, "pub "@) || starts_with(l, "pub("@) || starts_with(l, "export "@)
}

/// A symbol is public API when its name or qualified name is exported, or when
/// the first code line of its source text declares it public.
pub open spec fn spec_is_public_api(n: NodeView, exports: Seq<Seq<char>>, snippet: Option<Seq<char>>) -> bool {
    (match n.name {
        Some(x) => exports.contains(x),
        None => false,
    }) || (match n.qualified_name {
        Some(q) => exports.contains(q),
        None => false,
    }) || (match snippet {
        Some(t) => match first_code_line(lines(t)) {
            Some(l) => starts_public(l),
            None => false,
        },
        None => false,
    })
}

/// Whether a line holds no code: blank once leading space is gone, or an
/// attribute (`#[`).
pub open spec fn holds_no_code(l: Seq<char>) -> bool {
    let t = trim_start(l);
    t.len() == 0 || (t.len() >= 2 && t[0] == '#' && t[1] == '[')
}

proof fn lemma_first_code_line_at(ls: Seq<Seq<char>>, k: int)
    requires
        0 <= k < ls.len(),
        forall|j: int| 0 <= j < k ==> holds_no_code(#[trigger] ls[j]),
        !holds_no_code(ls[k]),
    ensures
        first_code_line(ls) == Some(trim_start(ls[k])),
    decreases k,
{
    reveal_strlit("#[");
    if k > 0 {
        assert(holds_no_code(ls[0]));
        assert(trim_start(ls[0]).len() > 0 ==> starts_with(trim_start(ls[0]), "#["@)) by {
            let t = trim_start(ls[0]);
            if t.len() > 0 {
                assert(t.subrange(0, 2) =~= "#["@);
            }
        }
        assert forall|j: int| 0 <= j < k - 1 implies holds_no_code(#[trigger] ls.drop_first()[j]) by {
            assert(ls.drop_first()[j] == ls[j + 1]);
        }
        lemma_first_code_line_at(ls.drop_first(), k - 1);
    } else {
        let t = trim_start(ls[0]);
        assert(t.len() > 0);
        if starts_with(t, "#["@) {
            assert(t.subrange(0, 2)[0] == t[0] && t.subrange(0, 2)[1] == t[1]);
        }
    }
}

/// A symbol whose source text's first code line (leading space gone, blank lines
/// and attributes skipped) begins with `pub ` is public API, whether or not it
/// is exported.
pub proof fn pub_declarations_are_public_api(n: NodeView, file: Seq<char>, exports: Seq<Seq<char>>, source: Option<Seq<char>>, k: int)
    requires
        span_snippet(source, n.span) matches Some(t) && ({
            let ls = lines(t);
            &&& 0 <= k < ls.len()
            &&& forall|j: int| 0 <= j < k ==> holds_no_code(#[trigger] ls[j])
            &&& trim_start(ls[k]).len() >= 4
            &&& trim_start(ls[k])[0] == 'p' && trim_start(ls[k])[1] == 'u' && trim_start(ls[k])[2] == 'b'
            &&& trim_start(ls[k])[3] == ' '
        }),
    ensures
        spec_symbol_entry(n, file, exports, source).public_api,
{
    reveal_strlit("pub ");
    let t = span_snippet(source, n.span)->0;
    let ls = lines(t);
    let l = trim_start(ls[k]);
    assert(!holds_no_code(ls[k]));
    lemma_first_code_line_at(ls, k);
    assert(l.subrange(0, 4) =~= "pub "@);
    assert(starts_public(l));
}

/// The source text a span covers, when the source is known and the span falls on
/// character boundaries.
pub open spec fn span_snippet(source: Option<Seq<char>>, span: Option<SourceSpan>) -> Option<Seq<char>> {
    match source {
        Some(t) => match span {
            Some(sp) => byte_slice(t, sp.byte_start as int, sp.byte_end as int),
            None => None,
        },
        None => None,
    }
}

/// The BLAKE3 digest of a snippet, in hexadecimal.
pub open spec fn snippet_hash(snippet: Option<Seq<char>>) -> Option<Seq<char>> {
    match snippet {
        Some(t) => Some(blake3_hex(encode_utf8(t))),
        None => None,
    }
}

/// How a symbol is shown: its qualified name, else its name, else nothing.
pub open spec fn display_name(n: NodeView) -> Seq<char> {
    match n.qualified_name {
        Some(q) => q,
        None => match n.name {
            Some(x) => x,
            None => Seq::empty(),
        },
    }
}

/// The name a symbol is matched by: its name, else how it is shown.
pub open spec fn key_name(n: NodeView) -> Seq<char> {
    match n.name {
        Some(x) => x,
        None => display_name(n),
    }
}

pub open spec fn spec_symbol_key(n: NodeView, cfile: Seq<char>) -> ComparisonKeyView {
    ComparisonKeyView { file: cfile, language: n.language, kind: n.symbol_kind, scoped_name: spec_scoped_name(n) }
}

pub open spec fn spec_symbol_entry(n: NodeView, file: Seq<char>, exports: Seq<Seq<char>>, source: Option<Seq<char>>) -> SymbolEntryView {
    let snippet = span_snippet(source, n.span);
    SymbolEntryView {
        summary: SymbolSummaryView {
            name: key_name(n),
            qualified_name: n.qualified_name,
            kind: n.symbol_kind,
            language: n.language,
            file,
            span: n.span,
        },
        source_hash: snippet_hash(snippet),
        provenance: n.provenance,
        confidence: n.confidence,
        public_api: spec_is_public_api(n, exports, snippet),
    }
}

/// The symbol index after the symbol nodes of `ns`, in order.
pub open spec fn symbols_of_nodes(
    acc: Seq<(ComparisonKeyView, SymbolEntryView)>,
    ns: Seq<NodeView>,
    file: Seq<char>,
    cfile: Seq<char>,
    exports: Seq<Seq<char>>,
    source: Option<Seq<char>>,
) -> Seq<(ComparisonKeyView, SymbolEntryView)>
    decreases ns.len(),
{
    if ns.len() == 0 {
        acc
    } else {
        let a = symbols_of_nodes(acc, ns.drop_last(), file, cfile, exports, source);
        let n = ns.last();
        if n.kind == NodeKind::Symbol {
            symbol_insert(a, spec_symbol_key(n, cfile), spec_symbol_entry(n, file, exports, source))
        } else {
            a
        }
    }
}

pub open spec fn opt_chars(o: Option<Vec<char>>) -> Option<Seq<char>> {
    match o {
        Some(t) => Some(t@),
        None => None,
    }
}

pub open spec fn source_at(sources: Seq<Option<Seq<char>>>, i: int) -> Option<Seq<char>> {
    if 0 <= i < sources.len() {
        sources[i]
    } else {
        None
    }
}

/// The symbol index of the first `k` partitions: each symbol under its file as
/// compared (after `changes` renames it), later ones replacing earlier ones.
pub open spec fn spec_build_symbols(
    ps: Seq<PartitionView>,
    root: Seq<char>,
    changes: Seq<FileChangeView>,
    sources: Seq<Option<Seq<char>>>,
    k: int,
) -> Seq<(ComparisonKeyView, SymbolEntryView)>
    decreases k,
{
    if k <= 0 || k > ps.len() {
        Seq::empty()
    } else {
        let acc = spec_build_symbols(ps, root, changes, sources, k - 1);
        let p = ps[k - 1];
        let file = crate::model::relative_key(p.path, root);
        symbols_of_nodes(acc, p.nodes, file, comparison_file(changes, file), exported_names(p.nodes), source_at(sources, k - 1))
    }
}

fn exported_names_exec(p: &GraphPartition) -> (r: Vec<String>)
    ensures
        string_views(r@) == exported_names(p@.nodes),
{
    let ghost nv = p@.nodes;
    let mut out: Vec<String> = Vec::new();
    let mut i: usize = 0;
    assert(nv.take(0) =~= Seq::<NodeView>::empty());
    assert(string_views(out@) =~= Seq::<Seq<char>>::empty());
    while i < p.nodes.len()
        invariant
            i <= p.nodes.len(),
            nv == crate::model::node_views(p.nodes@),
            string_views(out@) == exported_names(nv.take(i as int)),
        decreases p.nodes.len() - i,
    {
        assert(nv.take(i + 1).drop_last() =~= nv.take(i as int));
        assert(nv.take(i + 1).last() == p.nodes@[i as int]@);
        let n = &p.nodes[i];
        let ghost before = out@;
        if n.kind == NodeKind::Export {
            let label = match &n.name {
                Some(x) => Some(x.clone()),
                None => n.qualified_name.clone(),
            };
            if let Some(x) = label {
                out.push(x);
                assert(string_views(out@) =~= string_views(before) + seq![out@[before.len() as int]@]);
            } else {
                assert(string_views(out@) =~= string_views(before) + Seq::<Seq<char>>::empty());
            }
        } else {
            assert(string_views(out@) =~= string_views(before) + Seq::<Seq<char>>::empty());
        }
        i += 1;
    }
    assert(nv.take(p.nodes.len() as int) =~= nv);
    out
}

fn contains_text(v: &Vec<String>, x: &String) -> (r: bool)
    ensures
        r == string_views(v@).contains(x@),
{
    let mut i: usize = 0;
    while i < v.len()
        invariant
            i <= v.len(),
            forall|j: int| 0 <= j < i ==> v@[j]@ != x@,
        decreases v.len() - i,
    {
        if same_chars(v[i].as_str(), x.as_str()) {
            assert(string_views(v@)[i as int] == x@);
            return true;
        }
        i += 1;
    }
    assert forall|j: int| 0 <= j < string_views(v@).len() implies string_views(v@)[j] != x@ by {
        assert(string_views(v@)[j] == v@[j]@);
    }
    false
}

fn first_code_line_exec(text: &[char]) -> (r: Option<Vec<char>>)
    ensures
        match r {
            Some(l) => first_code_line(lines(text@)) == Some(l@),
            None => first_code_line(lines(text@)) is None,
        },
{
    let ls = lines_of(text);
    let ghost lv = ls.deep_view();
    let mut i: usize = 0;
    assert(lv.skip(0) =~= lv);
    while i < ls.len()
        invariant
            i <= ls.len(),
            lv == ls.deep_view(),
            lv == lines(text@),
            first_code_line(lv.skip(i as int)) == first_code_line(lv),
        decreases ls.len() - i,
    {
        assert(lv.skip(i as int)[0] == ls@[i as int]@);
        assert(lv.skip(i as int).drop_first() =~= lv.skip(i + 1));
        let l = trimmed_start(&ls[i]);
        if l.len() > 0 && !starts_with_str(&l, "#[") {
            return Some(l);
        }
        i += 1;
    }
    None
}

fn is_public_api(n: &GraphNode, exports: &Vec<String>, snippet: &Option<Vec<char>>) -> (r: bool)
    ensures
        r == spec_is_public_api(n@, string_views(exports@), match snippet { Some(t) => Some(t@), None => None }),
{
    if let Some(x) = &n.name {
        if contains_text(exports, x) {
            return true;
        }
    }
    if let Some(q) = &n.qualified_name {
        if contains_text(exports, q) {
            return true;
        }
    }
    match snippet {
        Some(t) => match first_code_line_exec(t) {
            Some(l) => starts_with_str(&l, "pub ") || starts_with_str(&l, "pub(") || starts_with_str(&l, "export "),
            None => false,
        },
        None => false,
    }
}

/// The text that `span` covers in `text`, when its byte offsets fall on
/// character boundaries within the text.
fn span_text(text: &Vec<char>, span: &SourceSpan) -> (r: Option<Vec<char>>)
    requires
        encode_utf8(text@).len() <= usize::MAX,
    ensures
        opt_chars(r) == span_snippet(Some(text@), Some(*span)),
{
    text_of_bytes(text, span.byte_start as usize, span.byte_end as usize)
}

/// The BLAKE3 digest, in hexadecimal, of the text that `span` covers in `text`.
fn span_hash(text: &Vec<char>, span: &SourceSpan) -> (r: Option<String>)
    requires
        encode_utf8(text@).len() <= usize::MAX,
    ensures
        match r {
            Some(h) => snippet_hash(span_snippet(Some(text@), Some(*span))) == Some(h@),
            None => snippet_hash(span_snippet(Some(text@), Some(*span))) is None,
        },
{
    match span_text(text, span) {
        Some(t) => {
            let snippet = string_from(&t);
            Some(blake3_hex_of(snippet.as_str().as_bytes()))
        },
        None => None,
    }
}

fn symbol_entry_exec(n: &GraphNode, file: &String, exports: &Vec<String>, source: &Option<Vec<char>>) -> (r: SymbolEntry)
    requires
        match source {
            Some(t) => encode_utf8(t@).len() <= usize::MAX,
            None => true,
        },
    ensures
        r@ == spec_symbol_entry(n@, file@, string_views(exports@), opt_chars(*source)),
{
    let snippet: Option<Vec<char>> = match source {
        Some(t) => match &n.span {
            Some(sp) => span_text(t, sp),
            None => None,
        },
        None => None,
    };
    let source_hash = match source {
        Some(t) => match &n.span {
            Some(sp) => span_hash(t, sp),
            None => None,
        },
        None => None,
    };
    let public_api = is_public_api(n, exports, &snippet);
    let display = match &n.qualified_name {
        Some(q) => q.clone(),
        None => match &n.name {
            Some(x) => x.clone(),
            None => String::new(),
        },
    };
    let name = match &n.name {
        Some(x) => x.clone(),
        None => display,
    };
    SymbolEntry {
        summary: SymbolSummary {
            name,
            qualified_name: n.qualified_name.clone(),
            kind: n.symbol_kind,
            language: n.language,
            file: file.clone(),
            span: n.span,
        },
        source_hash,
        provenance: n.provenance,
        confidence: n.confidence,
        public_api,
    }
}

fn symbol_key_exec(n: &GraphNode, cfile: &String) -> (r: SymbolKey)
    ensures
        r@ == spec_symbol_key(n@, cfile@),
{
    symbol_key(n, cfile.clone())
}

fn source_chars(sources: &Vec<Option<String>>, i: usize) -> (r: Option<Vec<char>>)
    ensures
        match r {
            Some(t) => source_at(source_views(sources@), i as int) == Some(t@) && encode_utf8(t@).len() <= usize::MAX,
            None => source_at(source_views(sources@), i as int) is None,
        },
{
    if i < sources.len() {
        match &sources[i] {
            Some(text) => {
                let _bytes = text.as_str().as_bytes().len();
                Some(chars_of(text.as_str()))
            },
            None => None,
        }
    } else {
        None
    }
}

fn build_symbols(ps: &Vec<GraphPartition>, root: &String, changes: &Vec<FileChange>, sources: &Vec<Option<String>>) -> (r: Vec<(SymbolKey, SymbolEntry)>)
    ensures
        entry_views(r@) == spec_build_symbols(partition_views(ps@), root@, crate::diff_report::file_views(changes@), source_views(sources@), ps@.len() as int),
{
    let ghost pv = partition_views(ps@);
    let ghost cv = crate::diff_report::file_views(changes@);
    let ghost sv = source_views(sources@);
    let mut index: Vec<(SymbolKey, SymbolEntry)> = Vec::new();
    let mut k: usize = 0;
    assert(entry_views(index@) =~= Seq::<(ComparisonKeyView, SymbolEntryView)>::empty());
    while k < ps.len()
        invariant
            k <= ps.len(),
            pv == partition_views(ps@),
            cv == crate::diff_report::file_views(changes@),
            sv == source_views(sources@),
            entry_views(index@) == spec_build_symbols(pv, root@, cv, sv, k as int),
        decreases ps.len() - k,
    {
        let p = &ps[k];
        assert(pv[k as int] == p@);
        let file = crate::model::relative_key_of(p.path.as_str(), root.as_str());
        let cfile = comparison_file_exec(changes, &file);
        let exports = exported_names_exec(p);
        let source = source_chars(sources, k);
        let ghost acc = entry_views(index@);
        let ghost nv = p@.nodes;
        let ghost srcv = opt_chars(source);
        let mut j: usize = 0;
        assert(nv.take(0) =~= Seq::<NodeView>::empty());
        while j < p.nodes.len()
            invariant
                j <= p.nodes.len(),
                nv == crate::model::node_views(p.nodes@),
                srcv == opt_chars(source),
                source matches Some(t) ==> encode_utf8(t@).len() <= usize::MAX,
                entry_views(index@) == symbols_of_nodes(acc, nv.take(j as int), file@, cfile@, string_views(exports@), srcv),
            decreases p.nodes.len() - j,
        {
            assert(nv.take(j + 1).drop_last() =~= nv.take(j as int));
            assert(nv.take(j + 1).last() == p.nodes@[j as int]@);
            let n = &p.nodes[j];
            if n.kind == NodeKind::Symbol {
                let key = symbol_key_exec(n, &cfile);
                let entry = symbol_entry_exec(n, &file, &exports, &source);
                insert_symbol(&mut index, key, entry);
            }
            j += 1;
        }
        assert(nv.take(p.nodes.len() as int) =~= nv);
        k += 1;
    }
    index
}

/// A dependency of a file as compared: the file, what it depends on and how.
pub struct DependencyKey {
    pub file: String,
    pub dependency: String,
    pub kind: EdgeKind,
}

pub struct DependencyKeyView {
    pub file: Seq<char>,
    pub dependency: Seq<char>,
    pub kind: EdgeKind,
}

impl View for DependencyKey {
    type V = DependencyKeyView;

    open spec fn view(&self) -> DependencyKeyView {
        DependencyKeyView { file: self.file@, dependency: self.dependency@, kind: self.kind }
    }
}

/// The place of a dependency edge kind, in the order of the kinds' names.
pub open spec fn dependency_kind_rank(k: EdgeKind) -> int {
    match k {
        EdgeKind::DependsOn => 0,
        EdgeKind::Imports => 1,
        _ => 2,
    }
}

/// The order of dependencies: by file, then dependency, then kind.
pub open spec fn dependency_lt(a: DependencyKeyView, b: DependencyKeyView) -> bool {
    seq_lt(a.file, b.file) || (a.file == b.file && (seq_lt(a.dependency, b.dependency) || (a.dependency
        == b.dependency && dependency_kind_rank(a.kind) < dependency_kind_rank(b.kind))))
}

fn dependency_kind_rank_exec(k: EdgeKind) -> (r: u8)
    ensures
        r == dependency_kind_rank(k),
{
    match k {
        EdgeKind::DependsOn => 0,
        EdgeKind::Imports => 1,
        _ => 2,
    }
}

fn dependency_less(a: &DependencyKey, b: &DependencyKey) -> (r: bool)
    ensures
        r == dependency_lt(a@, b@),
{
    if text_less(&a.file, &b.file) {
        return true;
    }
    if !same_chars(a.file.as_str(), b.file.as_str()) {
        return false;
    }
    if text_less(&a.dependency, &b.dependency) {
        return true;
    }
    if !same_chars(a.dependency.as_str(), b.dependency.as_str()) {
        return false;
    }
    dependency_kind_rank_exec(a.kind) < dependency_kind_rank_exec(b.kind)
}

fn dependency_same(a: &DependencyKey, b: &DependencyKey) -> (r: bool)
    ensures
        r == (a@ == b@),
{
    same_chars(a.file.as_str(), b.file.as_str()) && same_chars(a.dependency.as_str(), b.dependency.as_str())
        && a.kind == b.kind
}

pub open spec fn dependency_views_of(v: Seq<DependencyKey>) -> Seq<DependencyKeyView> {
    v.map_values(|d: DependencyKey| d@)
}

/// A dependency index with `k`, kept in order and without repeats.
pub open spec fn dependency_insert(s: Seq<DependencyKeyView>, k: DependencyKeyView) -> Seq<DependencyKeyView>
    decreases s.len(),
{
    if s.len() == 0 {
        seq![k]
    } else if dependency_lt(k, s[0]) {
        seq![k] + s
    } else if k == s[0] {
        seq![k] + s.drop_first()
    } else {
        seq![s[0]] + dependency_insert(s.drop_first(), k)
    }
}

fn insert_dependency(index: &mut Vec<DependencyKey>, k: DependencyKey)
    ensures
        dependency_views_of(final(index)@) == dependency_insert(dependency_views_of(old(index)@), k@),
{
    let ghost s = dependency_views_of(index@);
    let ghost kv = k@;
    let mut i: usize = 0;
    assert(s.skip(0) =~= s);
    assert(s.take(0) + dependency_insert(s.skip(0), kv) =~= dependency_insert(s, kv));
    while i < index.len()
        invariant
            i <= index.len(),
            s == dependency_views_of(index@),
            index@ == old(index)@,
            kv == k@,
            s.take(i as int) + dependency_insert(s.skip(i as int), kv) == dependency_insert(s, kv),
        decreases index.len() - i,
    {
        assert(s.skip(i as int)[0] == s[i as int]);
        assert(s[i as int] == index@[i as int]@);
        if dependency_less(&k, &index[i]) {
            assert(dependency_insert(s.skip(i as int), kv) == seq![kv] + s.skip(i as int));
            index.insert(i, k);
            assert(dependency_views_of(index@) =~= s.take(i as int) + (seq![kv] + s.skip(i as int)));
            return;
        }
        if dependency_same(&k, &index[i]) {
            assert(dependency_insert(s.skip(i as int), kv) == seq![kv] + s.skip(i as int).drop_first());
            index.remove(i);
            index.insert(i, k);
            assert(s.skip(i as int).drop_first() =~= s.skip(i + 1));
            assert(dependency_views_of(index@) =~= s.take(i as int) + (seq![kv] + s.skip(i as int).drop_first()));
            return;
        }
        assert(s.skip(i as int).drop_first() =~= s.skip(i + 1));
        assert(s.take(i + 1) =~= s.take(i as int) + seq![s[i as int]]);
        i += 1;
    }
    assert(s.skip(i as int) =~= Seq::<DependencyKeyView>::empty());
    index.push(k);
    assert(dependency_views_of(index@) =~= s.take(i as int) + seq![kv]);
}

/// The dependency index after the import and dependency edges of `es`, each
/// named by the label of the node it reaches in `all`.
pub open spec fn deps_of_edges(acc: Seq<DependencyKeyView>, es: Seq<EdgeView>, all: Seq<PartitionView>, cfile: Seq<char>) -> Seq<DependencyKeyView>
    decreases es.len(),
{
    if es.len() == 0 {
        acc
    } else {
        let a = deps_of_edges(acc, es.drop_last(), all, cfile);
        let e = es.last();
        if e.kind == EdgeKind::Imports || e.kind == EdgeKind::DependsOn {
            match node_label(all, e.to) {
                Some(l) => dependency_insert(a, DependencyKeyView { file: cfile, dependency: l, kind: e.kind }),
                None => a,
            }
        } else {
            a
        }
    }
}

/// The dependency index of the first `k` partitions of `all`.
pub open spec fn spec_build_dependencies(all: Seq<PartitionView>, root: Seq<char>, changes: Seq<FileChangeView>, k: int) -> Seq<DependencyKeyView>
    decreases k,
{
    if k <= 0 || k > all.len() {
        Seq::empty()
    } else {
        let acc = spec_build_dependencies(all, root, changes, k - 1);
        let p = all[k - 1];
        deps_of_edges(acc, p.edges, all, comparison_file(changes, crate::model::relative_key(p.path, root)))
    }
}

fn build_dependencies(ps: &Vec<GraphPartition>, root: &String, changes: &Vec<FileChange>) -> (r: Vec<DependencyKey>)
    ensures
        dependency_views_of(r@) == spec_build_dependencies(partition_views(ps@), root@, crate::diff_report::file_views(changes@), ps@.len() as int),
{
    let ghost pv = partition_views(ps@);
    let ghost cv = crate::diff_report::file_views(changes@);
    let mut index: Vec<DependencyKey> = Vec::new();
    let mut k: usize = 0;
    assert(dependency_views_of(index@) =~= Seq::<DependencyKeyView>::empty());
    while k < ps.len()
        invariant
            k <= ps.len(),
            pv == partition_views(ps@),
            cv == crate::diff_report::file_views(changes@),
            dependency_views_of(index@) == spec_build_dependencies(pv, root@, cv, k as int),
        decreases ps.len() - k,
    {
        let p = &ps[k];
        assert(pv[k as int] == p@);
        let file = crate::model::relative_key_of(p.path.as_str(), root.as_str());
        let cfile = comparison_file_exec(changes, &file);
        let ghost acc = dependency_views_of(index@);
        let ghost ev = p@.edges;
        let mut j: usize = 0;
        assert(ev.take(0) =~= Seq::<EdgeView>::empty());
        while j < p.edges.len()
            invariant
                j <= p.edges.len(),
                ev == crate::model::edge_views(p.edges@),
                pv == partition_views(ps@),
                dependency_views_of(index@) == deps_of_edges(acc, ev.take(j as int), pv, cfile@),
            decreases p.edges.len() - j,
        {
            assert(ev.take(j + 1).drop_last() =~= ev.take(j as int));
            assert(ev.take(j + 1).last() == p.edges@[j as int]@);
            let e = &p.edges[j];
            if e.kind == EdgeKind::Imports || e.kind == EdgeKind::DependsOn {
                if let Some(label) = node_label_exec(ps, &e.to) {
                    insert_dependency(&mut index, DependencyKey { file: cfile.clone(), dependency: label, kind: e.kind });
                }
            }
            j += 1;
        }
        assert(ev.take(p.edges.len() as int) =~= ev);
        k += 1;
    }
    index
}

pub open spec fn summary_of(e: Option<SymbolEntryView>) -> Option<SymbolSummaryView> {
    match e {
        Some(x) => Some(x.summary),
        None => None,
    }
}

pub open spec fn is_public(e: Option<SymbolEntryView>) -> bool {
    match e {
        Some(x) => x.public_api,
        None => false,
    }
}

/// A changed symbol from its two sides: public API when either side is, and as
/// risky as that makes the change.
pub open spec fn spec_symbol_change(change: ChangeKind, before: Option<SymbolEntryView>, after: Option<SymbolEntryView>, reason: Seq<char>) -> ChangedSymbolView {
    let public_api = is_public(before) || is_public(after);
    ChangedSymbolView {
        change,
        before: summary_of(before),
        after: summary_of(after),
        public_api,
        risk: spec_risk_for(change, public_api),
        reason,
    }
}

/// The symbol changes between two key-ordered indexes, in key order: a key only
/// in the head is added, one only in the base removed, and one in both whose
/// fingerprints differ modified.
pub open spec fn symbol_changes(b: Seq<(ComparisonKeyView, SymbolEntryView)>, h: Seq<(ComparisonKeyView, SymbolEntryView)>) -> Seq<ChangedSymbolView>
    decreases b.len() + h.len(),
{
    if b.len() == 0 && h.len() == 0 {
        Seq::empty()
    } else if b.len() == 0 || (h.len() > 0 && key_lt(h[0].0, b[0].0)) {
        seq![spec_symbol_change(ChangeKind::Added, None, Some(h[0].1), "symbol added"@)] + symbol_changes(b, h.drop_first())
    } else if h.len() == 0 || key_lt(b[0].0, h[0].0) {
        seq![spec_symbol_change(ChangeKind::Removed, Some(b[0].1), None, "symbol removed"@)] + symbol_changes(b.drop_first(), h)
    } else {
        (if same_fingerprint(b[0].1, h[0].1) {
            Seq::empty()
        } else {
            seq![spec_symbol_change(ChangeKind::Modified, Some(b[0].1), Some(h[0].1), "symbol body or span changed"@)]
        }) + symbol_changes(b.drop_first(), h.drop_first())
    }
}

fn copy_summary(s: &SymbolSummary) -> (r: SymbolSummary)
    ensures
        r@ == s@,
{
    SymbolSummary {
        name: s.name.clone(),
        qualified_name: s.qualified_name.clone(),
        kind: s.kind,
        language: s.language,
        file: s.file.clone(),
        span: s.span,
    }
}

fn symbol_change(change: ChangeKind, before: Option<&SymbolEntry>, after: Option<&SymbolEntry>, reason: &str) -> (r: ChangedSymbol)
    ensures
        r@ == spec_symbol_change(
            change,
            match before { Some(e) => Some(e@), None => None },
            match after { Some(e) => Some(e@), None => None },
            reason@,
        ),
{
    let before_public = match before {
        Some(e) => e.public_api,
        None => false,
    };
    let after_public = match after {
        Some(e) => e.public_api,
        None => false,
    };
    let public_api = before_public || after_public;
    ChangedSymbol {
        change,
        before: match before {
            Some(e) => Some(copy_summary(&e.summary)),
            None => None,
        },
        after: match after {
            Some(e) => Some(copy_summary(&e.summary)),
            None => None,
        },
        public_api,
        risk: risk_for(change, public_api),
        reason: string_from(&chars_of(reason)),
    }
}

fn compare_symbols(base: &Vec<(SymbolKey, SymbolEntry)>, head: &Vec<(SymbolKey, SymbolEntry)>) -> (r: Vec<ChangedSymbol>)
    ensures
        crate::diff_report::changed_symbol_views(r@) == symbol_changes(entry_views(base@), entry_views(head@)),
{
    let ghost b = entry_views(base@);
    let ghost h = entry_views(head@);
    let mut out: Vec<ChangedSymbol> = Vec::new();
    let mut i: usize = 0;
    let mut j: usize = 0;
    assert(b.skip(0) =~= b);
    assert(h.skip(0) =~= h);
    assert(crate::diff_report::changed_symbol_views(out@) =~= Seq::<ChangedSymbolView>::empty());
    while i < base.len() || j < head.len()
        invariant
            i <= base.len(),
            j <= head.len(),
            b == entry_views(base@),
            h == entry_views(head@),
            crate::diff_report::changed_symbol_views(out@) + symbol_changes(b.skip(i as int), h.skip(j as int)) == symbol_changes(b, h),
        decreases base.len() + head.len() - i - j,
    {
        let ghost bs = b.skip(i as int);
        let ghost hs = h.skip(j as int);
        let ghost before = crate::diff_report::changed_symbol_views(out@);
        if i < base.len() {
            assert(bs[0] == (base@[i as int].0@, base@[i as int].1@));
            assert(bs.drop_first() =~= b.skip(i + 1));
        }
        if j < head.len() {
            assert(hs[0] == (head@[j as int].0@, head@[j as int].1@));
            assert(hs.drop_first() =~= h.skip(j + 1));
        }
        if i == base.len() || (j < head.len() && key_less(&head[j].0, &base[i].0)) {
            let c = symbol_change(ChangeKind::Added, None, Some(&head[j].1), "symbol added");
            out.push(c);
            assert(crate::diff_report::changed_symbol_views(out@) =~= before.push(c@));
            j += 1;
        } else if j == head.len() || key_less(&base[i].0, &head[j].0) {
            let c = symbol_change(ChangeKind::Removed, Some(&base[i].1), None, "symbol removed");
            out.push(c);
            assert(crate::diff_report::changed_symbol_views(out@) =~= before.push(c@));
            i += 1;
        } else {
            let x = &base[i].1;
            let y = &head[j].1;
            let same_place = match (&x.summary.span, &y.summary.span) {
                (Some(p), Some(q)) => p.start == q.start && p.end == q.end,
                (None, None) => true,
                _ => false,
            };
            let same = same_place && match (&x.source_hash, &y.source_hash) {
                (Some(p), Some(q)) => same_chars(p.as_str(), q.as_str()),
                (None, None) => true,
                _ => false,
            } && x.provenance == y.provenance && x.confidence == y.confidence;
            if !same {
                let c = symbol_change(ChangeKind::Modified, Some(x), Some(y), "symbol body or span changed");
                out.push(c);
                assert(crate::diff_report::changed_symbol_views(out@) =~= before.push(c@));
            } else {
                assert(crate::diff_report::changed_symbol_views(out@) =~= before);
            }
            i += 1;
            j += 1;
        }
    }
    assert(b.skip(i as int) =~= Seq::<(ComparisonKeyView, SymbolEntryView)>::empty());
    assert(h.skip(j as int) =~= Seq::<(ComparisonKeyView, SymbolEntryView)>::empty());
    assert(crate::diff_report::changed_symbol_views(out@) =~= symbol_changes(b, h));
    out
}

pub open spec fn spec_dependency_change(change: ChangeKind, d: DependencyKeyView) -> DependencyChangeView {
    DependencyChangeView { change, file: d.file, dependency: d.dependency, edge_kind: d.kind }
}

/// The dependency changes between two ordered indexes, in order: added when only
/// in the head, removed when only in the base.
pub open spec fn dependency_changes(b: Seq<DependencyKeyView>, h: Seq<DependencyKeyView>) -> Seq<DependencyChangeView>
    decreases b.len() + h.len(),
{
    if b.len() == 0 && h.len() == 0 {
        Seq::empty()
    } else if b.len() == 0 || (h.len() > 0 && dependency_lt(h[0], b[0])) {
        seq![spec_dependency_change(ChangeKind::Added, h[0])] + dependency_changes(b, h.drop_first())
    } else if h.len() == 0 || dependency_lt(b[0], h[0]) {
        seq![spec_dependency_change(ChangeKind::Removed, b[0])] + dependency_changes(b.drop_first(), h)
    } else {
        dependency_changes(b.drop_first(), h.drop_first())
    }
}

fn dependency_change(change: ChangeKind, d: &DependencyKey) -> (r: DependencyChange)
    ensures
        r@ == spec_dependency_change(change, d@),
{
    DependencyChange { change, file: d.file.clone(), dependency: d.dependency.clone(), edge_kind: d.kind }
}

fn compare_dependencies(base: &Vec<DependencyKey>, head: &Vec<DependencyKey>) -> (r: Vec<DependencyChange>)
    ensures
        crate::diff_report::dependency_views(r@) == dependency_changes(dependency_views_of(base@), dependency_views_of(head@)),
{
    let ghost b = dependency_views_of(base@);
    let ghost h = dependency_views_of(head@);
    let mut out: Vec<DependencyChange> = Vec::new();
    let mut i: usize = 0;
    let mut j: usize = 0;
    assert(b.skip(0) =~= b);
    assert(h.skip(0) =~= h);
    assert(crate::diff_report::dependency_views(out@) =~= Seq::<DependencyChangeView>::empty());
    while i < base.len() || j < head.len()
        invariant
            i <= base.len(),
            j <= head.len(),
            b == dependency_views_of(base@),
            h == dependency_views_of(head@),
            crate::diff_report::dependency_views(out@) + dependency_changes(b.skip(i as int), h.skip(j as int)) == dependency_changes(b, h),
        decreases base.len() + head.len() - i - j,
    {
        let ghost bs = b.skip(i as int);
        let ghost hs = h.skip(j as int);
        let ghost before = crate::diff_report::dependency_views(out@);
        if i < base.len() {
            assert(bs[0] == base@[i as int]@);
            assert(bs.drop_first() =~= b.skip(i + 1));
        }
        if j < head.len() {
            assert(hs[0] == head@[j as int]@);
            assert(hs.drop_first() =~= h.skip(j + 1));
        }
        if i == base.len() || (j < head.len() && dependency_less(&head[j], &base[i])) {
            let c = dependency_change(ChangeKind::Added, &head[j]);
            out.push(c);
            assert(crate::diff_report::dependency_views(out@) =~= before.push(c@));
            j += 1;
        } else if j == head.len() || dependency_less(&base[i], &head[j]) {
            let c = dependency_change(ChangeKind::Removed, &base[i]);
            out.push(c);
            assert(crate::diff_report::dependency_views(out@) =~= before.push(c@));
            i += 1;
        } else {
            i += 1;
            j += 1;
        }
    }
    assert(b.skip(i as int) =~= Seq::<DependencyKeyView>::empty());
    assert(h.skip(j as int) =~= Seq::<DependencyKeyView>::empty());
    assert(crate::diff_report::dependency_views(out@) =~= dependency_changes(b, h));
    out
}

/// Every impacted file's reasons are a sorted set.
pub open spec fn reasons_sorted(m: Seq<ImpactedFileView>) -> bool {
    forall|i: int| 0 <= i < m.len() ==> strictly_sorted(#[trigger] m[i].reasons)
}

/// The impacted files with `reason` added to `path`: a new path goes in its
/// place in path order; a known path gains the reason in its sorted set.
pub open spec fn impact_add(m: Seq<ImpactedFileView>, path: Seq<char>, reason: Seq<char>) -> Seq<ImpactedFileView>
    decreases m.len(),
{
    if m.len() == 0 {
        seq![ImpactedFileView { path, reasons: seq![reason] }]
    } else if seq_lt(path, m[0].path) {
        seq![ImpactedFileView { path, reasons: seq![reason] }] + m
    } else if path == m[0].path {
        seq![ImpactedFileView { path, reasons: set_insert(m[0].reasons, reason) }] + m.drop_first()
    } else {
        seq![m[0]] + impact_add(m.drop_first(), path, reason)
    }
}

fn add_impact(m: &mut Vec<ImpactedFile>, path: String, reason: String)
    requires
        reasons_sorted(crate::diff_report::impacted_views(old(m)@)),
    ensures
        crate::diff_report::impacted_views(final(m)@) == impact_add(crate::diff_report::impacted_views(old(m)@), path@, reason@),
        reasons_sorted(crate::diff_report::impacted_views(final(m)@)),
{
    let ghost s = crate::diff_report::impacted_views(m@);
    let ghost pv = path@;
    let ghost rv = reason@;
    let mut i: usize = 0;
    assert(s.skip(0) =~= s);
    assert(s.take(0) + impact_add(s.skip(0), pv, rv) =~= impact_add(s, pv, rv));
    while i < m.len()
        invariant
            i <= m.len(),
            s == crate::diff_report::impacted_views(m@),
            m@ == old(m)@,
            reasons_sorted(s),
            pv == path@,
            rv == reason@,
            s.take(i as int) + impact_add(s.skip(i as int), pv, rv) == impact_add(s, pv, rv),
        decreases m.len() - i,
    {
        assert(s.skip(i as int)[0] == s[i as int]);
        assert(s[i as int] == m@[i as int]@);
        if text_less(&path, &m[i].path) {
            assert(impact_add(s.skip(i as int), pv, rv) == seq![ImpactedFileView { path: pv, reasons: seq![rv] }] + s.skip(i as int));
            let mut reasons: Vec<String> = Vec::new();
            reasons.push(reason);
            let entry = ImpactedFile { path, reasons };
            assert(entry@.reasons =~= seq![rv]);
            m.insert(i, entry);
            let ghost r = crate::diff_report::impacted_views(m@);
            assert(r =~= s.take(i as int) + (seq![ImpactedFileView { path: pv, reasons: seq![rv] }] + s.skip(i as int)));
            assert forall|k: int| 0 <= k < r.len() implies strictly_sorted(#[trigger] r[k].reasons) by {
                if k < i {
                    assert(r[k] == s[k]);
                } else if k > i {
                    assert(r[k] == s[k - 1]);
                }
            }
            return;
        }
        if same_chars(path.as_str(), m[i].path.as_str()) {
            assert(impact_add(s.skip(i as int), pv, rv) == seq![ImpactedFileView { path: pv, reasons: set_insert(s[i as int].reasons, rv) }] + s.skip(i as int).drop_first());
            assert(strictly_sorted(s[i as int].reasons));
            let ImpactedFile { path: p, reasons: mut rs } = m.remove(i);
            set_add(&mut rs, reason);
            let entry = ImpactedFile { path: p, reasons: rs };
            m.insert(i, entry);
            let ghost r = crate::diff_report::impacted_views(m@);
            assert(s.skip(i as int).drop_first() =~= s.skip(i + 1));
            assert(r =~= s.take(i as int) + (seq![ImpactedFileView { path: pv, reasons: set_insert(s[i as int].reasons, rv) }] + s.skip(i as int).drop_first()));
            assert forall|k: int| 0 <= k < r.len() implies strictly_sorted(#[trigger] r[k].reasons) by {
                if k < i {
                    assert(r[k] == s[k]);
                } else if k > i {
                    assert(r[k] == s[k]);
                }
            }
            return;
        }
        assert(s.skip(i as int).drop_first() =~= s.skip(i + 1));
        assert(s.take(i + 1) =~= s.take(i as int) + seq![s[i as int]]);
        i += 1;
    }
    assert(s.skip(i as int) =~= Seq::<ImpactedFileView>::empty());
    let mut reasons: Vec<String> = Vec::new();
    reasons.push(reason);
    let entry = ImpactedFile { path, reasons };
    assert(entry@.reasons =~= seq![rv]);
    m.push(entry);
    let ghost r = crate::diff_report::impacted_views(m@);
    assert(r =~= s.take(i as int) + seq![ImpactedFileView { path: pv, reasons: seq![rv] }]);
    assert forall|k: int| 0 <= k < r.len() implies strictly_sorted(#[trigger] r[k].reasons) by {
        if k < i {
            assert(r[k] == s[k]);
        }
    }
}

/// The names a symbol side contributes to the impact labels.
pub open spec fn summary_labels(s: Option<SymbolSummaryView>) -> Seq<Seq<char>> {
    match s {
        Some(x) => seq![x.name] + match x.qualified_name {
            Some(q) => seq![q],
            None => Seq::empty(),
        },
        None => Seq::empty(),
    }
}

/// The names and qualified names of both sides of each changed symbol.
pub open spec fn change_labels(cs: Seq<ChangedSymbolView>) -> Seq<Seq<char>>
    decreases cs.len(),
{
    if cs.len() == 0 {
        Seq::empty()
    } else {
        change_labels(cs.drop_last()) + summary_labels(cs.last().before) + summary_labels(cs.last().after)
    }
}

/// What a changed fact is known by: the changed symbols' names and the changed
/// dependencies.
pub open spec fn impact_labels(cs: Seq<ChangedSymbolView>, ds: Seq<DependencyChangeView>) -> Seq<Seq<char>> {
    change_labels(cs) + ds.map_values(|d: DependencyChangeView| d.dependency)
}

/// The impacts of the changed files: each file changed, by how.
pub open spec fn file_impacts(m: Seq<ImpactedFileView>, files: Seq<FileChangeView>) -> Seq<ImpactedFileView>
    decreases files.len(),
{
    if files.len() == 0 {
        m
    } else {
        impact_add(file_impacts(m, files.drop_last()), files.last().path, "file "@ + spec_change_label(files.last().change))
    }
}

/// Whether an edge can carry impact: a call, reference, import or dependency.
pub open spec fn is_impact_edge(k: EdgeKind) -> bool {
    k == EdgeKind::Calls || k == EdgeKind::References || k == EdgeKind::Imports || k == EdgeKind::DependsOn
}

/// The impacts of the edges `es` of a partition at `ppath`: an edge of impact
/// reaching a changed label impacts the file of its source node (else the
/// partition's file), for that reason.
pub open spec fn edge_impacts(m: Seq<ImpactedFileView>, es: Seq<EdgeView>, all: Seq<PartitionView>, root: Seq<char>, ppath: Seq<char>, labels: Seq<Seq<char>>) -> Seq<ImpactedFileView>
    decreases es.len(),
{
    if es.len() == 0 {
        m
    } else {
        let a = edge_impacts(m, es.drop_last(), all, root, ppath, labels);
        let e = es.last();
        if is_impact_edge(e.kind) {
            match node_label(all, e.to) {
                Some(l) => if labels.contains(l) {
                    let file = match file_for_node(all, root, e.from) {
                        Some(f) => f,
                        None => crate::model::relative_key(ppath, root),
                    };
                    impact_add(a, file, spec_edge_impact_label(e.kind) + " "@ + l)
                } else {
                    a
                },
                None => a,
            }
        } else {
            a
        }
    }
}

/// The impacts through the edges of the first `k` partitions of an index.
pub open spec fn index_impacts(m: Seq<ImpactedFileView>, all: Seq<PartitionView>, root: Seq<char>, labels: Seq<Seq<char>>, k: int) -> Seq<ImpactedFileView>
    decreases k,
{
    if k <= 0 || k > all.len() {
        m
    } else {
        edge_impacts(index_impacts(m, all, root, labels, k - 1), all[k - 1].edges, all, root, all[k - 1].path, labels)
    }
}

fn summary_labels_exec(s: &Option<SymbolSummary>, out: &mut Vec<String>)
    ensures
        string_views(final(out)@) == string_views(old(out)@) + summary_labels(match s { Some(x) => Some(x@), None => None }),
{
    let ghost start = string_views(out@);
    if let Some(x) = s {
        out.push(x.name.clone());
        if let Some(q) = &x.qualified_name {
            out.push(q.clone());
            assert(string_views(out@) =~= start + (seq![x.name@] + seq![q@]));
        } else {
            assert(string_views(out@) =~= start + (seq![x.name@] + Seq::<Seq<char>>::empty()));
        }
    } else {
        assert(string_views(out@) =~= start + Seq::<Seq<char>>::empty());
    }
}

fn impact_labels_exec(cs: &Vec<ChangedSymbol>, ds: &Vec<DependencyChange>) -> (r: Vec<String>)
    ensures
        string_views(r@) == impact_labels(crate::diff_report::changed_symbol_views(cs@), crate::diff_report::dependency_views(ds@)),
{
    let ghost cv = crate::diff_report::changed_symbol_views(cs@);
    let ghost dv = crate::diff_report::dependency_views(ds@);
    let mut out: Vec<String> = Vec::new();
    let mut i: usize = 0;
    assert(cv.take(0) =~= Seq::<ChangedSymbolView>::empty());
    assert(string_views(out@) =~= Seq::<Seq<char>>::empty());
    while i < cs.len()
        invariant
            i <= cs.len(),
            cv == crate::diff_report::changed_symbol_views(cs@),
            string_views(out@) == change_labels(cv.take(i as int)),
        decreases cs.len() - i,
    {
        assert(cv.take(i + 1).drop_last() =~= cv.take(i as int));
        assert(cv.take(i + 1).last() == cs@[i as int]@);
        summary_labels_exec(&cs[i].before, &mut out);
        summary_labels_exec(&cs[i].after, &mut out);
        i += 1;
    }
    assert(cv.take(cs.len() as int) =~= cv);
    let ghost mid = string_views(out@);
    let mut j: usize = 0;
    while j < ds.len()
        invariant
            j <= ds.len(),
            dv == crate::diff_report::dependency_views(ds@),
            string_views(out@) == mid + dv.take(j as int).map_values(|d: DependencyChangeView| d.dependency),
        decreases ds.len() - j,
    {
        let ghost before = out@;
        out.push(ds[j].dependency.clone());
        assert(dv.take(j + 1).map_values(|d: DependencyChangeView| d.dependency) =~= dv.take(j as int).map_values(|d: DependencyChangeView| d.dependency).push(ds@[j as int]@.dependency));
        assert(string_views(out@) =~= string_views(before).push(ds@[j as int].dependency@));
        j += 1;
    }
    assert(dv.take(ds.len() as int) =~= dv);
    out
}

fn add_impacts_from_edges(m: &mut Vec<ImpactedFile>, ps: &Vec<GraphPartition>, root: &String, labels: &Vec<String>)
    requires
        reasons_sorted(crate::diff_report::impacted_views(old(m)@)),
    ensures
        crate::diff_report::impacted_views(final(m)@) == index_impacts(crate::diff_report::impacted_views(old(m)@), partition_views(ps@), root@, string_views(labels@), ps@.len() as int),
        reasons_sorted(crate::diff_report::impacted_views(final(m)@)),
{
    let ghost pv = partition_views(ps@);
    let ghost lv = string_views(labels@);
    let ghost m0 = crate::diff_report::impacted_views(m@);
    let mut k: usize = 0;
    while k < ps.len()
        invariant
            k <= ps.len(),
            pv == partition_views(ps@),
            lv == string_views(labels@),
            reasons_sorted(crate::diff_report::impacted_views(m@)),
            crate::diff_report::impacted_views(m@) == index_impacts(m0, pv, root@, lv, k as int),
        decreases ps.len() - k,
    {
        let p = &ps[k];
        assert(pv[k as int] == p@);
        let ghost acc = crate::diff_report::impacted_views(m@);
        let ghost ev = p@.edges;
        let mut j: usize = 0;
        assert(ev.take(0) =~= Seq::<EdgeView>::empty());
        while j < p.edges.len()
            invariant
                j <= p.edges.len(),
                ev == crate::model::edge_views(p.edges@),
                pv == partition_views(ps@),
                lv == string_views(labels@),
                reasons_sorted(crate::diff_report::impacted_views(m@)),
                crate::diff_report::impacted_views(m@) == edge_impacts(acc, ev.take(j as int), pv, root@, p@.path, lv),
            decreases p.edges.len() - j,
        {
            assert(ev.take(j + 1).drop_last() =~= ev.take(j as int));
            assert(ev.take(j + 1).last() == p.edges@[j as int]@);
            let e = &p.edges[j];
            if e.kind == EdgeKind::Calls || e.kind == EdgeKind::References || e.kind == EdgeKind::Imports || e.kind == EdgeKind::DependsOn {
                if let Some(label) = node_label_exec(ps, &e.to) {
                    if contains_text(labels, &label) {
                        let file = match file_for_node_exec(ps, root.as_str(), &e.from) {
                            Some(f) => f,
                            None => crate::model::relative_key_of(p.path.as_str(), root.as_str()),
                        };
                        let head = concat(&chars_of(edge_impact_label(e.kind)), &chars_of(" "));
                        let reason = string_from(&concat(&head, &chars_of(label.as_str())));
                        add_impact(m, file, reason);
                    }
                }
            }
            j += 1;
        }
        assert(ev.take(p.edges.len() as int) =~= ev);
        k += 1;
    }
}

fn file_impacts_exec(files: &Vec<FileChange>) -> (r: Vec<ImpactedFile>)
    ensures
        crate::diff_report::impacted_views(r@) == file_impacts(Seq::empty(), crate::diff_report::file_views(files@)),
        reasons_sorted(crate::diff_report::impacted_views(r@)),
{
    let ghost fv = crate::diff_report::file_views(files@);
    let mut m: Vec<ImpactedFile> = Vec::new();
    let mut i: usize = 0;
    assert(fv.take(0) =~= Seq::<FileChangeView>::empty());
    assert(crate::diff_report::impacted_views(m@) =~= Seq::<ImpactedFileView>::empty());
    while i < files.len()
        invariant
            i <= files.len(),
            fv == crate::diff_report::file_views(files@),
            reasons_sorted(crate::diff_report::impacted_views(m@)),
            crate::diff_report::impacted_views(m@) == file_impacts(Seq::empty(), fv.take(i as int)),
        decreases files.len() - i,
    {
        assert(fv.take(i + 1).drop_last() =~= fv.take(i as int));
        assert(fv.take(i + 1).last() == files@[i as int]@);
        let reason = string_from(&concat(&chars_of("file "), &chars_of(change_label(files[i].change))));
        add_impact(&mut m, files[i].path.clone(), reason);
        i += 1;
    }
    assert(fv.take(files.len() as int) =~= fv);
    m
}

/// The files a change reaches: each changed file, then each file of the base and
/// then of the head with a call, reference, import or dependency whose target is
/// known by the name of a changed symbol or dependency; each file once, with its
/// reasons in order and without repeats.
fn impacted_files(base: &IndexedRef, head: &IndexedRef, changed_files: &Vec<FileChange>, changed_symbols: &Vec<ChangedSymbol>, dependency_changes: &Vec<DependencyChange>) -> (r: Vec<ImpactedFile>)
    ensures
        crate::diff_report::impacted_views(r@) == ({
            let labels = impact_labels(crate::diff_report::changed_symbol_views(changed_symbols@), crate::diff_report::dependency_views(dependency_changes@));
            let m0 = file_impacts(Seq::empty(), crate::diff_report::file_views(changed_files@));
            let m1 = index_impacts(m0, partition_views(base.partitions@), base.root@, labels, base.partitions@.len() as int);
            index_impacts(m1, partition_views(head.partitions@), head.root@, labels, head.partitions@.len() as int)
        }),
{
    let labels = impact_labels_exec(changed_symbols, dependency_changes);
    let mut impacted = file_impacts_exec(changed_files);
    add_impacts_from_edges(&mut impacted, &base.partitions, &base.root, &labels);
    add_impacts_from_edges(&mut impacted, &head.partitions, &head.root, &labels);
    impacted
}

/// A diagnostic of the index, placed at the path of its file when it names one.
pub open spec fn index_diagnostic(ps: Seq<PartitionView>, root: Seq<char>, d: DiagnosticView, side: RefSide) -> DiffDiagnosticView {
    DiffDiagnosticView {
        reference: side,
        file: match d.file_id {
            Some(f) => file_path_of(ps, root, f),
            None => None,
        },
        severity: d.severity,
        message: d.message,
        span: d.span,
    }
}

/// A diagnostic of a partition, placed at the partition's path.
pub open spec fn partition_diagnostic(file: Seq<char>, d: DiagnosticView, side: RefSide) -> DiffDiagnosticView {
    DiffDiagnosticView { reference: side, file: Some(file), severity: d.severity, message: d.message, span: d.span }
}

/// The diagnostics of the first `k` partitions, in order.
pub open spec fn partition_diagnostics(ps: Seq<PartitionView>, root: Seq<char>, side: RefSide, k: int) -> Seq<DiffDiagnosticView>
    decreases k,
{
    if k <= 0 || k > ps.len() {
        Seq::empty()
    } else {
        let file = crate::model::relative_key(ps[k - 1].path, root);
        partition_diagnostics(ps, root, side, k - 1) + ps[k - 1].diagnostics.map_values(
            |d: DiagnosticView| partition_diagnostic(file, d, side),
        )
    }
}

/// The diagnostics of one side: the index's own, then each partition's.
pub open spec fn side_diagnostics(ps: Seq<PartitionView>, root: Seq<char>, ds: Seq<DiagnosticView>, side: RefSide) -> Seq<DiffDiagnosticView> {
    ds.map_values(|d: DiagnosticView| index_diagnostic(ps, root, d, side)) + partition_diagnostics(ps, root, side, ps.len() as int)
}

fn collect_diagnostics(ix: &IndexedRef, side: RefSide, out: &mut Vec<DiffDiagnostic>)
    ensures
        crate::diff_report::diagnostic_views(final(out)@) == crate::diff_report::diagnostic_views(old(out)@) + side_diagnostics(
            partition_views(ix.partitions@),
            ix.root@,
            crate::model::diagnostic_views(ix.diagnostics@),
            side,
        ),
{
    let ghost pv = partition_views(ix.partitions@);
    let ghost dv = crate::model::diagnostic_views(ix.diagnostics@);
    let ghost start = crate::diff_report::diagnostic_views(out@);
    let mut i: usize = 0;
    while i < ix.diagnostics.len()
        invariant
            i <= ix.diagnostics.len(),
            pv == partition_views(ix.partitions@),
            dv == crate::model::diagnostic_views(ix.diagnostics@),
            crate::diff_report::diagnostic_views(out@) == start + dv.take(i as int).map_values(|d: DiagnosticView| index_diagnostic(pv, ix.root@, d, side)),
        decreases ix.diagnostics.len() - i,
    {
        let d = &ix.diagnostics[i];
        assert(dv[i as int] == d@);
        let file = match &d.file_id {
            Some(f) => file_path_exec(&ix.partitions, ix.root.as_str(), f),
            None => None,
        };
        let ghost before = crate::diff_report::diagnostic_views(out@);
        let x = DiffDiagnostic { reference: side, file, severity: d.severity, message: d.message.clone(), span: d.span };
        out.push(x);
        assert(crate::diff_report::diagnostic_views(out@) =~= before.push(x@));
        assert(dv.take(i + 1).map_values(|d: DiagnosticView| index_diagnostic(pv, ix.root@, d, side)) =~= dv.take(i as int).map_values(|d: DiagnosticView| index_diagnostic(pv, ix.root@, d, side)).push(index_diagnostic(pv, ix.root@, d@, side)));
        i += 1;
    }
    assert(dv.take(ix.diagnostics.len() as int) =~= dv);
    let ghost mid = crate::diff_report::diagnostic_views(out@);
    let mut k: usize = 0;
    assert(mid =~= mid + partition_diagnostics(pv, ix.root@, side, 0));
    while k < ix.partitions.len()
        invariant
            k <= ix.partitions.len(),
            pv == partition_views(ix.partitions@),
            crate::diff_report::diagnostic_views(out@) == mid + partition_diagnostics(pv, ix.root@, side, k as int),
        decreases ix.partitions.len() - k,
    {
        let p = &ix.partitions[k];
        assert(pv[k as int] == p@);
        let file = crate::model::relative_key_of(p.path.as_str(), ix.root.as_str());
        let ghost pd = p@.diagnostics;
        let ghost acc = crate::diff_report::diagnostic_views(out@);
        let mut j: usize = 0;
        while j < p.diagnostics.len()
            invariant
                j <= p.diagnostics.len(),
                pd == crate::model::diagnostic_views(p.diagnostics@),
                crate::diff_report::diagnostic_views(out@) == acc + pd.take(j as int).map_values(|d: DiagnosticView| partition_diagnostic(file@, d, side)),
            decreases p.diagnostics.len() - j,
        {
            let d = &p.diagnostics[j];
            assert(pd[j as int] == d@);
            let ghost before = crate::diff_report::diagnostic_views(out@);
            let x = DiffDiagnostic { reference: side, file: Some(file.clone()), severity: d.severity, message: d.message.clone(), span: d.span };
            out.push(x);
            assert(crate::diff_report::diagnostic_views(out@) =~= before.push(x@));
            assert(pd.take(j + 1).map_values(|d: DiagnosticView| partition_diagnostic(file@, d, side)) =~= pd.take(j as int).map_values(|d: DiagnosticView| partition_diagnostic(file@, d, side)).push(partition_diagnostic(file@, d@, side)));
            j += 1;
        }
        assert(pd.take(p.diagnostics.len() as int) =~= pd);
        assert(crate::diff_report::diagnostic_views(out@) =~= mid + partition_diagnostics(pv, ix.root@, side, k + 1));
        k += 1;
    }
}

/// The public API changes among `cs`, in order.
pub open spec fn public_only(cs: Seq<ChangedSymbolView>) -> Seq<ChangedSymbolView>
    decreases cs.len(),
{
    if cs.len() == 0 {
        Seq::empty()
    } else {
        public_only(cs.drop_last()) + if cs.last().public_api {
            seq![cs.last()]
        } else {
            Seq::empty()
        }
    }
}

/// The symbol index of one side.
pub open spec fn side_symbols(ix: IndexedRef, changes: Seq<FileChangeView>) -> Seq<(ComparisonKeyView, SymbolEntryView)> {
    spec_build_symbols(partition_views(ix.partitions@), ix.root@, changes, source_views(ix.sources@), ix.partitions@.len() as int)
}

/// The dependency index of one side.
pub open spec fn side_dependencies(ix: IndexedRef, changes: Seq<FileChangeView>) -> Seq<DependencyKeyView> {
    spec_build_dependencies(partition_views(ix.partitions@), ix.root@, changes, ix.partitions@.len() as int)
}

/// The changed symbols between two sides: the base is compared under the paths
/// its renamed files moved to.
pub open spec fn diff_symbols(base: IndexedRef, head: IndexedRef, changes: Seq<FileChangeView>) -> Seq<ChangedSymbolView> {
    symbol_changes(side_symbols(base, changes), side_symbols(head, Seq::empty()))
}

/// The changed dependencies between two sides.
pub open spec fn diff_dependencies(base: IndexedRef, head: IndexedRef, changes: Seq<FileChangeView>) -> Seq<DependencyChangeView> {
    dependency_changes(side_dependencies(base, changes), side_dependencies(head, Seq::empty()))
}

/// The impacted files: the changed files, then the files whose edges reach a
/// changed symbol or dependency, in the base and then in the head.
pub open spec fn diff_impacts(base: IndexedRef, head: IndexedRef, changes: Seq<FileChangeView>) -> Seq<ImpactedFileView> {
    let labels = impact_labels(diff_symbols(base, head, changes), diff_dependencies(base, head, changes));
    let m0 = file_impacts(Seq::empty(), changes);
    let m1 = index_impacts(m0, partition_views(base.partitions@), base.root@, labels, base.partitions@.len() as int);
    index_impacts(m1, partition_views(head.partitions@), head.root@, labels, head.partitions@.len() as int)
}

/// The diagnostics of both sides, the base's first.
pub open spec fn diff_diagnostics(base: IndexedRef, head: IndexedRef) -> Seq<DiffDiagnosticView> {
    side_diagnostics(partition_views(base.partitions@), base.root@, crate::model::diagnostic_views(base.diagnostics@), RefSide::Base)
        + side_diagnostics(partition_views(head.partitions@), head.root@, crate::model::diagnostic_views(head.diagnostics@), RefSide::Head)
}

fn copy_change(c: &ChangedSymbol) -> (r: ChangedSymbol)
    ensures
        r@ == c@,
{
    ChangedSymbol {
        change: c.change,
        before: match &c.before {
            Some(s) => Some(copy_summary(s)),
            None => None,
        },
        after: match &c.after {
            Some(s) => Some(copy_summary(s)),
            None => None,
        },
        public_api: c.public_api,
        risk: c.risk,
        reason: c.reason.clone(),
    }
}

fn public_changes(cs: &Vec<ChangedSymbol>) -> (r: Vec<ChangedSymbol>)
    ensures
        crate::diff_report::changed_symbol_views(r@) == public_only(crate::diff_report::changed_symbol_views(cs@)),
{
    let ghost cv = crate::diff_report::changed_symbol_views(cs@);
    let mut out: Vec<ChangedSymbol> = Vec::new();
    let mut i: usize = 0;
    assert(cv.take(0) =~= Seq::<ChangedSymbolView>::empty());
    assert(crate::diff_report::changed_symbol_views(out@) =~= Seq::<ChangedSymbolView>::empty());
    while i < cs.len()
        invariant
            i <= cs.len(),
            cv == crate::diff_report::changed_symbol_views(cs@),
            crate::diff_report::changed_symbol_views(out@) == public_only(cv.take(i as int)),
        decreases cs.len() - i,
    {
        assert(cv.take(i + 1).drop_last() =~= cv.take(i as int));
        assert(cv.take(i + 1).last() == cs@[i as int]@);
        let ghost before = crate::diff_report::changed_symbol_views(out@);
        if cs[i].public_api {
            let c = copy_change(&cs[i]);
            out.push(c);
            assert(crate::diff_report::changed_symbol_views(out@) =~= before + seq![cs@[i as int]@]);
        } else {
            assert(crate::diff_report::changed_symbol_views(out@) =~= before + Seq::<ChangedSymbolView>::empty());
        }
        i += 1;
    }
    assert(cv.take(cs.len() as int) =~= cv);
    out
}

/// Compares the indexes of two references. Symbols are matched by file (the
/// base's renamed files under their new paths), language, kind and scoped name
/// (its qualified name within the file); a symbol whose lines and columns,
/// source hash or fact quality differ is modified.
/// Dependencies are matched by file, target and kind. A file is impacted when it
/// changed, or when one of its calls, references, imports or dependencies reaches
/// a changed symbol or dependency.
pub fn compare_refs(base: IndexedRef, head: IndexedRef, changed_files: Vec<FileChange>) -> (r: crate::diff_report::DiffReport)
    ensures
        r.base.name@ == base.label@,
        r.base.commit@ == base.commit@,
        r.head.name@ == head.label@,
        r.head.commit@ == head.commit@,
        crate::diff_report::file_views(r.changed_files@) == crate::diff_report::file_views(changed_files@),
        crate::diff_report::changed_symbol_views(r.changed_symbols@) == diff_symbols(base, head, crate::diff_report::file_views(changed_files@)),
        crate::diff_report::changed_symbol_views(r.public_api_changes@) == public_only(diff_symbols(base, head, crate::diff_report::file_views(changed_files@))),
        crate::diff_report::dependency_views(r.dependency_changes@) == diff_dependencies(base, head, crate::diff_report::file_views(changed_files@)),
        crate::diff_report::impacted_views(r.impacted_files@) == diff_impacts(base, head, crate::diff_report::file_views(changed_files@)),
        crate::diff_report::diagnostic_views(r.diagnostics@) == diff_diagnostics(base, head),
        r.stats.files_added == crate::diff_report::count_files(crate::diff_report::file_views(changed_files@), ChangeKind::Added, ChangeKind::Copied),
        r.stats.files_removed == crate::diff_report::count_files(crate::diff_report::file_views(changed_files@), ChangeKind::Removed, ChangeKind::Removed),
        r.stats.files_modified == crate::diff_report::count_files(crate::diff_report::file_views(changed_files@), ChangeKind::Modified, ChangeKind::TypeChanged),
        r.stats.files_renamed == crate::diff_report::count_files(crate::diff_report::file_views(changed_files@), ChangeKind::Renamed, ChangeKind::Renamed),
        r.stats.symbols_added == crate::diff_report::count_symbols(crate::diff_report::changed_symbol_views(r.changed_symbols@), ChangeKind::Added, ChangeKind::Copied, ChangeKind::Copied),
        r.stats.symbols_removed == crate::diff_report::count_symbols(crate::diff_report::changed_symbol_views(r.changed_symbols@), ChangeKind::Removed, ChangeKind::Removed, ChangeKind::Removed),
        r.stats.symbols_modified == crate::diff_report::count_symbols(crate::diff_report::changed_symbol_views(r.changed_symbols@), ChangeKind::Modified, ChangeKind::Renamed, ChangeKind::TypeChanged),
        r.stats.public_api_changes == r.public_api_changes@.len(),
        r.stats.dependency_changes == r.dependency_changes@.len(),
        r.stats.impacted_files == r.impacted_files@.len(),
        r.stats.diagnostics == r.diagnostics@.len(),
        r.stats.base_indexed_files == base.partitions@.len(),
        r.stats.head_indexed_files == head.partitions@.len(),
        r.stats.base_skipped_files == base.skipped@.len(),
        r.stats.head_skipped_files == head.skipped@.len(),
{
    let no_changes: Vec<FileChange> = Vec::new();
    assert(crate::diff_report::file_views(no_changes@) =~= Seq::<FileChangeView>::empty());
    let base_symbols = build_symbols(&base.partitions, &base.root, &changed_files, &base.sources);
    let head_symbols = build_symbols(&head.partitions, &head.root, &no_changes, &head.sources);
    let changed_symbols = compare_symbols(&base_symbols, &head_symbols);
    let public_api_changes = public_changes(&changed_symbols);
    let base_dependencies = build_dependencies(&base.partitions, &base.root, &changed_files);
    let head_dependencies = build_dependencies(&head.partitions, &head.root, &no_changes);
    let dependency_changes = compare_dependencies(&base_dependencies, &head_dependencies);
    let impacted_files = impacted_files(&base, &head, &changed_files, &changed_symbols, &dependency_changes);
    let mut diagnostics: Vec<DiffDiagnostic> = Vec::new();
    assert(crate::diff_report::diagnostic_views(diagnostics@) =~= Seq::<DiffDiagnosticView>::empty());
    collect_diagnostics(&base, RefSide::Base, &mut diagnostics);
    collect_diagnostics(&head, RefSide::Head, &mut diagnostics);
    let stats = crate::diff_report::stats(
        &changed_files,
        &changed_symbols,
        public_api_changes.len(),
        dependency_changes.len(),
        impacted_files.len(),
        diagnostics.len(),
        base.partitions.len(),
        head.partitions.len(),
        base.skipped.len(),
        head.skipped.len(),
    );
    crate::diff_report::DiffReport {
        base: crate::diff_report::RefSummary { name: base.label, commit: base.commit },
        head: crate::diff_report::RefSummary { name: head.label, commit: head.commit },
        changed_files,
        changed_symbols,
        public_api_changes,
        dependency_changes,
        impacted_files,
        diagnostics,
        stats,
    }
}

/// No key comes before itself.
pub proof fn key_lt_irreflexive(k: ComparisonKeyView)
    ensures
        !key_lt(k, k),
{
    crate::order::seq_lt_irreflexive(k.file);
    crate::order::seq_lt_irreflexive(k.scoped_name);
}

/// Comparing a symbol index with itself finds no change.
pub proof fn same_symbols_no_changes(s: Seq<(ComparisonKeyView, SymbolEntryView)>)
    ensures
        symbol_changes(s, s) == Seq::<ChangedSymbolView>::empty(),
    decreases s.len(),
{
    if s.len() > 0 {
        key_lt_irreflexive(s[0].0);
        same_symbols_no_changes(s.drop_first());
        assert(symbol_changes(s, s) =~= Seq::<ChangedSymbolView>::empty() + symbol_changes(s.drop_first(), s.drop_first()));
    }
}

/// Comparing a dependency index with itself finds no change.
pub proof fn same_dependencies_no_changes(s: Seq<DependencyKeyView>)
    ensures
        dependency_changes(s, s) == Seq::<DependencyChangeView>::empty(),
    decreases s.len(),
{
    if s.len() > 0 {
        crate::order::seq_lt_irreflexive(s[0].file);
        crate::order::seq_lt_irreflexive(s[0].dependency);
        same_dependencies_no_changes(s.drop_first());
    }
}

/// A diff of a reference against an identical one reports no changed symbols and
/// no changed dependencies, and therefore impacts only the changed files.
pub proof fn identical_sides_have_no_changes(base: IndexedRef, head: IndexedRef)
    requires
        partition_views(base.partitions@) == partition_views(head.partitions@),
        base.root@ == head.root@,
        source_views(base.sources@) == source_views(head.sources@),
    ensures
        diff_symbols(base, head, Seq::empty()) == Seq::<ChangedSymbolView>::empty(),
        diff_dependencies(base, head, Seq::empty()) == Seq::<DependencyChangeView>::empty(),
{
    assert(base.partitions@.len() == partition_views(base.partitions@).len());
    assert(head.partitions@.len() == partition_views(head.partitions@).len());
    same_symbols_no_changes(side_symbols(base, Seq::empty()));
    same_dependencies_no_changes(side_dependencies(base, Seq::empty()));
}

/// The order of keys is transitive.
pub proof fn key_lt_transitive(a: ComparisonKeyView, b: ComparisonKeyView, c: ComparisonKeyView)
    requires
        key_lt(a, b),
        key_lt(b, c),
    ensures
        key_lt(a, c),
{
    if seq_lt(a.file, b.file) && seq_lt(b.file, c.file) {
        crate::order::seq_lt_transitive(a.file, b.file, c.file);
    }
    if a.file == b.file && b.file == c.file && a.language == b.language && b.language == c.language
        && a.kind == b.kind && b.kind == c.kind && seq_lt(a.scoped_name, b.scoped_name) && seq_lt(b.scoped_name, c.scoped_name) {
        crate::order::seq_lt_transitive(a.scoped_name, b.scoped_name, c.scoped_name);
    }
}

/// Of two different keys, one comes before the other.
pub proof fn key_lt_total(a: ComparisonKeyView, b: ComparisonKeyView)
    requires
        a != b,
    ensures
        key_lt(a, b) || key_lt(b, a),
{
    if a.file != b.file {
        crate::order::seq_lt_total(a.file, b.file);
    } else if a.language != b.language {
        assert(language_rank(a.language) != language_rank(b.language));
    } else if a.kind != b.kind {
        assert(kind_rank(a.kind) != kind_rank(b.kind));
    } else {
        assert(a.scoped_name != b.scoped_name);
        crate::order::seq_lt_total(a.scoped_name, b.scoped_name);
    }
}

/// A symbol index in strictly increasing key order: no key twice.
pub open spec fn keys_sorted(s: Seq<(ComparisonKeyView, SymbolEntryView)>) -> bool {
    forall|i: int, j: int| 0 <= i < j < s.len() ==> key_lt(#[trigger] s[i].0, #[trigger] s[j].0)
}

proof fn lemma_insert_keys(s: Seq<(ComparisonKeyView, SymbolEntryView)>, k: ComparisonKeyView, e: SymbolEntryView)
    ensures
        forall|i: int| 0 <= i < symbol_insert(s, k, e).len() ==> #[trigger] symbol_insert(s, k, e)[i].0 == k
            || exists|j: int| 0 <= j < s.len() && symbol_insert(s, k, e)[i].0 == s[j].0,
    decreases s.len(),
{
    let r = symbol_insert(s, k, e);
    if s.len() > 0 && !key_lt(k, s[0].0) && k != s[0].0 {
        let t = s.drop_first();
        lemma_insert_keys(t, k, e);
        assert forall|i: int| 0 <= i < r.len() implies #[trigger] r[i].0 == k || exists|j: int| 0 <= j < s.len() && r[i].0 == s[j].0 by {
            if i == 0 {
                assert(r[0].0 == s[0].0);
            } else {
                assert(r[i] == symbol_insert(t, k, e)[i - 1]);
                if r[i].0 != k {
                    let j = choose|j: int| 0 <= j < t.len() && symbol_insert(t, k, e)[i - 1].0 == t[j].0;
                    assert(r[i].0 == s[j + 1].0);
                }
            }
        }
    } else if s.len() > 0 && k == s[0].0 {
        key_lt_irreflexive(k);
        assert(r == seq![(k, e)] + s.drop_first());
        assert forall|i: int| 0 <= i < r.len() implies #[trigger] r[i].0 == k || exists|j: int| 0 <= j < s.len() && r[i].0 == s[j].0 by {
            if i > 0 {
                assert(r[i] == s.drop_first()[i - 1]);
                assert(r[i].0 == s[i].0);
            }
        }
    } else if s.len() > 0 {
        assert forall|i: int| 0 <= i < r.len() implies #[trigger] r[i].0 == k || exists|j: int| 0 <= j < s.len() && r[i].0 == s[j].0 by {
            if i > 0 {
                assert(r[i].0 == s[i - 1].0);
            }
        }
    }
}

/// Inserting into a symbol index keeps it in strictly increasing key order, as
/// the ordered map it stands for.
pub proof fn symbol_insert_keeps_order(s: Seq<(ComparisonKeyView, SymbolEntryView)>, k: ComparisonKeyView, e: SymbolEntryView)
    requires
        keys_sorted(s),
    ensures
        keys_sorted(symbol_insert(s, k, e)),
    decreases s.len(),
{
    let r = symbol_insert(s, k, e);
    if s.len() == 0 {
    } else if key_lt(k, s[0].0) {
        assert forall|i: int, j: int| 0 <= i < j < r.len() implies key_lt(#[trigger] r[i].0, #[trigger] r[j].0) by {
            if i == 0 {
                if j > 1 {
                    key_lt_transitive(k, s[0].0, s[j - 1].0);
                }
            } else {
                assert(r[i] == s[i - 1] && r[j] == s[j - 1]);
            }
        }
    } else if k == s[0].0 {
        assert forall|i: int, j: int| 0 <= i < j < r.len() implies key_lt(#[trigger] r[i].0, #[trigger] r[j].0) by {
            assert(r[j] == s[j] || j == 0);
            if i == 0 {
                assert(r[0].0 == s[0].0);
            } else {
                assert(r[i] == s[i]);
            }
        }
    } else {
        key_lt_total(k, s[0].0);
        let t = s.drop_first();
        assert(keys_sorted(t)) by {
            assert forall|i: int, j: int| 0 <= i < j < t.len() implies key_lt(#[trigger] t[i].0, #[trigger] t[j].0) by {
                assert(t[i] == s[i + 1] && t[j] == s[j + 1]);
            }
        }
        symbol_insert_keeps_order(t, k, e);
        lemma_insert_keys(t, k, e);
        let u = symbol_insert(t, k, e);
        assert(r == seq![s[0]] + u);
        assert forall|i: int, j: int| 0 <= i < j < r.len() implies key_lt(#[trigger] r[i].0, #[trigger] r[j].0) by {
            if i == 0 {
                assert(r[j] == u[j - 1]);
                if u[j - 1].0 != k {
                    let m = choose|m: int| 0 <= m < t.len() && u[j - 1].0 == t[m].0;
                    assert(key_lt(s[0].0, s[m + 1].0));
                }
            } else {
                assert(r[i] == u[i - 1] && r[j] == u[j - 1]);
            }
        }
    }
}

proof fn lemma_nodes_keep_order(
    acc: Seq<(ComparisonKeyView, SymbolEntryView)>,
    ns: Seq<NodeView>,
    file: Seq<char>,
    cfile: Seq<char>,
    exports: Seq<Seq<char>>,
    source: Option<Seq<char>>,
)
    requires
        keys_sorted(acc),
    ensures
        keys_sorted(symbols_of_nodes(acc, ns, file, cfile, exports, source)),
    decreases ns.len(),
{
    if ns.len() > 0 {
        lemma_nodes_keep_order(acc, ns.drop_last(), file, cfile, exports, source);
        let a = symbols_of_nodes(acc, ns.drop_last(), file, cfile, exports, source);
        let n = ns.last();
        if n.kind == NodeKind::Symbol {
            symbol_insert_keeps_order(a, spec_symbol_key(n, cfile), spec_symbol_entry(n, file, exports, source));
        }
    }
}

/// The symbol index of a side is in strictly increasing key order: each key
/// stands once, with the entry of its last symbol.
pub proof fn built_symbols_are_ordered(
    ps: Seq<PartitionView>,
    root: Seq<char>,
    changes: Seq<FileChangeView>,
    sources: Seq<Option<Seq<char>>>,
    k: int,
)
    ensures
        keys_sorted(spec_build_symbols(ps, root, changes, sources, k)),
    decreases k,
{
    if 0 < k <= ps.len() {
        built_symbols_are_ordered(ps, root, changes, sources, k - 1);
        let p = ps[k - 1];
        let file = crate::model::relative_key(p.path, root);
        lemma_nodes_keep_order(
            spec_build_symbols(ps, root, changes, sources, k - 1),
            p.nodes,
            file,
            comparison_file(changes, file),
            exported_names(p.nodes),
            source_at(sources, k - 1),
        );
    }
}

} // verus!
