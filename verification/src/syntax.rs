use crate::diagnostics::{Diagnostic, DiagnosticView, Severity};
use crate::ids::FileId;
use crate::span::{LineColumn, SourceSpan};
use crate::text::{char_utf8_len, lemma_encode_push, lemma_scalar_width};
use tree_sitter::Language as Grammar;
use vstd::prelude::*;
use vstd::utf8::{encode_scalar, encode_utf8};

verus! {

#[verifier::external_type_specification]
#[verifier::external_body]
pub struct ExTsLanguage(Grammar);

#[verifier::external_type_specification]
#[verifier::external_body]
pub struct ExTsNode<'tree>(tree_sitter::Node<'tree>);

#[verifier::external_type_specification]
#[verifier::external_body]
pub struct ExTsQuery(tree_sitter::Query);

/// The grammars the library parses with.
#[derive(Clone, Copy, Debug, PartialEq, Eq, Structural)]
pub enum GrammarId {
    C,
    Cpp,
    Go,
    Java,
    ObjectiveC,
    Rust,
    JavaScript,
    TypeScript,
    Tsx,
    Python,
}

/// A node of a completed tree-sitter parse: its kind, flags and range, and its
/// children in order, each with the field it stands under in this node.
#[derive(Debug)]
pub struct ParsedNode {
    pub kind: String,
    pub named: bool,
    pub error: bool,
    pub missing: bool,
    pub has_error: bool,
    pub start_byte: usize,
    pub end_byte: usize,
    pub start_row: usize,
    pub start_column: usize,
    pub end_row: usize,
    pub end_column: usize,
    pub children: Vec<(Option<String>, ParsedNode)>,
}

/// The tree tree-sitter builds for `text` in the grammar `grammar` when the parse
/// runs to its end.
pub uninterp spec fn parse_tree(grammar: GrammarId, text: Seq<char>) -> ParsedNode;

/// Each grammar id as its grammar crate's `LANGUAGE`, one for one.
#[verifier::external_body]
fn grammar_of(grammar: GrammarId) -> Grammar {
    match grammar {
        GrammarId::C => tree_sitter_c::LANGUAGE.into(),
        GrammarId::Cpp => tree_sitter_cpp::LANGUAGE.into(),
        GrammarId::Go => tree_sitter_go::LANGUAGE.into(),
        GrammarId::Java => tree_sitter_java::LANGUAGE.into(),
        GrammarId::ObjectiveC => tree_sitter_objc::LANGUAGE.into(),
        GrammarId::Rust => tree_sitter_rust::LANGUAGE.into(),
        GrammarId::JavaScript => tree_sitter_javascript::LANGUAGE.into(),
        GrammarId::TypeScript => tree_sitter_typescript::LANGUAGE_TYPESCRIPT.into(),
        GrammarId::Tsx => tree_sitter_typescript::LANGUAGE_TSX.into(),
        GrammarId::Python => tree_sitter_python::LANGUAGE.into(),
    }
}

/// A `tree_sitter::Node` and its subtree as a `ParsedNode`, node for node
/// (`kind`, `is_named`, `is_error`, `is_missing`, `has_error`, `range`, and each
/// of its `children` with its `field_name_for_child`).
#[verifier::external_body]
fn parsed_node_from(node: tree_sitter::Node) -> ParsedNode {
    let mut cursor = node.walk();
    let children = node.children(&mut cursor).enumerate()
        .map(|(i, child)| (node.field_name_for_child(i as u32).map(str::to_string), parsed_node_from(child)))
        .collect();
    let range = node.range();
    ParsedNode { kind: node.kind().to_string(), named: node.is_named(), error: node.is_error(),
        missing: node.is_missing(), has_error: node.has_error(), start_byte: range.start_byte,
        end_byte: range.end_byte, start_row: range.start_point.row, start_column: range.start_point.column,
        end_row: range.end_point.row, end_column: range.end_point.column, children }
}

/// `tree_sitter::Parser::new`, `set_language`, `set_timeout_micros` (zero: no
/// limit) and `parse` on the UTF-8 bytes of `source`, the tree copied node for
/// node. Fails with the error's message when the parser refuses the grammar;
/// `None` when the time ran out, which cannot happen without a limit (the
/// language is set and no cancellation flag is). Whether a limited parse runs out
/// of time depends on the machine; a parse that runs to its end is a function of
/// the grammar and the text, and it is named `parse_tree`.
#[verifier::external_body]
#[allow(deprecated)]
fn ts_parse(grammar: GrammarId, source: &str, timeout_micros: u64) -> (r: Result<Option<ParsedNode>, String>)
    ensures
        r matches Ok(Some(t)) ==> t == parse_tree(grammar, source@),
        timeout_micros == 0 ==> !(r matches Ok(None)),
{
    let mut parser = tree_sitter::Parser::new();
    parser.set_language(&grammar_of(grammar)).map_err(|error| error.to_string())?;
    parser.set_timeout_micros(timeout_micros);
    Ok(parser.parse(source, None).map(|tree| parsed_node_from(tree.root_node())))
}

/// One node of a parsed syntax tree, as plain values.
#[derive(Debug)]
pub struct SyntaxNode {
    pub kind: String,
    pub named: bool,
    pub error: bool,
    pub missing: bool,
    pub has_error: bool,
    pub start_byte: usize,
    pub end_byte: usize,
    pub start_row: usize,
    pub start_column: usize,
    pub end_row: usize,
    pub end_column: usize,
    /// The field under which the node stands in its parent.
    pub field: Option<String>,
    /// The index of the node's first child; its children are consecutive.
    pub first_child: usize,
    pub child_count: usize,
}

/// What a syntax node holds, as plain values.
pub struct SyntaxNodeView {
    pub kind: Seq<char>,
    pub named: bool,
    pub error: bool,
    pub missing: bool,
    pub has_error: bool,
    pub start_byte: usize,
    pub end_byte: usize,
    pub start_row: usize,
    pub start_column: usize,
    pub end_row: usize,
    pub end_column: usize,
    pub field: Option<Seq<char>>,
    pub first_child: usize,
    pub child_count: usize,
}

impl View for SyntaxNode {
    type V = SyntaxNodeView;

    open spec fn view(&self) -> SyntaxNodeView {
        SyntaxNodeView {
            kind: self.kind@,
            named: self.named,
            error: self.error,
            missing: self.missing,
            has_error: self.has_error,
            start_byte: self.start_byte,
            end_byte: self.end_byte,
            start_row: self.start_row,
            start_column: self.start_column,
            end_row: self.end_row,
            end_column: self.end_column,
            field: match self.field {
                Some(f) => Some(f@),
                None => None,
            },
            first_child: self.first_child,
            child_count: self.child_count,
        }
    }
}

/// A parsed syntax tree laid out breadth first: the root is node 0 and the
/// children of every node follow it.
#[derive(Debug)]
pub struct SyntaxTree {
    pub nodes: Vec<SyntaxNode>,
}

pub open spec fn syntax_views(nodes: Seq<SyntaxNode>) -> Seq<SyntaxNodeView> {
    nodes.map_values(|n: SyntaxNode| n@)
}

impl View for SyntaxTree {
    type V = Seq<SyntaxNodeView>;

    open spec fn view(&self) -> Seq<SyntaxNodeView> {
        syntax_views(self.nodes@)
    }
}

/// Whether the children of node `i` lie after it and inside the tree.
pub open spec fn children_follow(t: Seq<SyntaxNodeView>, i: int) -> bool {
    i < t[i].first_child && t[i].first_child + t[i].child_count <= t.len()
}

/// A well-formed tree: it has a root and the children of every node follow it.
pub open spec fn tree_wf(t: Seq<SyntaxNodeView>) -> bool {
    &&& t.len() >= 1
    &&& forall|i: int| 0 <= i < t.len() ==> #[trigger] children_follow(t, i)
}

/// Whether the plain node `v` holds what the parsed node `n` holds.
pub open spec fn node_matches(v: SyntaxNodeView, n: ParsedNode) -> bool {
    &&& v.kind == n.kind@
    &&& v.named == n.named
    &&& v.error == n.error
    &&& v.missing == n.missing
    &&& v.has_error == n.has_error
    &&& v.start_byte == n.start_byte
    &&& v.end_byte == n.end_byte
    &&& v.start_row == n.start_row
    &&& v.start_column == n.start_column
    &&& v.end_row == n.end_row
    &&& v.end_column == n.end_column
    &&& v.child_count == n.children@.len()
}

/// Whether the children of node `i` (`i > 0`) start right after those of node `i - 1`.
pub open spec fn follows_previous(t: Seq<SyntaxNodeView>, i: int) -> bool {
    t[i].first_child == t[i - 1].first_child + t[i - 1].child_count
}

/// Whether the children of the nodes of `t`, taken in order, are the nodes
/// `1..t.len()` in order: breadth first, with nothing left over.
pub open spec fn breadth_first(t: Seq<SyntaxNodeView>) -> bool {
    &&& t.len() >= 1
    &&& t[0].first_child == 1
    &&& forall|i: int| 1 <= i < t.len() ==> #[trigger] follows_previous(t, i)
    &&& t[t.len() - 1].first_child + t[t.len() - 1].child_count == t.len()
}

/// Whether `t` lays out the tree under `root` breadth first, with `m[i]` the
/// node at `i`: the root first, with no field, and the children of each node, in
/// order and with their fields, at its children's places.
pub open spec fn lays_out(t: Seq<SyntaxNodeView>, m: Seq<ParsedNode>, root: ParsedNode) -> bool {
    &&& t.len() >= 1
    &&& breadth_first(t)
    &&& m.len() == t.len()
    &&& m[0] == root
    &&& t[0].field is None
    &&& forall|i: int| 0 <= i < t.len() ==> #[trigger] node_matches(t[i], m[i])
    &&& forall|i: int, j: int| 0 <= i < t.len() && 0 <= j < t[i].child_count ==> {
        &&& #[trigger] m[t[i].first_child + j] == m[i].children@[j].1
        &&& t[t[i].first_child + j].field == crate::model::opt_view(m[i].children@[j].0)
    }
}

/// Whether the plain tree `t` is the parsed tree under `root`, node for node.
pub open spec fn represents(t: Seq<SyntaxNodeView>, root: ParsedNode) -> bool {
    exists|m: Seq<ParsedNode>| lays_out(t, m, root)
}

proof fn lemma_parent_from(t: Seq<SyntaxNodeView>, x: int, p: int) -> (q: int)
    requires
        tree_wf(t),
        breadth_first(t),
        1 <= x < t.len(),
        0 <= p < t.len(),
        t[p].first_child <= x,
    ensures
        0 <= q < x,
        t[q].first_child <= x < t[q].first_child + t[q].child_count,
    decreases t.len() - p,
{
    assert(children_follow(t, p));
    if x < t[p].first_child + t[p].child_count {
        p
    } else {
        assert(p + 1 < t.len());
        assert(follows_previous(t, p + 1));
        lemma_parent_from(t, x, p + 1)
    }
}

proof fn lemma_same_prefix(t1: Seq<SyntaxNodeView>, m1: Seq<ParsedNode>, t2: Seq<SyntaxNodeView>, m2: Seq<ParsedNode>, root: ParsedNode, k: int)
    requires
        tree_wf(t1),
        tree_wf(t2),
        lays_out(t1, m1, root),
        lays_out(t2, m2, root),
        0 <= k < t1.len(),
        k < t2.len(),
    ensures
        forall|x: int| 0 <= x <= k ==> #[trigger] m1[x] == m2[x],
        forall|x: int| 0 <= x <= k ==> #[trigger] t1[x] == t2[x],
    decreases k,
{
    if k > 0 {
        lemma_same_prefix(t1, m1, t2, m2, root, k - 1);
        let p = lemma_parent_from(t1, k, 0);
        let j = k - t1[p].first_child;
        assert(node_matches(t1[p], m1[p]) && node_matches(t2[p], m2[p]));
        assert(follows_previous(t1, k) && follows_previous(t2, k));
        assert(t1[k - 1] == t2[k - 1]);
        assert(t1[k].first_child == t2[k].first_child);
        assert(t1[p] == t2[p]);
        assert(m1[t1[p].first_child + j] == m1[p].children@[j].1);
        assert(m2[t2[p].first_child + j] == m2[p].children@[j].1);
        assert(m1[k] == m2[k]);
        assert(node_matches(t1[k], m1[k]) && node_matches(t2[k], m2[k]));
        assert(t1[k].field == t2[k].field);
        assert(t1[k].kind =~= t2[k].kind);
        assert(t1[k] == t2[k]);
        assert forall|x: int| 0 <= x <= k implies #[trigger] m1[x] == m2[x] by {
            if x < k {
                assert(m1[x] == m2[x]);
            }
        }
        assert forall|x: int| 0 <= x <= k implies #[trigger] t1[x] == t2[x] by {
            if x < k {
                assert(t1[x] == t2[x]);
            }
        }
    } else {
        assert(node_matches(t1[0], m1[0]) && node_matches(t2[0], m2[0]));
        assert(t1[0].kind =~= t2[0].kind);
        assert(t1[0] == t2[0]);
        assert(m1[0] == m2[0]);
        assert forall|x: int| 0 <= x <= k implies #[trigger] t1[x] == t2[x] by {
            assert(x == 0);
        }
    }
}

/// A parsed tree has one plain layout: two well-formed plain trees that both
/// represent it are equal.
pub proof fn representation_is_unique(t1: Seq<SyntaxNodeView>, t2: Seq<SyntaxNodeView>, root: ParsedNode)
    requires
        tree_wf(t1),
        tree_wf(t2),
        represents(t1, root),
        represents(t2, root),
    ensures
        t1 == t2,
{
    let m1 = choose|m: Seq<ParsedNode>| lays_out(t1, m, root);
    let m2 = choose|m: Seq<ParsedNode>| lays_out(t2, m, root);
    if t1.len() <= t2.len() {
        lemma_unique_when_shorter(t1, m1, t2, m2, root);
    } else {
        lemma_unique_when_shorter(t2, m2, t1, m1, root);
    }
}

proof fn lemma_unique_when_shorter(t1: Seq<SyntaxNodeView>, m1: Seq<ParsedNode>, t2: Seq<SyntaxNodeView>, m2: Seq<ParsedNode>, root: ParsedNode)
    requires
        tree_wf(t1),
        tree_wf(t2),
        lays_out(t1, m1, root),
        lays_out(t2, m2, root),
        t1.len() <= t2.len(),
    ensures
        t1 == t2,
{
    let n: int = t1.len() as int;
    lemma_same_prefix(t1, m1, t2, m2, root, n - 1);
    assert(t1[n - 1] == t2[n - 1]);
    if n < t2.len() {
        assert(follows_previous(t2, n));
        assert(children_follow(t2, n));
        assert(false);
    }
    assert(t1 =~= t2);
}

fn copy_field(f: &Option<String>) -> (r: Option<String>)
    ensures
        crate::model::opt_view(r) == crate::model::opt_view(*f),
{
    match f {
        Some(s) => Some(s.clone()),
        None => None,
    }
}

fn syntax_node_of(n: &ParsedNode, field: &Option<String>, first_child: usize) -> (r: SyntaxNode)
    ensures
        node_matches(r@, *n),
        r.first_child == first_child,
        r@.field == crate::model::opt_view(*field),
{
    SyntaxNode {
        kind: n.kind.clone(),
        named: n.named,
        error: n.error,
        missing: n.missing,
        has_error: n.has_error,
        start_byte: n.start_byte,
        end_byte: n.end_byte,
        start_row: n.start_row,
        start_column: n.start_column,
        end_row: n.end_row,
        end_column: n.end_column,
        field: copy_field(field),
        first_child,
        child_count: n.children.len(),
    }
}

pub open spec fn placed(h: Seq<(&Option<String>, &ParsedNode)>) -> Seq<ParsedNode> {
    h.map_values(|x: (&Option<String>, &ParsedNode)| *x.1)
}

/// Copies a parsed tree into a `SyntaxTree`, breadth first.
pub fn syntax_tree_of(root: &ParsedNode) -> (r: SyntaxTree)
    ensures
        tree_wf(r@),
        represents(r@, *root),
{
    let none: Option<String> = None;
    let mut handles: Vec<(&Option<String>, &ParsedNode)> = Vec::new();
    let mut nodes: Vec<SyntaxNode> = Vec::new();
    handles.push((&none, root));
    let mut i: usize = 0;
    while i < handles.len()
        invariant
            nodes@.len() == i,
            i <= handles@.len(),
            handles@.len() >= 1,
            *handles@[0].1 == *root,
            *handles@[0].0 is None,
            forall|k: int| 0 <= k < i ==> k < #[trigger] nodes@[k].first_child
                && nodes@[k].first_child + nodes@[k].child_count <= handles@.len(),
            i == 0 ==> handles@.len() == 1,
            i >= 1 ==> nodes@[0].first_child == 1,
            i >= 1 ==> handles@.len() == nodes@[i - 1].first_child + nodes@[i - 1].child_count,
            forall|k: int| 1 <= k < i ==> #[trigger] nodes@[k].first_child == nodes@[k - 1].first_child + nodes@[k - 1].child_count,
            forall|k: int| 0 <= k < i ==> #[trigger] node_matches(nodes@[k]@, *handles@[k].1)
                && nodes@[k]@.field == crate::model::opt_view(*handles@[k].0),
            forall|k: int, j: int| 0 <= k < i && 0 <= j < nodes@[k].child_count ==> {
                &&& #[trigger] handles@[nodes@[k].first_child + j].1 == &handles@[k].1.children@[j].1
                &&& handles@[nodes@[k].first_child + j].0 == &handles@[k].1.children@[j].0
            },
        decreases usize::MAX - i,
    {
        let node: &ParsedNode = handles[i].1;
        let first_child = handles.len();
        let count = node.children.len();
        let mut c: usize = 0;
        while c < count
            invariant
                nodes@.len() == i,
                i < first_child,
                c <= count,
                count == node.children@.len(),
                node == handles@[i as int].1,
                handles@.len() == first_child + c,
                *handles@[0].1 == *root,
                *handles@[0].0 is None,
                forall|k: int| 0 <= k < i ==> k < #[trigger] nodes@[k].first_child
                    && nodes@[k].first_child + nodes@[k].child_count <= first_child,
                i == 0 ==> first_child == 1,
                i >= 1 ==> nodes@[0].first_child == 1,
                i >= 1 ==> first_child == nodes@[i - 1].first_child + nodes@[i - 1].child_count,
                forall|k: int| 1 <= k < i ==> #[trigger] nodes@[k].first_child == nodes@[k - 1].first_child + nodes@[k - 1].child_count,
                forall|k: int| 0 <= k < i ==> #[trigger] node_matches(nodes@[k]@, *handles@[k].1)
                    && nodes@[k]@.field == crate::model::opt_view(*handles@[k].0),
                forall|k: int, j: int| 0 <= k < i && 0 <= j < nodes@[k].child_count ==> {
                    &&& #[trigger] handles@[nodes@[k].first_child + j].1 == &handles@[k].1.children@[j].1
                    &&& handles@[nodes@[k].first_child + j].0 == &handles@[k].1.children@[j].0
                },
                forall|j: int| 0 <= j < c ==> {
                    &&& #[trigger] handles@[first_child + j].1 == &node.children@[j].1
                    &&& handles@[first_child + j].0 == &node.children@[j].0
                },
            decreases count - c,
        {
            let ghost before = handles@;
            handles.push((&node.children[c].0, &node.children[c].1));
            proof {
                assert forall|x: int| 0 <= x < before.len() implies handles@[x] == before[x] by {}
            }
            c += 1;
        }
        let n = syntax_node_of(node, handles[i].0, first_child);
        nodes.push(n);
        proof {
            assert(nodes@[i as int].first_child == first_child);
            assert(node_matches(nodes@[i as int]@, *node));
            assert forall|k: int, j: int| 0 <= k <= i && 0 <= j < nodes@[k].child_count implies {
                &&& #[trigger] handles@[nodes@[k].first_child + j].1 == &handles@[k].1.children@[j].1
                &&& handles@[nodes@[k].first_child + j].0 == &handles@[k].1.children@[j].0
            } by {
                if k == i as int {
                    assert(handles@[first_child + j].1 == &node.children@[j].1);
                }
            }
        }
        i += 1;
    }
    let r = SyntaxTree { nodes };
    let ghost m = placed(handles@);
    proof {
        assert(m.len() == r@.len());
        assert forall|k: int| 0 <= k < r@.len() implies #[trigger] children_follow(r@, k) by {
            assert(r@[k] == r.nodes@[k]@);
        }
        assert forall|k: int| 0 <= k < r@.len() implies #[trigger] node_matches(r@[k], m[k]) by {
            assert(r@[k] == r.nodes@[k]@);
            assert(m[k] == *handles@[k].1);
            assert(node_matches(r.nodes@[k]@, *handles@[k].1));
        }
        assert forall|k: int, j: int| 0 <= k < r@.len() && 0 <= j < r@[k].child_count implies {
            &&& #[trigger] m[r@[k].first_child + j] == m[k].children@[j].1
            &&& r@[r@[k].first_child + j].field == crate::model::opt_view(m[k].children@[j].0)
        } by {
            assert(r@[k] == r.nodes@[k]@);
            assert(node_matches(r.nodes@[k]@, *handles@[k].1));
            let f = r.nodes@[k].first_child + j;
            assert(k < r.nodes@[k].first_child);
            assert(handles@[f].1 == &handles@[k].1.children@[j].1);
            assert(handles@[f].0 == &handles@[k].1.children@[j].0);
            assert(m[f] == *handles@[f].1);
            assert(m[k] == *handles@[k].1);
            assert(r@[f] == r.nodes@[f]@);
            assert(node_matches(r.nodes@[f]@, *handles@[f].1));
        }
        assert(r@[0] == r.nodes@[0]@);
        assert forall|k: int| 1 <= k < r@.len() implies #[trigger] follows_previous(r@, k) by {
            assert(r@[k] == r.nodes@[k]@);
            assert(r@[k - 1] == r.nodes@[k - 1]@);
            assert(r.nodes@[k].first_child == r.nodes@[k - 1].first_child + r.nodes@[k - 1].child_count);
        }
        assert(r@[r@.len() - 1] == r.nodes@[r@.len() - 1]@);
        assert(breadth_first(r@));
        assert(node_matches(r.nodes@[0]@, *handles@[0].1));
        assert(m[0] == *handles@[0].1);
        assert(lays_out(r@, m, *root));
    }
    r
}

/// The UTF-8 byte offset of the character at index `i` of `s`.
pub open spec fn byte_offset(s: Seq<char>, i: int) -> int {
    encode_utf8(s.take(i)).len() as int
}

/// Whether the characters `i..j` of `s` are exactly the bytes `start..end`.
pub open spec fn bytes_cover(s: Seq<char>, start: int, end: int, i: int, j: int) -> bool {
    0 <= i <= j <= s.len() && byte_offset(s, i) == start && byte_offset(s, j) == end
}

/// The text of the bytes `start..end` of `s`, when both fall on character
/// boundaries in order (as `str::get` gives it).
pub open spec fn byte_slice(s: Seq<char>, start: int, end: int) -> Option<Seq<char>> {
    if exists|i: int, j: int| bytes_cover(s, start, end, i, j) {
        let (i, j) = choose|i: int, j: int| bytes_cover(s, start, end, i, j);
        Some(s.subrange(i, j))
    } else {
        None
    }
}

proof fn lemma_offset_step(s: Seq<char>, i: int)
    requires
        0 <= i < s.len(),
    ensures
        byte_offset(s, i + 1) == byte_offset(s, i) + encode_scalar(s[i] as u32).len(),
        byte_offset(s, i) < byte_offset(s, i + 1),
{
    lemma_encode_push(s.take(i), s[i]);
    assert(s.take(i).push(s[i]) =~= s.take(i + 1));
    lemma_scalar_width(s[i]);
}

proof fn lemma_offset_increases(s: Seq<char>, i: int, j: int)
    requires
        0 <= i < j <= s.len(),
    ensures
        byte_offset(s, i) < byte_offset(s, j),
    decreases j - i,
{
    lemma_offset_step(s, j - 1);
    if i < j - 1 {
        lemma_offset_increases(s, i, j - 1);
    }
}

proof fn lemma_offset_unique(s: Seq<char>, i: int, k: int)
    requires
        0 <= i <= s.len(),
        0 <= k <= s.len(),
        byte_offset(s, i) == byte_offset(s, k),
    ensures
        i == k,
{
    if i < k {
        lemma_offset_increases(s, i, k);
    } else if k < i {
        lemma_offset_increases(s, k, i);
    }
}

/// The text of the bytes `start..end` of `s`.
pub fn text_of_bytes(s: &[char], start: usize, end: usize) -> (r: Option<Vec<char>>)
    requires
        encode_utf8(s@).len() <= usize::MAX,
    ensures
        match r {
            Some(v) => byte_slice(s@, start as int, end as int) == Some(v@),
            None => byte_slice(s@, start as int, end as int) is None,
        },
{
    let mut offset: usize = 0;
    let mut si: Option<usize> = None;
    let mut ei: Option<usize> = None;
    let mut i: usize = 0;
    assert(s@.take(0) =~= Seq::<char>::empty());
    while i < s.len()
        invariant
            i <= s.len(),
            encode_utf8(s@).len() <= usize::MAX,
            offset == byte_offset(s@, i as int),
            match si {
                Some(a) => a < i && byte_offset(s@, a as int) == start,
                None => forall|k: int| 0 <= k < i ==> byte_offset(s@, k) != start,
            },
            match ei {
                Some(b) => b < i && byte_offset(s@, b as int) == end,
                None => forall|k: int| 0 <= k < i ==> byte_offset(s@, k) != end,
            },
        decreases s.len() - i,
    {
        if si.is_none() && offset == start {
            si = Some(i);
        }
        if ei.is_none() && offset == end {
            ei = Some(i);
        }
        proof {
            lemma_offset_step(s@, i as int);
            if i + 1 < s.len() {
                lemma_offset_increases(s@, i + 1, s@.len() as int);
            }
            assert(s@.take(s@.len() as int) =~= s@);
        }
        offset = offset + char_utf8_len(s[i]);
        i += 1;
    }
    if si.is_none() && offset == start {
        si = Some(i);
    }
    if ei.is_none() && offset == end {
        ei = Some(i);
    }
    assert(match si {
        Some(a) => a <= s.len() && byte_offset(s@, a as int) == start,
        None => forall|k: int| 0 <= k <= s.len() ==> byte_offset(s@, k) != start,
    });
    assert(match ei {
        Some(b) => b <= s.len() && byte_offset(s@, b as int) == end,
        None => forall|k: int| 0 <= k <= s.len() ==> byte_offset(s@, k) != end,
    });
    match (si, ei) {
        (Some(a), Some(b)) => {
            if a <= b {
                proof {
                    assert(bytes_cover(s@, start as int, end as int, a as int, b as int));
                    let (x, y) = choose|x: int, y: int| bytes_cover(s@, start as int, end as int, x, y);
                    lemma_offset_unique(s@, x, a as int);
                    lemma_offset_unique(s@, y, b as int);
                }
                let v = crate::text::slice(s, a, b);
                Some(v)
            } else {
                proof {
                    assert forall|x: int, y: int| !bytes_cover(s@, start as int, end as int, x, y) by {
                        if bytes_cover(s@, start as int, end as int, x, y) {
                            lemma_offset_unique(s@, x, a as int);
                            lemma_offset_unique(s@, y, b as int);
                        }
                    }
                }
                None
            }
        },
        _ => {
            proof {
                assert forall|x: int, y: int| !bytes_cover(s@, start as int, end as int, x, y) by {
                    if bytes_cover(s@, start as int, end as int, x, y) {
                        assert(0 <= x <= s@.len() && 0 <= y <= s@.len());
                    }
                }
            }
            None
        },
    }
}

/// The span of a node: byte offsets, and rows and columns counted from one.
pub open spec fn spec_node_span(n: SyntaxNodeView) -> SourceSpan {
    SourceSpan {
        byte_start: n.start_byte as u32,
        byte_end: n.end_byte as u32,
        start: LineColumn {
            line: (n.start_row as u32).wrapping_add(1),
            column: (n.start_column as u32).wrapping_add(1),
        },
        end: LineColumn {
            line: (n.end_row as u32).wrapping_add(1),
            column: (n.end_column as u32).wrapping_add(1),
        },
    }
}

/// The span of a node, one-based like every span of the graph.
pub fn node_span(n: &SyntaxNode) -> (r: SourceSpan)
    ensures
        r == spec_node_span(n@),
{
    SourceSpan::new(
        n.start_byte as u32,
        n.end_byte as u32,
        LineColumn::new((n.start_row as u32).wrapping_add(1), (n.start_column as u32).wrapping_add(1)),
        LineColumn::new((n.end_row as u32).wrapping_add(1), (n.end_column as u32).wrapping_add(1)),
    )
}

/// `tree_sitter_python::LANGUAGE` as a tree-sitter language.
pub fn python_language() -> (r: Grammar) {
    grammar_of(GrammarId::Python)
}

/// `tree_sitter_c::LANGUAGE` as a tree-sitter language.
pub fn c_language() -> (r: Grammar) {
    grammar_of(GrammarId::C)
}

/// `tree_sitter_cpp::LANGUAGE` as a tree-sitter language.
pub fn cpp_language() -> (r: Grammar) {
    grammar_of(GrammarId::Cpp)
}

/// `tree_sitter_go::LANGUAGE` as a tree-sitter language.
pub fn go_language() -> (r: Grammar) {
    grammar_of(GrammarId::Go)
}

/// `tree_sitter_java::LANGUAGE` as a tree-sitter language.
pub fn java_language() -> (r: Grammar) {
    grammar_of(GrammarId::Java)
}

/// `tree_sitter_objc::LANGUAGE` as a tree-sitter language.
pub fn objective_c_language() -> (r: Grammar) {
    grammar_of(GrammarId::ObjectiveC)
}

/// `tree_sitter_rust::LANGUAGE` as a tree-sitter language.
pub fn rust_language() -> (r: Grammar) {
    grammar_of(GrammarId::Rust)
}

/// `tree_sitter_javascript::LANGUAGE` as a tree-sitter language.
pub fn javascript_language() -> (r: Grammar) {
    grammar_of(GrammarId::JavaScript)
}

/// `tree_sitter_typescript::LANGUAGE_TYPESCRIPT` as a tree-sitter language.
pub fn typescript_language() -> (r: Grammar) {
    grammar_of(GrammarId::TypeScript)
}

/// `tree_sitter_typescript::LANGUAGE_TSX` as a tree-sitter language.
pub fn tsx_language() -> (r: Grammar) {
    grammar_of(GrammarId::Tsx)
}

#[verifier::external_type_specification]
#[verifier::external_body]
pub struct ExInstant(std::time::Instant);

/// `std::time::Instant::now`: the current time, whatever it is.
#[verifier::external_body]
pub(crate) fn instant_now() -> (r: std::time::Instant) {
    std::time::Instant::now()
}

/// `std::time::Instant::elapsed`: the time since `started`, whatever it is.
#[verifier::external_body]
pub(crate) fn instant_elapsed(started: &std::time::Instant) -> (r: std::time::Duration) {
    started.elapsed()
}

/// `std::time::Duration::as_micros`.
#[verifier::external_body]
pub(crate) fn duration_micros(d: &std::time::Duration) -> (r: u128) {
    d.as_micros()
}

/// How tree-sitter extraction proceeds.
#[derive(Clone, Copy, Debug, PartialEq, Eq, Structural)]
pub enum ExtractionMode {
    ScannerOnly,
    TreeSitterOnly,
    TreeSitterWithFallback,
    TreeSitterWithEnrichment,
}

pub open spec fn extraction_mode_name(mode: ExtractionMode) -> Seq<char> {
    match mode {
        ExtractionMode::ScannerOnly => "scanner-only"@,
        ExtractionMode::TreeSitterOnly => "tree-sitter-only"@,
        ExtractionMode::TreeSitterWithFallback => "tree-sitter-fallback"@,
        ExtractionMode::TreeSitterWithEnrichment => "tree-sitter-enrichment"@,
    }
}

impl ExtractionMode {
    /// The mode's name on the command line and in the environment.
    pub fn as_str(self) -> (r: &'static str)
        ensures
            r@ == extraction_mode_name(self),
    {
        match self {
            ExtractionMode::ScannerOnly => "scanner-only",
            ExtractionMode::TreeSitterOnly => "tree-sitter-only",
            ExtractionMode::TreeSitterWithFallback => "tree-sitter-fallback",
            ExtractionMode::TreeSitterWithEnrichment => "tree-sitter-enrichment",
        }
    }

    /// The mode in force: a mode set for the process wins; otherwise the mode the
    /// `ACI_EXTRACTION_MODE` setting names, as `from_name` reads it.
    pub fn current(set_mode: Option<ExtractionMode>, setting: Option<&str>) -> (r: ExtractionMode)
        ensures
            r == match set_mode {
                Some(m) => m,
                None => spec_mode_from_name(match setting { Some(n) => Some(n@), None => None }),
            },
    {
        match set_mode {
            Some(m) => m,
            None => ExtractionMode::from_name(setting),
        }
    }

    /// The mode a setting names: `scanner-only`, `tree-sitter-only` or
    /// `tree-sitter-enrichment`; anything else, or no setting, is tree-sitter
    /// with the scanner as fallback.
    pub fn from_name(name: Option<&str>) -> (r: ExtractionMode)
        ensures
            r == spec_mode_from_name(match name { Some(n) => Some(n@), None => None }),
    {
        match name {
            Some(n) => if same_chars(n, "scanner-only") {
                ExtractionMode::ScannerOnly
            } else if same_chars(n, "tree-sitter-only") {
                ExtractionMode::TreeSitterOnly
            } else if same_chars(n, "tree-sitter-enrichment") {
                ExtractionMode::TreeSitterWithEnrichment
            } else {
                ExtractionMode::TreeSitterWithFallback
            },
            None => ExtractionMode::TreeSitterWithFallback,
        }
    }
}

/// The mode a setting names, tree-sitter with fallback by default.
pub open spec fn spec_mode_from_name(name: Option<Seq<char>>) -> ExtractionMode {
    match name {
        Some(n) => if n == "scanner-only"@ {
            ExtractionMode::ScannerOnly
        } else if n == "tree-sitter-only"@ {
            ExtractionMode::TreeSitterOnly
        } else if n == "tree-sitter-enrichment"@ {
            ExtractionMode::TreeSitterWithEnrichment
        } else {
            ExtractionMode::TreeSitterWithFallback
        },
        None => ExtractionMode::TreeSitterWithFallback,
    }
}

pub const DEFAULT_MAX_FILE_BYTES: usize = 2 * 1024 * 1024;

pub const DEFAULT_MAX_QUERY_CAPTURES: usize = 100_000;

pub const DEFAULT_PARSE_TIMEOUT_MICROS: u64 = 250_000;

pub const DEFAULT_QUERY_TIMEOUT_MICROS: u64 = 250_000;

/// How a file is extracted: the guardrails of its parse.
#[derive(Clone, Copy, Debug, PartialEq, Eq, Structural)]
pub struct ExtractionOptions {
    pub parse_limits: ParseLimits,
}

impl Default for ExtractionOptions {
    fn default() -> (r: Self)
        ensures
            r.parse_limits.max_file_bytes == DEFAULT_MAX_FILE_BYTES,
            r.parse_limits.max_query_captures == DEFAULT_MAX_QUERY_CAPTURES,
            r.parse_limits.parse_timeout_micros == DEFAULT_PARSE_TIMEOUT_MICROS,
            r.parse_limits.query_timeout_micros == DEFAULT_QUERY_TIMEOUT_MICROS,
    {
        ExtractionOptions { parse_limits: ParseLimits::default() }
    }
}

/// Guardrails for one parse.
#[derive(Clone, Copy, Debug, PartialEq, Eq, Structural)]
pub struct ParseLimits {
    pub max_file_bytes: usize,
    pub max_query_captures: usize,
    pub parse_timeout_micros: u64,
    pub query_timeout_micros: u64,
}

impl Default for ParseLimits {
    fn default() -> (r: Self)
        ensures
            r.max_file_bytes == DEFAULT_MAX_FILE_BYTES,
            r.max_query_captures == DEFAULT_MAX_QUERY_CAPTURES,
            r.parse_timeout_micros == DEFAULT_PARSE_TIMEOUT_MICROS,
            r.query_timeout_micros == DEFAULT_QUERY_TIMEOUT_MICROS,
    {
        ParseLimits {
            max_file_bytes: DEFAULT_MAX_FILE_BYTES,
            max_query_captures: DEFAULT_MAX_QUERY_CAPTURES,
            parse_timeout_micros: DEFAULT_PARSE_TIMEOUT_MICROS,
            query_timeout_micros: DEFAULT_QUERY_TIMEOUT_MICROS,
        }
    }
}

/// Why a file was not parsed.
#[derive(Debug)]
pub enum ParseSkip {
    TooLarge { bytes: usize, limit: usize },
    Timeout,
    Parser(String),
}

/// A parsed tree with its syntax diagnostics and the time the parse took.
#[derive(Debug)]
pub struct ParseReport {
    pub tree: SyntaxTree,
    pub diagnostics: Vec<Diagnostic>,
    pub parse_time_micros: u64,
}

/// The first `n` characters of `s`, or all of them when there are fewer.
pub open spec fn take_at_most(s: Seq<char>, n: int) -> Seq<char> {
    if s.len() <= n {
        s
    } else {
        s.take(n)
    }
}

/// What a syntax error is reported near: the node's trimmed text, at most forty
/// characters of it, or its kind when the text is empty or unavailable.
pub open spec fn snippet_text(n: SyntaxNodeView, source: Seq<char>) -> Seq<char> {
    match byte_slice(source, n.start_byte as int, n.end_byte as int) {
        Some(x) => if crate::text::trim(x).len() > 0 {
            take_at_most(crate::text::trim(x), 40)
        } else {
            n.kind
        },
        None => n.kind,
    }
}

pub open spec fn error_label(n: SyntaxNodeView, source: Seq<char>) -> Seq<char> {
    if n.missing {
        "missing "@ + n.kind
    } else {
        "syntax error near "@ + snippet_text(n, source)
    }
}

/// The diagnostic for an error or missing node.
pub open spec fn error_diagnostic(n: SyntaxNodeView, source: Seq<char>, file: Seq<char>) -> DiagnosticView {
    DiagnosticView {
        severity: Severity::Warning,
        message: error_label(n, source),
        file_id: Some(file),
        span: Some(spec_node_span(n)),
    }
}

/// Whether a node is, or holds, a syntax error.
pub open spec fn flagged(n: SyntaxNodeView) -> bool {
    n.has_error || n.error || n.missing
}

pub open spec fn own_error(t: Seq<SyntaxNodeView>, i: int, source: Seq<char>, file: Seq<char>) -> Seq<DiagnosticView> {
    if t[i].error || t[i].missing {
        seq![error_diagnostic(t[i], source, file)]
    } else {
        Seq::empty()
    }
}

/// The syntax errors found under the children `k..` of node `i`, visiting only
/// children that are or hold errors, depth first.
pub open spec fn child_errors(t: Seq<SyntaxNodeView>, i: int, k: int, source: Seq<char>, file: Seq<char>) -> Seq<DiagnosticView>
    decreases t.len() - i, t[i].child_count - k,
{
    if !(0 <= i < t.len()) || !children_follow(t, i) || !(0 <= k < t[i].child_count) {
        Seq::empty()
    } else {
        let c = t[i].first_child + k;
        let here = if flagged(t[c]) {
            own_error(t, c, source, file) + child_errors(t, c, 0, source, file)
        } else {
            Seq::empty()
        };
        here + child_errors(t, i, k + 1, source, file)
    }
}

/// The syntax diagnostics of a parsed tree: one per error or missing node, or a
/// single diagnostic for the whole file when the root reports an error that no
/// node shows.
pub open spec fn spec_parse_diagnostics(t: Seq<SyntaxNodeView>, source: Seq<char>, file: Seq<char>) -> Seq<DiagnosticView> {
    if !t[0].has_error {
        Seq::empty()
    } else {
        let found = own_error(t, 0, source, file) + child_errors(t, 0, 0, source, file);
        if found.len() == 0 {
            seq![DiagnosticView {
                severity: Severity::Warning,
                message: "tree-sitter parsed file with syntax errors"@,
                file_id: Some(file),
                span: Some(spec_node_span(t[0])),
            }]
        } else {
            found
        }
    }
}

fn snippet(n: &SyntaxNode, source: &[char]) -> (r: Vec<char>)
    requires
        encode_utf8(source@).len() <= usize::MAX,
    ensures
        r@ == snippet_text(n@, source@),
{
    match text_of_bytes(source, n.start_byte, n.end_byte) {
        Some(x) => {
            let t = crate::text::trimmed(&x);
            if t.len() > 0 {
                if t.len() <= 40 {
                    t
                } else {
                    let v = crate::text::slice(&t, 0, 40);
                    assert(v@ =~= t@.take(40));
                    v
                }
            } else {
                crate::text::chars_of(n.kind.as_str())
            }
        },
        None => crate::text::chars_of(n.kind.as_str()),
    }
}

fn error_diagnostic_of(n: &SyntaxNode, source: &[char], file_id: &FileId) -> (r: Diagnostic)
    requires
        encode_utf8(source@).len() <= usize::MAX,
    ensures
        r@ == error_diagnostic(n@, source@, file_id@),
{
    let label = if n.missing {
        let k = crate::text::chars_of(n.kind.as_str());
        crate::text::concat(&crate::text::chars_of("missing "), &k)
    } else {
        crate::text::concat(&crate::text::chars_of("syntax error near "), &snippet(n, source))
    };
    Diagnostic::warning(crate::text::string_from(&label), Some(file_id.clone()), Some(node_span(n)))
}

fn collect_error_nodes(tree: &SyntaxTree, i: usize, source: &[char], file_id: &FileId, out: &mut Vec<Diagnostic>)
    requires
        tree_wf(tree@),
        i < tree@.len(),
        encode_utf8(source@).len() <= usize::MAX,
    ensures
        crate::model::diagnostic_views(final(out)@) == crate::model::diagnostic_views(old(out)@)
            + own_error(tree@, i as int, source@, file_id@)
            + child_errors(tree@, i as int, 0, source@, file_id@),
    decreases tree@.len() - i,
{
    let ghost t = tree@;
    let ghost start = crate::model::diagnostic_views(out@);
    let n = &tree.nodes[i];
    assert(t[i as int] == n@);
    if n.error || n.missing {
        let d = error_diagnostic_of(n, source, file_id);
        let ghost before = out@;
        out.push(d);
        assert(crate::model::diagnostic_views(before.push(d)) =~= crate::model::diagnostic_views(before).push(d@));
    }
    let ghost after_own = crate::model::diagnostic_views(out@);
    assert(after_own =~= start + own_error(t, i as int, source@, file_id@));
    assert(children_follow(t, i as int));
    let first = n.first_child;
    let count = n.child_count;
    let total = tree.nodes.len();
    let mut k: usize = 0;
    while k < count
        invariant
            t == tree@,
            tree_wf(t),
            i < t.len(),
            encode_utf8(source@).len() <= usize::MAX,
            first == t[i as int].first_child,
            count == t[i as int].child_count,
            children_follow(t, i as int),
            t.len() == tree.nodes@.len(),
            total == t.len(),
            k <= count,
            crate::model::diagnostic_views(out@) + child_errors(t, i as int, k as int, source@, file_id@)
                == after_own + child_errors(t, i as int, 0, source@, file_id@),
        decreases count - k,
    {
        let c = first + k;
        let ghost here = if flagged(t[c as int]) {
            own_error(t, c as int, source@, file_id@) + child_errors(t, c as int, 0, source@, file_id@)
        } else {
            Seq::empty()
        };
        let ghost before = crate::model::diagnostic_views(out@);
        let child = &tree.nodes[c];
        assert(t[c as int] == child@);
        if child.has_error || child.error || child.missing {
            collect_error_nodes(tree, c, source, file_id, out);
        }
        assert(crate::model::diagnostic_views(out@) =~= before + here);
        assert(child_errors(t, i as int, k as int, source@, file_id@) == here + child_errors(t, i as int, k + 1, source@, file_id@));
        assert(before + here + child_errors(t, i as int, k + 1, source@, file_id@) =~= before + (here + child_errors(t, i as int, k + 1, source@, file_id@)));
        k += 1;
    }
    assert(child_errors(t, i as int, count as int, source@, file_id@) =~= Seq::<DiagnosticView>::empty());
    assert(crate::model::diagnostic_views(out@) =~= after_own + child_errors(t, i as int, 0, source@, file_id@));
}

/// The syntax diagnostics of a parsed tree.
pub fn parse_diagnostics(tree: &SyntaxTree, source: &[char], file_id: &FileId) -> (r: Vec<Diagnostic>)
    requires
        tree_wf(tree@),
        encode_utf8(source@).len() <= usize::MAX,
    ensures
        crate::model::diagnostic_views(r@) == spec_parse_diagnostics(tree@, source@, file_id@),
{
    let root = &tree.nodes[0];
    assert(tree@[0] == root@);
    let mut out: Vec<Diagnostic> = Vec::new();
    if !root.has_error {
        assert(crate::model::diagnostic_views(out@) =~= Seq::<DiagnosticView>::empty());
        return out;
    }
    collect_error_nodes(tree, 0, source, file_id, &mut out);
    assert(crate::model::diagnostic_views(Seq::<Diagnostic>::empty()) =~= Seq::<DiagnosticView>::empty());
    if out.len() == 0 {
        let d = Diagnostic::warning(
            String::from_str("tree-sitter parsed file with syntax errors"),
            Some(file_id.clone()),
            Some(node_span(root)),
        );
        out.push(d);
        assert(crate::model::diagnostic_views(out@) =~= seq![d@]);
    }
    out
}

/// Parses source text with one grammar.
pub struct ParserPool {
    pub grammar: GrammarId,
}

impl ParserPool {
    pub fn new(grammar: GrammarId) -> (r: Self)
        ensures
            r.grammar == grammar,
    {
        ParserPool { grammar }
    }

    /// Parses `source` within `limits`: too large a source is skipped before any
    /// parse; a parse that ran out of time (only possible with a time limit), or a
    /// grammar the parser refused, is skipped; otherwise the tree is the pool's grammar's parse of `source`, with
    /// its syntax diagnostics.
    pub fn parse(&self, source: &str, file_id: &FileId, limits: ParseLimits) -> (r: Result<ParseReport, ParseSkip>)
        ensures
            match r {
                Ok(report) => {
                    &&& encode_utf8(source@).len() <= limits.max_file_bytes
                    &&& tree_wf(report.tree@)
                    &&& represents(report.tree@, parse_tree(self.grammar, source@))
                    &&& crate::model::diagnostic_views(report.diagnostics@) == spec_parse_diagnostics(report.tree@, source@, file_id@)
                },
                Err(ParseSkip::TooLarge { bytes, limit }) => {
                    &&& encode_utf8(source@).len() > limits.max_file_bytes
                    &&& bytes == encode_utf8(source@).len()
                    &&& limit == limits.max_file_bytes
                },
                Err(ParseSkip::Timeout) => {
                    &&& encode_utf8(source@).len() <= limits.max_file_bytes
                    &&& limits.parse_timeout_micros != 0
                },
                Err(ParseSkip::Parser(_)) => encode_utf8(source@).len() <= limits.max_file_bytes,
            },
    {
        let bytes = source.as_bytes().len();
        if bytes > limits.max_file_bytes {
            return Err(ParseSkip::TooLarge { bytes, limit: limits.max_file_bytes });
        }
        let started = instant_now();
        let parsed = ts_parse(self.grammar, source, limits.parse_timeout_micros);
        let elapsed = instant_elapsed(&started);
        let micros = duration_micros(&elapsed);
        match parsed {
            Ok(Some(root)) => {
                let syntax = syntax_tree_of(&root);
                let chars = crate::text::chars_of(source);
                let diagnostics = parse_diagnostics(&syntax, &chars, file_id);
                Ok(ParseReport { tree: syntax, diagnostics, parse_time_micros: micros as u64 })
            },
            Ok(None) => Err(ParseSkip::Timeout),
            Err(message) => Err(ParseSkip::Parser(message)),
        }
    }
}

/// A tree-sitter query file of a language.
#[derive(Debug)]
pub struct QuerySource {
    pub name: String,
    pub path: String,
    pub source: String,
}

impl QuerySource {
    pub fn new(name: &str, path: &str, source: &str) -> (r: Self)
        ensures
            r.name@ == name@,
            r.path@ == path@,
            r.source@ == source@,
    {
        QuerySource {
            name: String::from_str(name),
            path: String::from_str(path),
            source: String::from_str(source),
        }
    }
}

/// `a` joined with the relative path `b`, as `Path::join` joins on Unix.
pub open spec fn path_join(a: Seq<char>, b: Seq<char>) -> Seq<char> {
    if a.len() == 0 {
        b
    } else if a.last() == '/' {
        a + b
    } else {
        a + seq!['/'] + b
    }
}

pub open spec fn query_path(dir: Seq<char>, name: Seq<char>) -> Seq<char> {
    path_join(path_join(dir, "queries"@), name)
}

/// The names and paths of the query files a language directory declares.
pub open spec fn spec_query_sources(dir: Seq<char>) -> Seq<(Seq<char>, Seq<char>)> {
    seq![
        ("symbols.scm"@, query_path(dir, "symbols.scm"@)),
        ("imports.scm"@, query_path(dir, "imports.scm"@)),
        ("calls.scm"@, query_path(dir, "calls.scm"@)),
    ]
}

pub open spec fn query_source_views(v: Seq<QuerySource>) -> Seq<(Seq<char>, Seq<char>)> {
    v.map_values(|q: QuerySource| (q.name@, q.path@))
}

fn joined(a: &[char], b: &[char]) -> (r: Vec<char>)
    ensures
        r@ == path_join(a@, b@),
{
    if a.len() == 0 {
        crate::text::slice(b, 0, b.len())
    } else if a[a.len() - 1] == '/' {
        crate::text::concat(a, b)
    } else {
        let mut with_slash = crate::text::slice(a, 0, a.len());
        with_slash.push('/');
        crate::text::concat(&with_slash, b)
    }
}

fn query_source_at(dir: &[char], name: &str) -> (r: QuerySource)
    ensures
        r.name@ == name@,
        r.path@ == query_path(dir@, name@),
        r.source@ == Seq::<char>::empty(),
{
    let q = joined(dir, &crate::text::chars_of("queries"));
    let p = joined(&q, &crate::text::chars_of(name));
    QuerySource { name: String::from_str(name), path: crate::text::string_from(&p), source: String::new() }
}

/// The standard query files of a language directory: `symbols.scm`,
/// `imports.scm` and `calls.scm` under its `queries` directory, with no text.
pub fn query_sources_for(language_dir: &str) -> (r: Vec<QuerySource>)
    ensures
        query_source_views(r@) == spec_query_sources(language_dir@),
        forall|i: int| 0 <= i < r@.len() ==> r@[i].source@.len() == 0,
{
    let dir = crate::text::chars_of(language_dir);
    let mut v: Vec<QuerySource> = Vec::new();
    v.push(query_source_at(&dir, "symbols.scm"));
    v.push(query_source_at(&dir, "imports.scm"));
    v.push(query_source_at(&dir, "calls.scm"));
    assert(query_source_views(v@) =~= spec_query_sources(language_dir@));
    v
}

/// The first child of node `i`, from the `k`-th on, that stands under the field `f`.
pub open spec fn field_child_from(t: Seq<SyntaxNodeView>, i: int, f: Seq<char>, k: int) -> Option<int>
    decreases t[i].child_count - k,
{
    if !(0 <= i < t.len()) || !children_follow(t, i) || !(0 <= k < t[i].child_count) {
        None
    } else if t[t[i].first_child + k].field == Some(f) {
        Some(t[i].first_child + k)
    } else {
        field_child_from(t, i, f, k + 1)
    }
}

/// A child found under a field lies after its parent and inside the tree.
pub proof fn lemma_field_child_from_range(t: Seq<SyntaxNodeView>, i: int, f: Seq<char>, k: int)
    ensures
        field_child_from(t, i, f, k) matches Some(c) ==> i < c < t.len(),
    decreases t[i].child_count - k,
{
    if 0 <= i < t.len() && children_follow(t, i) && 0 <= k < t[i].child_count {
        if t[t[i].first_child + k].field != Some(f) {
            lemma_field_child_from_range(t, i, f, k + 1);
        }
    }
}

/// The first child of node `i` that stands under the field `f`.
pub open spec fn field_child(t: Seq<SyntaxNodeView>, i: int, f: Seq<char>) -> Option<int> {
    field_child_from(t, i, f, 0)
}

/// The source text a node covers.
pub open spec fn node_text_spec(t: Seq<SyntaxNodeView>, i: int, source: Seq<char>) -> Option<Seq<char>> {
    byte_slice(source, t[i].start_byte as int, t[i].end_byte as int)
}

/// Whether `a` holds exactly the characters of `b`.
pub fn same_chars(a: &str, b: &str) -> (r: bool)
    ensures
        r == (a@ == b@),
{
    let x = crate::text::chars_of(a);
    let y = crate::text::chars_of(b);
    crate::model::same_text(&x, &y)
}

/// Whether node `n` is of the kind `k`.
pub fn kind_is(n: &SyntaxNode, k: &str) -> (r: bool)
    ensures
        r == (n@.kind == k@),
{
    same_chars(n.kind.as_str(), k)
}

/// The first child of node `i` under the field `field`.
pub fn child_by_field_name(tree: &SyntaxTree, i: usize, field: &str) -> (r: Option<usize>)
    requires
        tree_wf(tree@),
        i < tree@.len(),
    ensures
        match r {
            Some(c) => field_child(tree@, i as int, field@) == Some(c as int) && i < c < tree@.len(),
            None => field_child(tree@, i as int, field@) is None,
        },
{
    let ghost t = tree@;
    let n = &tree.nodes[i];
    assert(t[i as int] == n@);
    assert(children_follow(t, i as int));
    let first = n.first_child;
    let count = n.child_count;
    let total = tree.nodes.len();
    let mut k: usize = 0;
    while k < count
        invariant
            t == tree@,
            i < t.len(),
            total == t.len(),
            children_follow(t, i as int),
            first == t[i as int].first_child,
            count == t[i as int].child_count,
            k <= count,
            field_child_from(t, i as int, field@, k as int) == field_child(t, i as int, field@),
        decreases count - k,
    {
        let c = first + k;
        let child = &tree.nodes[c];
        assert(t[c as int] == child@);
        let hit = match &child.field {
            Some(f) => same_chars(f.as_str(), field),
            None => false,
        };
        if hit {
            return Some(c);
        }
        k += 1;
    }
    None
}

/// The source text node `i` covers.
pub fn node_text(tree: &SyntaxTree, i: usize, source: &[char]) -> (r: Option<Vec<char>>)
    requires
        i < tree@.len(),
        encode_utf8(source@).len() <= usize::MAX,
    ensures
        match r {
            Some(v) => node_text_spec(tree@, i as int, source@) == Some(v@),
            None => node_text_spec(tree@, i as int, source@) is None,
        },
{
    let n = &tree.nodes[i];
    assert(tree@[i as int] == n@);
    text_of_bytes(source, n.start_byte, n.end_byte)
}

/// The message of a skipped parse, naming the language.
pub open spec fn skip_message_of(lang: Seq<char>, kind: int, bytes: nat, limit: nat, error: Seq<char>) -> Seq<char> {
    if kind == 0 {
        "tree-sitter skipped large "@ + lang + " file: "@ + crate::text::decimal(bytes) + " bytes > "@
            + crate::text::decimal(limit)
    } else if kind == 1 {
        "tree-sitter "@ + lang + " parse timed out"@
    } else {
        "tree-sitter "@ + lang + " parser failed: "@ + error
    }
}

/// The message for a skipped parse of a `lang` file.
pub open spec fn skip_message(skip: ParseSkip, lang: Seq<char>) -> Seq<char> {
    match skip {
        ParseSkip::TooLarge { bytes, limit } => skip_message_of(lang, 0, bytes as nat, limit as nat, Seq::empty()),
        ParseSkip::Timeout => skip_message_of(lang, 1, 0, 0, Seq::empty()),
        ParseSkip::Parser(e) => skip_message_of(lang, 2, 0, 0, e@),
    }
}

/// The warning a skipped parse leaves on the file.
pub open spec fn skip_diagnostic_view(message: Seq<char>, file: Seq<char>) -> DiagnosticView {
    DiagnosticView { severity: Severity::Warning, message, file_id: Some(file), span: None }
}

/// `p` with one more diagnostic.
pub open spec fn with_diagnostic(p: crate::model::PartitionView, d: DiagnosticView) -> crate::model::PartitionView {
    crate::model::PartitionView { diagnostics: p.diagnostics.push(d), ..p }
}

/// The partition of `file` with nothing in it.
pub open spec fn empty_partition_view(file: crate::model::SourceFile) -> crate::model::PartitionView {
    crate::model::PartitionView {
        file_id: file.file_id@,
        path: file.path@,
        language: file.language,
        fingerprint: file.fingerprint@,
        nodes: Seq::empty(),
        edges: Seq::empty(),
        diagnostics: Seq::empty(),
        metrics: crate::model::PartitionMetrics::zero_spec(),
    }
}

/// The warning for a skipped parse of a `language` file.
pub fn skip_diagnostic(skip: ParseSkip, file_id: &FileId, language: &str) -> (r: Diagnostic)
    ensures
        r@ == skip_diagnostic_view(skip_message(skip, language@), file_id@),
{
    let lang = crate::text::chars_of(language);
    let message = match skip {
        ParseSkip::TooLarge { bytes, limit } => {
            let a = crate::text::concat(&crate::text::chars_of("tree-sitter skipped large "), &lang);
            let b = crate::text::concat(&a, &crate::text::chars_of(" file: "));
            let c = crate::text::concat(&b, &crate::text::decimal_of(bytes as u64));
            let d = crate::text::concat(&c, &crate::text::chars_of(" bytes > "));
            crate::text::concat(&d, &crate::text::decimal_of(limit as u64))
        },
        ParseSkip::Timeout => {
            let a = crate::text::concat(&crate::text::chars_of("tree-sitter "), &lang);
            crate::text::concat(&a, &crate::text::chars_of(" parse timed out"))
        },
        ParseSkip::Parser(error) => {
            let a = crate::text::concat(&crate::text::chars_of("tree-sitter "), &lang);
            let b = crate::text::concat(&a, &crate::text::chars_of(" parser failed: "));
            crate::text::concat(&b, &crate::text::chars_of(error.as_str()))
        },
    };
    Diagnostic::warning(crate::text::string_from(&message), Some(file_id.clone()), None)
}

/// The partition with the warning for a skipped parse added.
pub fn partition_with_skip(mut partition: crate::model::GraphPartition, skip: ParseSkip, file: &crate::model::SourceFile, language: &str) -> (r: crate::model::GraphPartition)
    ensures
        r@ == with_diagnostic(partition@, skip_diagnostic_view(skip_message(skip, language@), file.file_id@)),
{
    let d = skip_diagnostic(skip, &file.file_id, language);
    let ghost before = partition.diagnostics@;
    partition.diagnostics.push(d);
    assert(crate::model::diagnostic_views(before.push(d)) =~= crate::model::diagnostic_views(before).push(d@));
    partition
}


/// The message `tree_sitter::Query::new` refuses the query `source` with in the
/// grammar `grammar`, or nothing when it compiles the query.
pub uninterp spec fn query_error(grammar: GrammarId, source: Seq<char>) -> Option<Seq<char>>;

/// `tree_sitter::Query::new`: compiles the query `source` for the grammar
/// `grammar`, its error given as the `QueryError`'s `Display` text. Whether and
/// how a source fails is a function of the grammar and the source, named
/// `query_error`.
#[verifier::external_body]
pub fn compile_query(grammar: GrammarId, source: &str) -> (r: Result<tree_sitter::Query, String>)
    ensures
        match r {
            Ok(_) => query_error(grammar, source@) is None,
            Err(e) => query_error(grammar, source@) == Some(e@),
        },
{
    match tree_sitter::Query::new(&grammar_of(grammar), source) {
        Ok(query) => Ok(query),
        Err(error) => Err(error.to_string()),
    }
}

/// Whether every source from the first up to (not including) `n` compiles.
pub open spec fn sources_compile(grammar: GrammarId, sources: Seq<QuerySource>, n: int) -> bool {
    forall|j: int| 0 <= j < n ==> #[trigger] query_error(grammar, sources[j].source@) is None
}

/// Compiles each query source for `grammar`, in order. The first source that
/// does not compile fails the whole, with its path before the compiler's message;
/// when all compile, there is one query per source.
pub fn validate_queries(grammar: GrammarId, sources: &[QuerySource]) -> (r: Result<Vec<tree_sitter::Query>, String>)
    ensures
        match r {
            Ok(v) => v@.len() == sources@.len() && sources_compile(grammar, sources@, sources@.len() as int),
            Err(e) => exists|i: int| {
                &&& 0 <= i < sources@.len()
                &&& sources_compile(grammar, sources@, i)
                &&& #[trigger] query_error(grammar, sources@[i].source@) matches Some(m)
                &&& e@ == sources@[i].path@ + ": "@ + m
            },
        },
{
    let mut out: Vec<tree_sitter::Query> = Vec::new();
    let mut i: usize = 0;
    while i < sources.len()
        invariant
            i <= sources@.len(),
            out@.len() == i,
            sources_compile(grammar, sources@, i as int),
        decreases sources@.len() - i,
    {
        match compile_query(grammar, sources[i].source.as_str()) {
            Ok(query) => out.push(query),
            Err(error) => {
                let head = crate::text::concat(&crate::text::chars_of(sources[i].path.as_str()), &crate::text::chars_of(": "));
                let message = crate::text::string_from(&crate::text::concat(&head, &crate::text::chars_of(error.as_str())));
                assert(message@ == sources@[i as int].path@ + ": "@ + error@);
                assert(query_error(grammar, sources@[i as int].source@) == Some(error@));
                return Err(message);
            },
        }
        i += 1;
    }
    Ok(out)
}


#[verifier::external_type_specification]
#[verifier::external_body]
pub struct ExTsQueryCursor(tree_sitter::QueryCursor);

/// `tree_sitter::QueryCursor::new`: a fresh cursor; nothing is claimed of it.
#[verifier::external_body]
fn ts_cursor_new() -> (r: tree_sitter::QueryCursor) {
    tree_sitter::QueryCursor::new()
}

/// `tree_sitter::QueryCursor::set_match_limit`: bounds the matches in progress.
#[verifier::external_body]
fn ts_cursor_set_match_limit(cursor: &mut tree_sitter::QueryCursor, limit: u32) {
    cursor.set_match_limit(limit)
}

/// `tree_sitter::QueryCursor::set_timeout_micros`: bounds the time a query runs.
#[verifier::external_body]
#[allow(deprecated)]
fn ts_cursor_set_timeout(cursor: &mut tree_sitter::QueryCursor, micros: u64) {
    cursor.set_timeout_micros(micros)
}

/// Runs `query` over the tree under `root` with `tree_sitter::QueryCursor::captures`
/// and counts its captures with `StreamingIterator::take` and `count`, stopping after
/// `cap`: the count is at most `cap`. How many captures there are, and whether the
/// cursor's time ran out first, is left unsaid.
#[verifier::external_body]
fn ts_count_captures(cursor: &mut tree_sitter::QueryCursor, query: &tree_sitter::Query, root: &tree_sitter::Node, source: &str, cap: usize) -> (r: usize)
    ensures
        r <= cap,
{
    let captures = cursor.captures(query, *root, source.as_bytes());
    tree_sitter::StreamingIterator::count(tree_sitter::StreamingIterator::take(captures, cap))
}

/// `tree_sitter::QueryCursor::did_exceed_match_limit`: whether the last run went
/// past the match limit; nothing is claimed of it.
#[verifier::external_body]
fn ts_did_exceed_match_limit(cursor: &tree_sitter::QueryCursor) -> (r: bool) {
    cursor.did_exceed_match_limit()
}

/// The error for a query with more captures than `limit`.
pub open spec fn capture_limit_message(count: nat, limit: nat) -> Seq<char> {
    "tree-sitter query capture limit exceeded: "@ + crate::text::decimal(count) + " > "@ + crate::text::decimal(limit)
}

/// What a run of a query comes to, given `seen` captures counted up to one past
/// `limit` and whether the cursor went past its match limit: too many captures
/// fail with their count, a match limit overrun fails, and otherwise the count
/// stands.
pub fn capture_count_outcome(seen: usize, exceeded_match_limit: bool, limit: usize) -> (r: Result<usize, String>)
    ensures
        seen > limit ==> (r matches Err(e) && e@ == capture_limit_message(seen as nat, limit as nat)),
        seen <= limit && exceeded_match_limit ==> (r matches Err(e) && e@ == "tree-sitter query match limit exceeded"@),
        seen <= limit && !exceeded_match_limit ==> r == Ok::<usize, String>(seen),
{
    if seen > limit {
        let head = crate::text::concat(&crate::text::chars_of("tree-sitter query capture limit exceeded: "), &crate::text::decimal_of(seen as u64));
        let tail = crate::text::concat(&crate::text::chars_of(" > "), &crate::text::decimal_of(limit as u64));
        Err(crate::text::string_from(&crate::text::concat(&head, &tail)))
    } else if exceeded_match_limit {
        Err(String::from_str("tree-sitter query match limit exceeded"))
    } else {
        Ok(seen)
    }
}

/// The cursor's match limit and the most captures worth counting under `limits`:
/// the capture limit as a `u32` (cut to its low bits), and one capture past the
/// capture limit (the limit itself when it is `usize::MAX`).
pub fn capture_budget(limits: ParseLimits) -> (r: (u32, usize))
    ensures
        r.0 == limits.max_query_captures as u32,
        r.1 == if limits.max_query_captures < usize::MAX { limits.max_query_captures + 1 } else { limits.max_query_captures as int },
{
    #[verifier::truncate]
    let match_limit = limits.max_query_captures as u32;
    let cap = if limits.max_query_captures < usize::MAX { limits.max_query_captures + 1 } else { limits.max_query_captures };
    (match_limit, cap)
}

/// Counts the captures of `query` over the tree under `root`, with the cursor's
/// match limit and the most captures counted as `capture_budget` gives them, and
/// its time bounded by `limits.query_timeout_micros`. More captures than the limit fail with the count
/// one past it; a match limit overrun fails; otherwise the count, at most the
/// limit, comes back.
pub fn count_query_captures(query: &tree_sitter::Query, root: &tree_sitter::Node, source: &str, limits: ParseLimits) -> (r: Result<usize, String>)
    ensures
        match r {
            Ok(n) => n <= limits.max_query_captures,
            Err(e) => e@ == "tree-sitter query match limit exceeded"@
                || e@ == capture_limit_message((limits.max_query_captures + 1) as nat, limits.max_query_captures as nat),
        },
{
    let (match_limit, cap) = capture_budget(limits);
    let mut cursor = ts_cursor_new();
    ts_cursor_set_match_limit(&mut cursor, match_limit);
    ts_cursor_set_timeout(&mut cursor, limits.query_timeout_micros);
    let seen = ts_count_captures(&mut cursor, query, root, source, cap);
    let exceeded = ts_did_exceed_match_limit(&cursor);
    capture_count_outcome(seen, exceeded, limits.max_query_captures)
}

} // verus!
