use crate::helpers::{
    spec_add_import, spec_add_link, spec_add_symbol, spec_new_builder, symbol_id, BuilderView,
    PartitionBuilder,
};
use crate::model::{EdgeKind, GraphPartition, PartitionView, SourceFile, SymbolKind};
use crate::quality::{Confidence, FactProvenance};
use crate::syntax::{
    children_follow, field_child, lemma_field_child_from_range, node_text_spec, spec_node_span,
    tree_wf, SyntaxNodeView,
};
use crate::rust_lang::as_ints;
use crate::syntax::{child_by_field_name, kind_is, node_span, node_text, same_chars, SyntaxNode, SyntaxTree};
use crate::text::{
    chars_of, concat, or_opt, starts_with, string_from, strip_prefix_str, trim, trim_char,
    trim_end_char, trimmed, trimmed_char, trimmed_end_char,
};
use vstd::utf8::encode_utf8;
use vstd::prelude::*;

verus! {

/// How a brace language's syntax tree is read: its name, how scopes are joined,
/// the module name when the file has no stem, and the node kinds of each fact.
pub struct BraceLanguage {
    pub name: String,
    pub scope_separator: String,
    pub module_fallback: String,
    pub imports: Vec<String>,
    pub functions: Vec<String>,
    pub methods: Vec<String>,
    pub classes: Vec<String>,
    pub interfaces: Vec<String>,
    pub enums: Vec<String>,
    pub type_aliases: Vec<String>,
    pub variables: Vec<String>,
    pub scopes: Vec<String>,
    pub calls: Vec<String>,
}

/// What a brace language's configuration holds, as plain values.
pub struct BraceView {
    pub name: Seq<char>,
    pub separator: Seq<char>,
    pub module_fallback: Seq<char>,
    pub imports: Seq<Seq<char>>,
    pub functions: Seq<Seq<char>>,
    pub methods: Seq<Seq<char>>,
    pub classes: Seq<Seq<char>>,
    pub interfaces: Seq<Seq<char>>,
    pub enums: Seq<Seq<char>>,
    pub type_aliases: Seq<Seq<char>>,
    pub variables: Seq<Seq<char>>,
    pub scopes: Seq<Seq<char>>,
    pub calls: Seq<Seq<char>>,
}

pub open spec fn string_seq(v: Seq<String>) -> Seq<Seq<char>> {
    v.map_values(|s: String| s@)
}

impl View for BraceLanguage {
    type V = BraceView;

    open spec fn view(&self) -> BraceView {
        BraceView {
            name: self.name@,
            separator: self.scope_separator@,
            module_fallback: self.module_fallback@,
            imports: string_seq(self.imports@),
            functions: string_seq(self.functions@),
            methods: string_seq(self.methods@),
            classes: string_seq(self.classes@),
            interfaces: string_seq(self.interfaces@),
            enums: string_seq(self.enums@),
            type_aliases: string_seq(self.type_aliases@),
            variables: string_seq(self.variables@),
            scopes: string_seq(self.scopes@),
            calls: string_seq(self.calls@),
        }
    }
}

/// A scope of the brace-language visitor.
pub struct BraceScope {
    pub node: crate::ids::NodeId,
    pub qualified_name: String,
    pub kind: SymbolKind,
}

/// What a scope holds, as plain values.
pub struct BraceScopeView {
    pub node: Seq<char>,
    pub qualified: Seq<char>,
    pub kind: SymbolKind,
}

impl View for BraceScope {
    type V = BraceScopeView;

    open spec fn view(&self) -> BraceScopeView {
        BraceScopeView { node: self.node@, qualified: self.qualified_name@, kind: self.kind }
    }
}

pub open spec fn brace_scope_views(s: Seq<BraceScope>) -> Seq<BraceScopeView> {
    s.map_values(|x: BraceScope| x@)
}

/// `name` under `parent`, joined by the language's separator.
pub open spec fn qualify_with(parent: Seq<char>, name: Seq<char>, sep: Seq<char>) -> Seq<char> {
    if parent.len() == 0 {
        name
    } else {
        parent + sep + name
    }
}

pub open spec fn is_brace_identifier_kind(k: Seq<char>) -> bool {
    k == "identifier"@ || k == "field_identifier"@ || k == "type_identifier"@ || k == "package_identifier"@
}

/// The identifier-like nodes at or under node `i`, in order, through named children.
pub open spec fn brace_idents(t: Seq<SyntaxNodeView>, i: int) -> Seq<int>
    decreases t.len() - i, 1int, 0int,
{
    if !(0 <= i < t.len()) {
        Seq::empty()
    } else if is_brace_identifier_kind(t[i].kind) {
        seq![i]
    } else {
        brace_idents_from(t, i, 0)
    }
}

pub open spec fn brace_idents_from(t: Seq<SyntaxNodeView>, i: int, k: int) -> Seq<int>
    decreases t.len() - i, 0int, t[i].child_count - k,
{
    if !(0 <= i < t.len()) || !children_follow(t, i) || !(0 <= k < t[i].child_count) {
        Seq::empty()
    } else {
        let c = t[i].first_child + k;
        (if t[c].named {
            brace_idents(t, c)
        } else {
            Seq::empty()
        }) + brace_idents_from(t, i, k + 1)
    }
}

/// The text of the first node of `ids` that has one.
pub open spec fn first_text(t: Seq<SyntaxNodeView>, ids: Seq<int>, src: Seq<char>) -> Option<Seq<char>>
    decreases ids.len(),
{
    if ids.len() == 0 {
        None
    } else {
        match node_text_spec(t, ids[0], src) {
            Some(x) => Some(x),
            None => first_text(t, ids.drop_first(), src),
        }
    }
}

/// The text of the child of `i` under `field`.
pub open spec fn brace_field_text(t: Seq<SyntaxNodeView>, i: int, field: Seq<char>, src: Seq<char>) -> Option<Seq<char>> {
    match field_child(t, i, field) {
        Some(c) => node_text_spec(t, c, src),
        None => None,
    }
}

/// A declaration's name: its `name` field, else its first identifier.
pub open spec fn brace_name_text(t: Seq<SyntaxNodeView>, i: int, src: Seq<char>) -> Option<Seq<char>> {
    or_opt(brace_field_text(t, i, "name"@, src), first_text(t, brace_idents(t, i), src))
}

pub open spec fn is_declarator_leaf(k: Seq<char>) -> bool {
    k == "identifier"@ || k == "field_identifier"@ || k == "scoped_identifier"@ || k == "qualified_identifier"@
}

/// The name deepest in a declarator: an identifier's text, else the first name
/// found under the fields `declarator`, `name`, `field`, `operator_name`, else
/// under the named children.
pub open spec fn deepest_declarator(t: Seq<SyntaxNodeView>, i: int, src: Seq<char>) -> Option<Seq<char>>
    decreases t.len() - i, 1int, 0int,
{
    if !(0 <= i < t.len()) || !children_follow(t, i) {
        None
    } else if is_declarator_leaf(t[i].kind) {
        node_text_spec(t, i, src)
    } else {
        proof {
            lemma_field_child_from_range(t, i, "declarator"@, 0);
            lemma_field_child_from_range(t, i, "name"@, 0);
            lemma_field_child_from_range(t, i, "field"@, 0);
            lemma_field_child_from_range(t, i, "operator_name"@, 0);
        }
        let a = match field_child(t, i, "declarator"@) {
            Some(c) => deepest_declarator(t, c, src),
            None => None,
        };
        let b = match field_child(t, i, "name"@) {
            Some(c) => deepest_declarator(t, c, src),
            None => None,
        };
        let c2 = match field_child(t, i, "field"@) {
            Some(c) => deepest_declarator(t, c, src),
            None => None,
        };
        let d = match field_child(t, i, "operator_name"@) {
            Some(c) => deepest_declarator(t, c, src),
            None => None,
        };
        or_opt(a, or_opt(b, or_opt(c2, or_opt(d, deepest_from(t, i, 0, src)))))
    }
}

pub open spec fn deepest_from(t: Seq<SyntaxNodeView>, i: int, k: int, src: Seq<char>) -> Option<Seq<char>>
    decreases t.len() - i, 0int, t[i].child_count - k,
{
    if !(0 <= i < t.len()) || !children_follow(t, i) || !(0 <= k < t[i].child_count) {
        None
    } else {
        let c = t[i].first_child + k;
        let here = if t[c].named {
            deepest_declarator(t, c, src)
        } else {
            None
        };
        or_opt(here, deepest_from(t, i, k + 1, src))
    }
}

/// A function's name: the deepest name of its declarator, else its name.
pub open spec fn brace_function_name(t: Seq<SyntaxNodeView>, i: int, src: Seq<char>) -> Option<Seq<char>> {
    or_opt(
        match field_child(t, i, "declarator"@) {
            Some(c) => deepest_declarator(t, c, src),
            None => None,
        },
        brace_name_text(t, i, src),
    )
}

/// The name a callee expression names.
pub open spec fn callable_leaf(t: Seq<SyntaxNodeView>, i: int, src: Seq<char>) -> Option<Seq<char>>
    decreases t.len() - i, 1int, 0int,
{
    if !(0 <= i < t.len()) || !children_follow(t, i) {
        None
    } else {
        let k = t[i].kind;
        if k == "identifier"@ || k == "field_identifier"@ || k == "method_invocation"@ || k == "selector"@ {
            node_text_spec(t, i, src)
        } else if k == "field_expression"@ || k == "member_expression"@ {
            brace_field_text(t, i, "field"@, src)
        } else if k == "scoped_identifier"@ || k == "qualified_identifier"@ {
            brace_field_text(t, i, "name"@, src)
        } else {
            callable_from(t, i, 0, src)
        }
    }
}

pub open spec fn callable_from(t: Seq<SyntaxNodeView>, i: int, k: int, src: Seq<char>) -> Option<Seq<char>>
    decreases t.len() - i, 0int, t[i].child_count - k,
{
    if !(0 <= i < t.len()) || !children_follow(t, i) || !(0 <= k < t[i].child_count) {
        None
    } else {
        let c = t[i].first_child + k;
        let here = if t[c].named {
            callable_leaf(t, c, src)
        } else {
            None
        };
        or_opt(here, callable_from(t, i, k + 1, src))
    }
}

pub open spec fn leaf_under(t: Seq<SyntaxNodeView>, i: int, field: Seq<char>, src: Seq<char>) -> Option<Seq<char>> {
    match field_child(t, i, field) {
        Some(c) => callable_leaf(t, c, src),
        None => None,
    }
}

/// The name a call goes to: found under its `function`, `name`, `method` or
/// `selector` field, else in the call itself.
pub open spec fn brace_call_name(t: Seq<SyntaxNodeView>, i: int, src: Seq<char>) -> Option<Seq<char>> {
    or_opt(leaf_under(t, i, "function"@, src), or_opt(leaf_under(t, i, "name"@, src),
    or_opt(leaf_under(t, i, "method"@, src), or_opt(leaf_under(t, i, "selector"@, src),
    callable_leaf(t, i, src)))))
}

/// Whether a word is a keyword that never names a variable.
pub open spec fn is_brace_keyword(v: Seq<char>) -> bool {
    v == "if"@ || v == "for"@ || v == "while"@ || v == "switch"@ || v == "return"@ || v == "class"@
        || v == "struct"@ || v == "enum"@ || v == "interface"@ || v == "public"@ || v == "private"@
        || v == "protected"@ || v == "static"@ || v == "const"@ || v == "var"@ || v == "let"@
        || v == "type"@
}

/// The first of `ids` whose text is not a keyword, with that text.
pub open spec fn first_variable(t: Seq<SyntaxNodeView>, ids: Seq<int>, src: Seq<char>) -> Option<(int, Seq<char>)>
    decreases ids.len(),
{
    if ids.len() == 0 {
        None
    } else {
        match node_text_spec(t, ids[0], src) {
            Some(x) => if !is_brace_keyword(x) {
                Some((ids[0], x))
            } else {
                first_variable(t, ids.drop_first(), src)
            },
            None => first_variable(t, ids.drop_first(), src),
        }
    }
}

/// What an import node imports: its text without the import keyword, `;`, quotes
/// and backquotes.
pub open spec fn import_specifier(text: Seq<char>) -> Seq<char> {
    let rest = if starts_with(text, "#include"@) {
        text.skip("#include"@.len() as int)
    } else if starts_with(text, "import static"@) {
        text.skip("import static"@.len() as int)
    } else if starts_with(text, "import"@) {
        text.skip("import"@.len() as int)
    } else if starts_with(text, "@import"@) {
        text.skip("@import"@.len() as int)
    } else {
        text
    };
    trim_char(trim_char(trim_end_char(trim(rest), ';'), '"'), '`')
}

/// The scope a node opens, with its kind, checking the kinds in order: named
/// scopes, functions, methods, classes, interfaces, enums.
pub open spec fn brace_scope_entry(t: Seq<SyntaxNodeView>, i: int, src: Seq<char>, cfg: BraceView) -> Option<(Seq<char>, SymbolKind)> {
    let k = t[i].kind;
    let name = brace_name_text(t, i, src);
    if cfg.scopes.contains(k) && name is Some {
        Some((name->0, SymbolKind::Module))
    } else if cfg.functions.contains(k) && brace_function_name(t, i, src) is Some {
        Some((brace_function_name(t, i, src)->0, SymbolKind::Function))
    } else if cfg.methods.contains(k) && name is Some {
        Some((name->0, SymbolKind::Method))
    } else if cfg.classes.contains(k) && name is Some {
        Some((name->0, SymbolKind::Class))
    } else if cfg.interfaces.contains(k) && name is Some {
        Some((name->0, SymbolKind::Interface))
    } else if cfg.enums.contains(k) && name is Some {
        Some((name->0, SymbolKind::Enum))
    } else {
        None
    }
}

/// What a node that opens no scope adds before its children are visited.
pub open spec fn brace_effect(t: Seq<SyntaxNodeView>, i: int, src: Seq<char>, cfg: BraceView, cur: BraceScopeView, b: BuilderView) -> BuilderView {
    let k = t[i].kind;
    let span = spec_node_span(t[i]);
    if cfg.imports.contains(k) {
        match node_text_spec(t, i, src) {
            Some(x) => if import_specifier(trim(x)).len() > 0 {
                spec_add_import(b, import_specifier(trim(x)), span)
            } else {
                b
            },
            None => b,
        }
    } else if cfg.type_aliases.contains(k) && brace_name_text(t, i, src) is Some {
        let name = brace_name_text(t, i, src)->0;
        spec_add_symbol(b, name, qualify_with(cur.qualified, name, cfg.separator), SymbolKind::TypeAlias, span)
    } else if cfg.variables.contains(k) {
        if cur.kind == SymbolKind::Function || cur.kind == SymbolKind::Method {
            b
        } else {
            match first_variable(t, brace_idents(t, i), src) {
                Some((id, name)) => spec_add_symbol(b, name, qualify_with(cur.qualified, name, cfg.separator), SymbolKind::Variable, spec_node_span(t[id])),
                None => b,
            }
        }
    } else if cfg.calls.contains(k) {
        match brace_call_name(t, i, src) {
            Some(name) => spec_add_link(b, EdgeKind::Calls, cur.node, name, span),
            None => b,
        }
    } else {
        b
    }
}

/// Whether the node is handled before scopes are looked for (imports).
pub open spec fn opens_scope(t: Seq<SyntaxNodeView>, i: int, src: Seq<char>, cfg: BraceView) -> bool {
    !cfg.imports.contains(t[i].kind) && brace_scope_entry(t, i, src, cfg) is Some
}

/// The builder after the brace-language visitor has walked node `i`.
pub open spec fn brace_visit(t: Seq<SyntaxNodeView>, i: int, src: Seq<char>, cfg: BraceView, sc: Seq<BraceScopeView>, b: BuilderView) -> BuilderView
    decreases t.len() - i, 1int, 0int,
{
    if !(0 <= i < t.len()) || !children_follow(t, i) || sc.len() == 0 {
        b
    } else {
        let cur = sc.last();
        let span = spec_node_span(t[i]);
        if opens_scope(t, i, src, cfg) {
            let (name, kind) = brace_scope_entry(t, i, src, cfg)->0;
            let actual = if kind == SymbolKind::Function && cur.kind == SymbolKind::Class {
                SymbolKind::Method
            } else {
                kind
            };
            let q = qualify_with(cur.qualified, name, cfg.separator);
            let s = BraceScopeView { node: symbol_id(b, name, q, actual, span), qualified: q, kind: actual };
            brace_children(t, i, 0, src, cfg, sc.push(s), spec_add_symbol(b, name, q, actual, span))
        } else {
            brace_children(t, i, 0, src, cfg, sc, brace_effect(t, i, src, cfg, cur, b))
        }
    }
}

/// The builder after the visitor has walked the named children `k..` of `i`.
pub open spec fn brace_children(t: Seq<SyntaxNodeView>, i: int, k: int, src: Seq<char>, cfg: BraceView, sc: Seq<BraceScopeView>, b: BuilderView) -> BuilderView
    decreases t.len() - i, 0int, t[i].child_count - k,
{
    if !(0 <= i < t.len()) || !children_follow(t, i) || !(0 <= k < t[i].child_count) {
        b
    } else {
        let c = t[i].first_child + k;
        let b1 = if t[c].named {
            brace_visit(t, c, src, cfg, sc, b)
        } else {
            b
        };
        brace_children(t, i, k + 1, src, cfg, sc, b1)
    }
}

/// Whether the list holds `k`.
fn list_has(list: &Vec<String>, k: &str) -> (r: bool)
    ensures
        r == string_seq(list@).contains(k@),
{
    let mut i: usize = 0;
    while i < list.len()
        invariant
            i <= list.len(),
            forall|j: int| 0 <= j < i ==> list@[j]@ != k@,
        decreases list.len() - i,
    {
        if same_chars(list[i].as_str(), k) {
            assert(string_seq(list@)[i as int] == k@);
            return true;
        }
        i += 1;
    }
    assert forall|j: int| 0 <= j < string_seq(list@).len() implies string_seq(list@)[j] != k@ by {
        assert(string_seq(list@)[j] == list@[j]@);
    }
    false
}

fn qualify(parent: &String, name: &[char], sep: &String) -> (r: String)
    ensures
        r@ == qualify_with(parent@, name@, sep@),
{
    let p = chars_of(parent.as_str());
    if p.len() == 0 {
        string_from(name)
    } else {
        let with_sep = concat(&p, &chars_of(sep.as_str()));
        string_from(&concat(&with_sep, name))
    }
}

fn is_brace_identifier_node(n: &SyntaxNode) -> (r: bool)
    ensures
        r == is_brace_identifier_kind(n@.kind),
{
    kind_is(n, "identifier") || kind_is(n, "field_identifier") || kind_is(n, "type_identifier")
        || kind_is(n, "package_identifier")
}

fn collect_identifiers(tree: &SyntaxTree, i: usize, out: &mut Vec<usize>)
    requires
        tree_wf(tree@),
        i < tree@.len(),
    ensures
        as_ints(final(out)@) == as_ints(old(out)@) + brace_idents(tree@, i as int),
        forall|j: int| 0 <= j < final(out)@.len() ==> j < old(out)@.len() || final(out)@[j] < tree@.len(),
        forall|j: int| 0 <= j < old(out)@.len() ==> final(out)@[j] == old(out)@[j],
        final(out)@.len() >= old(out)@.len(),
    decreases tree@.len() - i,
{
    let ghost t = tree@;
    let n = &tree.nodes[i];
    assert(t[i as int] == n@);
    if is_brace_identifier_node(n) {
        let ghost before = out@;
        out.push(i);
        assert(as_ints(out@) =~= as_ints(before) + seq![i as int]);
        return;
    }
    assert(children_follow(t, i as int));
    let first = n.first_child;
    let count = n.child_count;
    let total = tree.nodes.len();
    let ghost start = out@;
    let mut k: usize = 0;
    while k < count
        invariant
            t == tree@,
            tree_wf(t),
            i < t.len(),
            total == t.len(),
            children_follow(t, i as int),
            !is_brace_identifier_kind(t[i as int].kind),
            first == t[i as int].first_child,
            count == t[i as int].child_count,
            k <= count,
            as_ints(out@) + brace_idents_from(t, i as int, k as int) == as_ints(start) + brace_idents_from(t, i as int, 0),
            forall|j: int| 0 <= j < out@.len() ==> j < start.len() || out@[j] < t.len(),
            forall|j: int| 0 <= j < start.len() ==> out@[j] == start[j],
            out@.len() >= start.len(),
        decreases count - k,
    {
        let c = first + k;
        let child = &tree.nodes[c];
        assert(t[c as int] == child@);
        let ghost before = as_ints(out@);
        let ghost here = if t[c as int].named { brace_idents(t, c as int) } else { Seq::empty() };
        if child.named {
            collect_identifiers(tree, c, out);
        }
        assert(as_ints(out@) =~= before + here);
        assert(brace_idents_from(t, i as int, k as int) == here + brace_idents_from(t, i as int, k + 1));
        assert(before + here + brace_idents_from(t, i as int, k + 1) =~= before + (here + brace_idents_from(t, i as int, k + 1)));
        k += 1;
    }
    assert(brace_idents_from(t, i as int, count as int) =~= Seq::<int>::empty());
    assert(as_ints(out@) =~= as_ints(start) + brace_idents(t, i as int));
}

fn identifiers(tree: &SyntaxTree, i: usize) -> (r: Vec<usize>)
    requires
        tree_wf(tree@),
        i < tree@.len(),
    ensures
        as_ints(r@) == brace_idents(tree@, i as int),
        forall|j: int| 0 <= j < r@.len() ==> r@[j] < tree@.len(),
{
    let mut out: Vec<usize> = Vec::new();
    collect_identifiers(tree, i, &mut out);
    assert(as_ints(Seq::<usize>::empty()) =~= Seq::<int>::empty());
    assert(as_ints(out@) =~= brace_idents(tree@, i as int));
    out
}

fn first_text_exec(tree: &SyntaxTree, ids: &Vec<usize>, src: &[char]) -> (r: Option<Vec<char>>)
    requires
        forall|j: int| 0 <= j < ids@.len() ==> ids@[j] < tree@.len(),
        encode_utf8(src@).len() <= usize::MAX,
    ensures
        match r {
            Some(v) => first_text(tree@, as_ints(ids@), src@) == Some(v@),
            None => first_text(tree@, as_ints(ids@), src@) is None,
        },
{
    let ghost all = as_ints(ids@);
    let mut j: usize = 0;
    assert(all.skip(0) =~= all);
    while j < ids.len()
        invariant
            j <= ids.len(),
            all == as_ints(ids@),
            forall|x: int| 0 <= x < ids@.len() ==> ids@[x] < tree@.len(),
            encode_utf8(src@).len() <= usize::MAX,
            first_text(tree@, all.skip(j as int), src@) == first_text(tree@, all, src@),
        decreases ids.len() - j,
    {
        assert(all.skip(j as int)[0] == ids@[j as int] as int);
        assert(all.skip(j as int).drop_first() =~= all.skip(j + 1));
        if let Some(x) = node_text(tree, ids[j], src) {
            return Some(x);
        }
        j += 1;
    }
    None
}

fn field_text_of(tree: &SyntaxTree, i: usize, field: &str, src: &[char]) -> (r: Option<Vec<char>>)
    requires
        tree_wf(tree@),
        i < tree@.len(),
        encode_utf8(src@).len() <= usize::MAX,
    ensures
        match r {
            Some(v) => brace_field_text(tree@, i as int, field@, src@) == Some(v@),
            None => brace_field_text(tree@, i as int, field@, src@) is None,
        },
{
    match child_by_field_name(tree, i, field) {
        Some(c) => node_text(tree, c, src),
        None => None,
    }
}

fn name_text(tree: &SyntaxTree, i: usize, src: &[char]) -> (r: Option<Vec<char>>)
    requires
        tree_wf(tree@),
        i < tree@.len(),
        encode_utf8(src@).len() <= usize::MAX,
    ensures
        match r {
            Some(v) => brace_name_text(tree@, i as int, src@) == Some(v@),
            None => brace_name_text(tree@, i as int, src@) is None,
        },
{
    if let Some(x) = field_text_of(tree, i, "name", src) {
        return Some(x);
    }
    let ids = identifiers(tree, i);
    first_text_exec(tree, &ids, src)
}

fn is_declarator_leaf_node(n: &SyntaxNode) -> (r: bool)
    ensures
        r == is_declarator_leaf(n@.kind),
{
    kind_is(n, "identifier") || kind_is(n, "field_identifier") || kind_is(n, "scoped_identifier")
        || kind_is(n, "qualified_identifier")
}

fn deepest_named_declarator(tree: &SyntaxTree, i: usize, src: &[char]) -> (r: Option<Vec<char>>)
    requires
        tree_wf(tree@),
        i < tree@.len(),
        encode_utf8(src@).len() <= usize::MAX,
    ensures
        match r {
            Some(v) => deepest_declarator(tree@, i as int, src@) == Some(v@),
            None => deepest_declarator(tree@, i as int, src@) is None,
        },
    decreases tree@.len() - i,
{
    let ghost t = tree@;
    let n = &tree.nodes[i];
    assert(t[i as int] == n@);
    assert(children_follow(t, i as int));
    if is_declarator_leaf_node(n) {
        return node_text(tree, i, src);
    }
    if let Some(c) = child_by_field_name(tree, i, "declarator") {
        if let Some(x) = deepest_named_declarator(tree, c, src) {
            return Some(x);
        }
    }
    if let Some(c) = child_by_field_name(tree, i, "name") {
        if let Some(x) = deepest_named_declarator(tree, c, src) {
            return Some(x);
        }
    }
    if let Some(c) = child_by_field_name(tree, i, "field") {
        if let Some(x) = deepest_named_declarator(tree, c, src) {
            return Some(x);
        }
    }
    if let Some(c) = child_by_field_name(tree, i, "operator_name") {
        if let Some(x) = deepest_named_declarator(tree, c, src) {
            return Some(x);
        }
    }
    let first = n.first_child;
    let count = n.child_count;
    let total = tree.nodes.len();
    let mut k: usize = 0;
    while k < count
        invariant
            t == tree@,
            tree_wf(t),
            i < t.len(),
            total == t.len(),
            children_follow(t, i as int),
            first == t[i as int].first_child,
            count == t[i as int].child_count,
            encode_utf8(src@).len() <= usize::MAX,
            k <= count,
            deepest_declarator(t, i as int, src@) == deepest_from(t, i as int, 0, src@),
            deepest_from(t, i as int, k as int, src@) == deepest_from(t, i as int, 0, src@),
        decreases count - k,
    {
        let c = first + k;
        let child = &tree.nodes[c];
        assert(t[c as int] == child@);
        if child.named {
            if let Some(x) = deepest_named_declarator(tree, c, src) {
                return Some(x);
            }
        }
        k += 1;
    }
    None
}

fn function_name(tree: &SyntaxTree, i: usize, src: &[char]) -> (r: Option<Vec<char>>)
    requires
        tree_wf(tree@),
        i < tree@.len(),
        encode_utf8(src@).len() <= usize::MAX,
    ensures
        match r {
            Some(v) => brace_function_name(tree@, i as int, src@) == Some(v@),
            None => brace_function_name(tree@, i as int, src@) is None,
        },
{
    if let Some(c) = child_by_field_name(tree, i, "declarator") {
        if let Some(x) = deepest_named_declarator(tree, c, src) {
            return Some(x);
        }
    }
    name_text(tree, i, src)
}

fn callable_leaf_exec(tree: &SyntaxTree, i: usize, src: &[char]) -> (r: Option<Vec<char>>)
    requires
        tree_wf(tree@),
        i < tree@.len(),
        encode_utf8(src@).len() <= usize::MAX,
    ensures
        match r {
            Some(v) => callable_leaf(tree@, i as int, src@) == Some(v@),
            None => callable_leaf(tree@, i as int, src@) is None,
        },
    decreases tree@.len() - i,
{
    let ghost t = tree@;
    let n = &tree.nodes[i];
    assert(t[i as int] == n@);
    assert(children_follow(t, i as int));
    if kind_is(n, "identifier") || kind_is(n, "field_identifier") || kind_is(n, "method_invocation")
        || kind_is(n, "selector") {
        return node_text(tree, i, src);
    }
    if kind_is(n, "field_expression") || kind_is(n, "member_expression") {
        return field_text_of(tree, i, "field", src);
    }
    if kind_is(n, "scoped_identifier") || kind_is(n, "qualified_identifier") {
        return field_text_of(tree, i, "name", src);
    }
    let first = n.first_child;
    let count = n.child_count;
    let total = tree.nodes.len();
    let mut k: usize = 0;
    while k < count
        invariant
            t == tree@,
            tree_wf(t),
            i < t.len(),
            total == t.len(),
            children_follow(t, i as int),
            first == t[i as int].first_child,
            count == t[i as int].child_count,
            encode_utf8(src@).len() <= usize::MAX,
            k <= count,
            callable_leaf(t, i as int, src@) == callable_from(t, i as int, 0, src@),
            callable_from(t, i as int, k as int, src@) == callable_from(t, i as int, 0, src@),
        decreases count - k,
    {
        let c = first + k;
        let child = &tree.nodes[c];
        assert(t[c as int] == child@);
        if child.named {
            if let Some(x) = callable_leaf_exec(tree, c, src) {
                return Some(x);
            }
        }
        k += 1;
    }
    None
}

fn leaf_under_exec(tree: &SyntaxTree, i: usize, field: &str, src: &[char]) -> (r: Option<Vec<char>>)
    requires
        tree_wf(tree@),
        i < tree@.len(),
        encode_utf8(src@).len() <= usize::MAX,
    ensures
        match r {
            Some(v) => leaf_under(tree@, i as int, field@, src@) == Some(v@),
            None => leaf_under(tree@, i as int, field@, src@) is None,
        },
{
    match child_by_field_name(tree, i, field) {
        Some(c) => callable_leaf_exec(tree, c, src),
        None => None,
    }
}

fn call_name(tree: &SyntaxTree, i: usize, src: &[char]) -> (r: Option<Vec<char>>)
    requires
        tree_wf(tree@),
        i < tree@.len(),
        encode_utf8(src@).len() <= usize::MAX,
    ensures
        match r {
            Some(v) => brace_call_name(tree@, i as int, src@) == Some(v@),
            None => brace_call_name(tree@, i as int, src@) is None,
        },
{
    if let Some(x) = leaf_under_exec(tree, i, "function", src) { return Some(x); }
    if let Some(x) = leaf_under_exec(tree, i, "name", src) { return Some(x); }
    if let Some(x) = leaf_under_exec(tree, i, "method", src) { return Some(x); }
    if let Some(x) = leaf_under_exec(tree, i, "selector", src) { return Some(x); }
    callable_leaf_exec(tree, i, src)
}

fn is_keyword(v: &[char]) -> (r: bool)
    ensures
        r == is_brace_keyword(v@),
{
    crate::text::text_is(v, "if") || crate::text::text_is(v, "for") || crate::text::text_is(v, "while")
        || crate::text::text_is(v, "switch") || crate::text::text_is(v, "return")
        || crate::text::text_is(v, "class") || crate::text::text_is(v, "struct")
        || crate::text::text_is(v, "enum") || crate::text::text_is(v, "interface")
        || crate::text::text_is(v, "public") || crate::text::text_is(v, "private")
        || crate::text::text_is(v, "protected") || crate::text::text_is(v, "static")
        || crate::text::text_is(v, "const") || crate::text::text_is(v, "var")
        || crate::text::text_is(v, "let") || crate::text::text_is(v, "type")
}

fn first_variable_exec(tree: &SyntaxTree, ids: &Vec<usize>, src: &[char]) -> (r: Option<(usize, Vec<char>)>)
    requires
        forall|j: int| 0 <= j < ids@.len() ==> ids@[j] < tree@.len(),
        encode_utf8(src@).len() <= usize::MAX,
    ensures
        match r {
            Some((id, v)) => first_variable(tree@, as_ints(ids@), src@) == Some((id as int, v@)) && id < tree@.len(),
            None => first_variable(tree@, as_ints(ids@), src@) is None,
        },
{
    let ghost all = as_ints(ids@);
    let mut j: usize = 0;
    assert(all.skip(0) =~= all);
    while j < ids.len()
        invariant
            j <= ids.len(),
            all == as_ints(ids@),
            forall|x: int| 0 <= x < ids@.len() ==> ids@[x] < tree@.len(),
            encode_utf8(src@).len() <= usize::MAX,
            first_variable(tree@, all.skip(j as int), src@) == first_variable(tree@, all, src@),
        decreases ids.len() - j,
    {
        assert(all.skip(j as int)[0] == ids@[j as int] as int);
        assert(all.skip(j as int).drop_first() =~= all.skip(j + 1));
        if let Some(x) = node_text(tree, ids[j], src) {
            if !is_keyword(&x) {
                return Some((ids[j], x));
            }
        }
        j += 1;
    }
    None
}

fn import_specifier_exec(text: &[char]) -> (r: Vec<char>)
    ensures
        r@ == import_specifier(text@),
{
    let rest = if let Some(x) = strip_prefix_str(text, "#include") {
        x
    } else if let Some(x) = strip_prefix_str(text, "import static") {
        x
    } else if let Some(x) = strip_prefix_str(text, "import") {
        x
    } else if let Some(x) = strip_prefix_str(text, "@import") {
        x
    } else {
        crate::text::slice(text, 0, text.len())
    };
    assert(text@.subrange(0, text@.len() as int) =~= text@);
    let a = trimmed(&rest);
    let b = trimmed_end_char(&a, ';');
    let c = trimmed_char(&b, '"');
    trimmed_char(&c, '`')
}

fn scope_entry_exec(tree: &SyntaxTree, i: usize, src: &[char], cfg: &BraceLanguage) -> (r: Option<(Vec<char>, SymbolKind)>)
    requires
        tree_wf(tree@),
        i < tree@.len(),
        encode_utf8(src@).len() <= usize::MAX,
    ensures
        match r {
            Some((v, k)) => brace_scope_entry(tree@, i as int, src@, cfg@) == Some((v@, k)),
            None => brace_scope_entry(tree@, i as int, src@, cfg@) is None,
        },
{
    let n = &tree.nodes[i];
    assert(tree@[i as int] == n@);
    let k = n.kind.as_str();
    let name = name_text(tree, i, src);
    if list_has(&cfg.scopes, k) && name.is_some() {
        return match name { Some(v) => Some((v, SymbolKind::Module)), None => None };
    }
    if list_has(&cfg.functions, k) {
        if let Some(v) = function_name(tree, i, src) {
            return Some((v, SymbolKind::Function));
        }
    }
    if list_has(&cfg.methods, k) && name.is_some() {
        return match name { Some(v) => Some((v, SymbolKind::Method)), None => None };
    }
    if list_has(&cfg.classes, k) && name.is_some() {
        return match name { Some(v) => Some((v, SymbolKind::Class)), None => None };
    }
    if list_has(&cfg.interfaces, k) && name.is_some() {
        return match name { Some(v) => Some((v, SymbolKind::Interface)), None => None };
    }
    if list_has(&cfg.enums, k) && name.is_some() {
        return match name { Some(v) => Some((v, SymbolKind::Enum)), None => None };
    }
    None
}

fn effect_exec(tree: &SyntaxTree, i: usize, src: &[char], cfg: &BraceLanguage, cur: &BraceScope, builder: &mut PartitionBuilder)
    requires
        tree_wf(tree@),
        i < tree@.len(),
        encode_utf8(src@).len() <= usize::MAX,
        old(builder).wf(),
    ensures
        final(builder).wf(),
        final(builder)@ == brace_effect(tree@, i as int, src@, cfg@, cur@, old(builder)@),
{
    let n = &tree.nodes[i];
    assert(tree@[i as int] == n@);
    let k = n.kind.as_str();
    let span = node_span(n);
    if list_has(&cfg.imports, k) {
        if let Some(x) = node_text(tree, i, src) {
            let spec_text = import_specifier_exec(&trimmed(&x));
            if spec_text.len() > 0 {
                let st = string_from(&spec_text);
                builder.add_import(st.as_str(), span);
            }
        }
        return;
    }
    if list_has(&cfg.type_aliases, k) {
        if let Some(name) = name_text(tree, i, src) {
            let q = qualify(&cur.qualified_name, &name, &cfg.scope_separator);
            let ns = string_from(&name);
            builder.add_symbol(ns.as_str(), q.as_str(), SymbolKind::TypeAlias, span);
            return;
        }
    }
    if list_has(&cfg.variables, k) {
        if cur.kind == SymbolKind::Function || cur.kind == SymbolKind::Method {
            return;
        }
        let ids = identifiers(tree, i);
        if let Some((id, name)) = first_variable_exec(tree, &ids, src) {
            let q = qualify(&cur.qualified_name, &name, &cfg.scope_separator);
            let ns = string_from(&name);
            let idn = &tree.nodes[id];
            assert(tree@[id as int] == idn@);
            builder.add_symbol(ns.as_str(), q.as_str(), SymbolKind::Variable, node_span(idn));
        }
        return;
    }
    if list_has(&cfg.calls, k) {
        if let Some(name) = call_name(tree, i, src) {
            let ns = string_from(&name);
            builder.add_call(&cur.node, ns.as_str(), span);
        }
    }
}

fn visit_node(tree: &SyntaxTree, i: usize, src: &[char], cfg: &BraceLanguage, builder: &mut PartitionBuilder, scopes: &mut Vec<BraceScope>)
    requires
        tree_wf(tree@),
        i < tree@.len(),
        encode_utf8(src@).len() <= usize::MAX,
        old(builder).wf(),
        old(scopes)@.len() >= 1,
    ensures
        final(builder).wf(),
        brace_scope_views(final(scopes)@) == brace_scope_views(old(scopes)@),
        final(builder)@ == brace_visit(tree@, i as int, src@, cfg@, brace_scope_views(old(scopes)@), old(builder)@),
    decreases tree@.len() - i, 1int,
{
    let ghost t = tree@;
    let ghost sc = brace_scope_views(scopes@);
    let n = &tree.nodes[i];
    assert(t[i as int] == n@);
    assert(children_follow(t, i as int));
    let span = node_span(n);
    let last = scopes.len() - 1;
    assert(sc.last() == scopes@[last as int]@);
    let entry = if list_has(&cfg.imports, n.kind.as_str()) {
        None
    } else {
        scope_entry_exec(tree, i, src, cfg)
    };
    match entry {
        Some((name, kind)) => {
            let actual = if kind == SymbolKind::Function && scopes[last].kind == SymbolKind::Class {
                SymbolKind::Method
            } else {
                kind
            };
            let q = qualify(&scopes[last].qualified_name, &name, &cfg.scope_separator);
            let ns = string_from(&name);
            let id = builder.add_symbol(ns.as_str(), q.as_str(), actual, span);
            let ghost before = scopes@;
            scopes.push(BraceScope { node: id, qualified_name: q, kind: actual });
            assert(brace_scope_views(scopes@) =~= sc.push(scopes@[before.len() as int]@));
            visit_children(tree, i, src, cfg, builder, scopes);
            let ghost pre_pop = scopes@;
            scopes.pop();
            assert(brace_scope_views(scopes@) =~= brace_scope_views(pre_pop).drop_last());
            assert(brace_scope_views(scopes@) =~= sc);
        },
        None => {
            effect_exec(tree, i, src, cfg, &scopes[last], builder);
            visit_children(tree, i, src, cfg, builder, scopes);
        },
    }
}

fn visit_children(tree: &SyntaxTree, i: usize, src: &[char], cfg: &BraceLanguage, builder: &mut PartitionBuilder, scopes: &mut Vec<BraceScope>)
    requires
        tree_wf(tree@),
        i < tree@.len(),
        encode_utf8(src@).len() <= usize::MAX,
        old(builder).wf(),
        old(scopes)@.len() >= 1,
    ensures
        final(builder).wf(),
        brace_scope_views(final(scopes)@) == brace_scope_views(old(scopes)@),
        final(builder)@ == brace_children(tree@, i as int, 0, src@, cfg@, brace_scope_views(old(scopes)@), old(builder)@),
    decreases tree@.len() - i, 0int,
{
    let ghost t = tree@;
    let ghost sc = brace_scope_views(scopes@);
    let ghost b0 = builder@;
    let n = &tree.nodes[i];
    assert(t[i as int] == n@);
    assert(children_follow(t, i as int));
    let first = n.first_child;
    let count = n.child_count;
    let total = tree.nodes.len();
    let mut k: usize = 0;
    while k < count
        invariant
            t == tree@,
            tree_wf(t),
            i < t.len(),
            total == t.len(),
            children_follow(t, i as int),
            first == t[i as int].first_child,
            count == t[i as int].child_count,
            encode_utf8(src@).len() <= usize::MAX,
            k <= count,
            builder.wf(),
            scopes@.len() >= 1,
            brace_scope_views(scopes@) == sc,
            brace_children(t, i as int, k as int, src@, cfg@, sc, builder@) == brace_children(t, i as int, 0, src@, cfg@, sc, b0),
        decreases count - k,
    {
        let c = first + k;
        let child = &tree.nodes[c];
        assert(t[c as int] == child@);
        if child.named {
            visit_node(tree, c, src, cfg, builder, scopes);
        }
        k += 1;
    }
}

/// The partition the brace-language visitor builds from a parsed tree.
pub open spec fn spec_brace_tree_partition(file: SourceFile, cfg: BraceView, t: Seq<SyntaxNodeView>, diagnostics: Seq<crate::diagnostics::DiagnosticView>, parse_time_micros: u64) -> PartitionView {
    let b0 = crate::helpers::spec_add_diagnostics(spec_new_builder(file, FactProvenance::TreeSitter, Confidence::High), diagnostics);
    let module_name = match crate::paths::spec_file_stem(file.path@) {
        Some(stem) => stem,
        None => cfg.module_fallback,
    };
    let span = spec_node_span(t[0]);
    let b1 = spec_add_symbol(b0, module_name, module_name, SymbolKind::Module, span);
    let scope = BraceScopeView { node: symbol_id(b0, module_name, module_name, SymbolKind::Module, span), qualified: module_name, kind: SymbolKind::Module };
    let p = crate::resolve::spec_resolve(brace_visit(t, 0, file.text@, cfg, seq![scope], b1).partition);
    PartitionView { metrics: crate::model::PartitionMetrics { parse_time_micros, ..p.metrics }, ..p }
}

/// Builds the partition of a brace-language file from its parsed tree.
pub fn brace_tree_partition(file: &SourceFile, report: crate::syntax::ParseReport, cfg: &BraceLanguage) -> (r: GraphPartition)
    requires
        tree_wf(report.tree@),
    ensures
        r@ == spec_brace_tree_partition(*file, cfg@, report.tree@, crate::model::diagnostic_views(report.diagnostics@), report.parse_time_micros),
{
    let src = chars_of(file.text.as_str());
    let _bytes = file.text.as_str().as_bytes().len();
    let mut builder = PartitionBuilder::new_with_quality(file, FactProvenance::TreeSitter, Confidence::High);
    let crate::syntax::ParseReport { tree, diagnostics, parse_time_micros } = report;
    builder.add_diagnostics(diagnostics);
    let module_name = match crate::paths::file_stem_of(&chars_of(file.path.as_str())) {
        Some(stem) => string_from(&stem),
        None => cfg.module_fallback.clone(),
    };
    let root = &tree.nodes[0];
    assert(tree@[0] == root@);
    let id = builder.add_symbol(module_name.as_str(), module_name.as_str(), SymbolKind::Module, node_span(root));
    let mut scopes: Vec<BraceScope> = Vec::new();
    scopes.push(BraceScope { node: id, qualified_name: module_name, kind: SymbolKind::Module });
    assert(brace_scope_views(scopes@) =~= seq![scopes@[0]@]);
    visit_node(&tree, 0, &src, cfg, &mut builder, &mut scopes);
    let mut partition = crate::resolve::resolve_partition(builder.finish());
    partition.metrics.parse_time_micros = parse_time_micros;
    partition
}

fn names0() -> (r: Vec<String>)
    ensures
        string_seq(r@) == Seq::<Seq<char>>::empty(),
{
    let r: Vec<String> = Vec::new();
    assert(string_seq(r@) =~= Seq::<Seq<char>>::empty());
    r
}

fn names1(a: &str) -> (r: Vec<String>)
    ensures
        string_seq(r@) == seq![a@],
{
    let mut r: Vec<String> = Vec::new();
    r.push(String::from_str(a));
    assert(string_seq(r@) =~= seq![a@]);
    r
}

fn names2(a: &str, b: &str) -> (r: Vec<String>)
    ensures
        string_seq(r@) == seq![a@, b@],
{
    let mut r: Vec<String> = Vec::new();
    r.push(String::from_str(a));
    r.push(String::from_str(b));
    assert(string_seq(r@) =~= seq![a@, b@]);
    r
}

fn names3(a: &str, b: &str, c: &str) -> (r: Vec<String>)
    ensures
        string_seq(r@) == seq![a@, b@, c@],
{
    let mut r: Vec<String> = Vec::new();
    r.push(String::from_str(a));
    r.push(String::from_str(b));
    r.push(String::from_str(c));
    assert(string_seq(r@) =~= seq![a@, b@, c@]);
    r
}

/// How C syntax trees are read.
pub open spec fn spec_c_config() -> BraceView {
    BraceView {
        name: "C"@,
        separator: "::"@,
        module_fallback: "module"@,
        imports: seq!["preproc_include"@],
        functions: seq!["function_definition"@],
        methods: Seq::<Seq<char>>::empty(),
        classes: seq!["struct_specifier"@],
        interfaces: Seq::<Seq<char>>::empty(),
        enums: seq!["enum_specifier"@],
        type_aliases: seq!["type_definition"@],
        variables: seq!["init_declarator"@],
        scopes: Seq::<Seq<char>>::empty(),
        calls: seq!["call_expression"@],
    }
}

pub fn c_config() -> (r: BraceLanguage)
    ensures
        r@ == spec_c_config(),
{
    BraceLanguage {
        name: String::from_str("C"),
        scope_separator: String::from_str("::"),
        module_fallback: String::from_str("module"),
        imports: names1("preproc_include"),
        functions: names1("function_definition"),
        methods: names0(),
        classes: names1("struct_specifier"),
        interfaces: names0(),
        enums: names1("enum_specifier"),
        type_aliases: names1("type_definition"),
        variables: names1("init_declarator"),
        scopes: names0(),
        calls: names1("call_expression"),
    }
}

/// How C++ syntax trees are read.
pub open spec fn spec_cpp_config() -> BraceView {
    BraceView {
        name: "C++"@,
        separator: "::"@,
        module_fallback: "module"@,
        imports: seq!["preproc_include"@],
        functions: seq!["function_definition"@],
        methods: Seq::<Seq<char>>::empty(),
        classes: seq!["class_specifier"@, "struct_specifier"@],
        interfaces: Seq::<Seq<char>>::empty(),
        enums: seq!["enum_specifier"@],
        type_aliases: seq!["type_definition"@, "alias_declaration"@],
        variables: seq!["init_declarator"@],
        scopes: seq!["namespace_definition"@],
        calls: seq!["call_expression"@],
    }
}

pub fn cpp_config() -> (r: BraceLanguage)
    ensures
        r@ == spec_cpp_config(),
{
    BraceLanguage {
        name: String::from_str("C++"),
        scope_separator: String::from_str("::"),
        module_fallback: String::from_str("module"),
        imports: names1("preproc_include"),
        functions: names1("function_definition"),
        methods: names0(),
        classes: names2("class_specifier", "struct_specifier"),
        interfaces: names0(),
        enums: names1("enum_specifier"),
        type_aliases: names2("type_definition", "alias_declaration"),
        variables: names1("init_declarator"),
        scopes: names1("namespace_definition"),
        calls: names1("call_expression"),
    }
}

/// How Go syntax trees are read.
pub open spec fn spec_go_config() -> BraceView {
    BraceView {
        name: "Go"@,
        separator: "."@,
        module_fallback: "package"@,
        imports: seq!["import_declaration"@, "import_spec"@],
        functions: seq!["function_declaration"@],
        methods: seq!["method_declaration"@],
        classes: Seq::<Seq<char>>::empty(),
        interfaces: Seq::<Seq<char>>::empty(),
        enums: Seq::<Seq<char>>::empty(),
        type_aliases: seq!["type_spec"@],
        variables: seq!["var_spec"@, "const_spec"@, "short_var_declaration"@],
        scopes: seq!["package_clause"@],
        calls: seq!["call_expression"@],
    }
}

pub fn go_config() -> (r: BraceLanguage)
    ensures
        r@ == spec_go_config(),
{
    BraceLanguage {
        name: String::from_str("Go"),
        scope_separator: String::from_str("."),
        module_fallback: String::from_str("package"),
        imports: names2("import_declaration", "import_spec"),
        functions: names1("function_declaration"),
        methods: names1("method_declaration"),
        classes: names0(),
        interfaces: names0(),
        enums: names0(),
        type_aliases: names1("type_spec"),
        variables: names3("var_spec", "const_spec", "short_var_declaration"),
        scopes: names1("package_clause"),
        calls: names1("call_expression"),
    }
}

/// How Java syntax trees are read.
pub open spec fn spec_java_config() -> BraceView {
    BraceView {
        name: "Java"@,
        separator: "."@,
        module_fallback: "module"@,
        imports: seq!["import_declaration"@],
        functions: Seq::<Seq<char>>::empty(),
        methods: seq!["method_declaration"@, "constructor_declaration"@],
        classes: seq!["class_declaration"@, "record_declaration"@],
        interfaces: seq!["interface_declaration"@, "annotation_type_declaration"@],
        enums: seq!["enum_declaration"@],
        type_aliases: Seq::<Seq<char>>::empty(),
        variables: seq!["variable_declarator"@, "field_declaration"@],
        scopes: seq!["package_declaration"@],
        calls: seq!["method_invocation"@, "object_creation_expression"@],
    }
}

pub fn java_config() -> (r: BraceLanguage)
    ensures
        r@ == spec_java_config(),
{
    BraceLanguage {
        name: String::from_str("Java"),
        scope_separator: String::from_str("."),
        module_fallback: String::from_str("module"),
        imports: names1("import_declaration"),
        functions: names0(),
        methods: names2("method_declaration", "constructor_declaration"),
        classes: names2("class_declaration", "record_declaration"),
        interfaces: names2("interface_declaration", "annotation_type_declaration"),
        enums: names1("enum_declaration"),
        type_aliases: names0(),
        variables: names2("variable_declarator", "field_declaration"),
        scopes: names1("package_declaration"),
        calls: names2("method_invocation", "object_creation_expression"),
    }
}

/// How Objective-C syntax trees are read.
pub open spec fn spec_objective_c_config() -> BraceView {
    BraceView {
        name: "Objective-C"@,
        separator: "."@,
        module_fallback: "module"@,
        imports: seq!["preproc_include"@, "import_declaration"@],
        functions: seq!["function_definition"@],
        methods: seq!["method_declaration"@, "method_definition"@],
        classes: seq!["class_interface"@, "implementation_definition"@, "class_declaration"@],
        interfaces: seq!["protocol_declaration"@],
        enums: seq!["enum_specifier"@],
        type_aliases: seq!["type_definition"@],
        variables: seq!["init_declarator"@],
        scopes: Seq::<Seq<char>>::empty(),
        calls: seq!["call_expression"@, "message_expression"@],
    }
}

pub fn objective_c_config() -> (r: BraceLanguage)
    ensures
        r@ == spec_objective_c_config(),
{
    BraceLanguage {
        name: String::from_str("Objective-C"),
        scope_separator: String::from_str("."),
        module_fallback: String::from_str("module"),
        imports: names2("preproc_include", "import_declaration"),
        functions: names1("function_definition"),
        methods: names2("method_declaration", "method_definition"),
        classes: names3("class_interface", "implementation_definition", "class_declaration"),
        interfaces: names1("protocol_declaration"),
        enums: names1("enum_specifier"),
        type_aliases: names1("type_definition"),
        variables: names1("init_declarator"),
        scopes: names0(),
        calls: names2("call_expression", "message_expression"),
    }
}

/// What a brace-language extraction gives when the parse was skipped: the line
/// scanner's partition when falling back, else an empty one, with the warning.
pub open spec fn brace_skipped(file: SourceFile, fallback: bool, message: Seq<char>) -> PartitionView {
    let d = crate::syntax::skip_diagnostic_view(message, file.file_id@);
    if fallback {
        crate::syntax::with_diagnostic(crate::brace::spec_brace_scanner_extract(file), d)
    } else {
        crate::syntax::with_diagnostic(crate::syntax::empty_partition_view(file), d)
    }
}

/// Whether `p` is what the visitor builds from the parse of `file` in `grammar`.
pub open spec fn is_brace_tree_outcome(file: SourceFile, cfg: BraceView, grammar: crate::syntax::GrammarId, p: PartitionView) -> bool {
    exists|t: Seq<SyntaxNodeView>, micros: u64|
        tree_wf(t) && crate::syntax::represents(t, crate::syntax::parse_tree(grammar, file.text@)) && p == #[trigger] spec_brace_tree_partition(
            file,
            cfg,
            t,
            crate::syntax::spec_parse_diagnostics(t, file.text@, file.file_id@),
            micros,
        )
}

/// What a tree-sitter extraction of a brace-language file may give: a file over
/// the size limit is skipped with its size; otherwise the partition comes from a
/// parse, or the parse ran out of its time limit `timeout` (none when it is
/// zero), or the grammar was refused.
pub open spec fn brace_tree_sitter_outcome_within(file: SourceFile, cfg: BraceView, grammar: crate::syntax::GrammarId, limit: usize, timeout: u64, fallback: bool, p: PartitionView) -> bool {
    let len = vstd::utf8::encode_utf8(file.text@).len();
    &&& len > limit ==> p == brace_skipped(
        file,
        fallback,
        crate::syntax::skip_message_of(cfg.name, 0, len, limit as nat, Seq::empty()),
    )
    &&& len <= limit ==> {
        ||| is_brace_tree_outcome(file, cfg, grammar, p)
        ||| timeout != 0 && p == brace_skipped(file, fallback, crate::syntax::skip_message_of(cfg.name, 1, 0, 0, Seq::empty()))
        ||| exists|e: Seq<char>| p == brace_skipped(file, fallback, crate::syntax::skip_message_of(cfg.name, 2, 0, 0, e))
    }
}

/// The same, under the default size limit.
pub open spec fn brace_tree_sitter_outcome(file: SourceFile, cfg: BraceView, grammar: crate::syntax::GrammarId, fallback: bool, p: PartitionView) -> bool {
    brace_tree_sitter_outcome_within(file, cfg, grammar, crate::syntax::DEFAULT_MAX_FILE_BYTES, crate::syntax::DEFAULT_PARSE_TIMEOUT_MICROS, fallback, p)
}

fn tree_sitter_extract(file: &SourceFile, pool: &crate::syntax::ParserPool, config: &BraceLanguage, limits: crate::syntax::ParseLimits, fallback: bool) -> (r: GraphPartition)
    requires
        crate::python::text_fits(file.text@),
    ensures
        brace_tree_sitter_outcome_within(*file, config@, pool.grammar, limits.max_file_bytes, limits.parse_timeout_micros, fallback, r@),
{
    match pool.parse(file.text.as_str(), &file.file_id, limits) {
        Ok(report) => {
            let ghost t = report.tree@;
            let ghost micros = report.parse_time_micros;
            let r = brace_tree_partition(file, report, config);
            assert(tree_wf(t) && crate::syntax::represents(t, crate::syntax::parse_tree(pool.grammar, file.text@)) && r@ == spec_brace_tree_partition(*file, config@, t, crate::syntax::spec_parse_diagnostics(t, file.text@, file.file_id@), micros));
            r
        },
        Err(skip) => {
            let base = if fallback {
                crate::brace::brace_scanner_extract(file)
            } else {
                GraphPartition::empty(file)
            };
            proof {
                if !fallback {
                    assert(base@.nodes =~= Seq::<crate::model::NodeView>::empty());
                    assert(base@.edges =~= Seq::<crate::model::EdgeView>::empty());
                    assert(base@.diagnostics =~= Seq::<crate::diagnostics::DiagnosticView>::empty());
                }
            }
            let ghost sk = skip;
            let r = crate::syntax::partition_with_skip(base, skip, file, config.name.as_str());
            proof {
                match sk {
                    crate::syntax::ParseSkip::Parser(e) => {
                        assert(r@ == brace_skipped(*file, fallback, crate::syntax::skip_message_of(config@.name, 2, 0, 0, e@)));
                    },
                    _ => {},
                }
            }
            r
        },
    }
}

/// Extracts a brace-language file the way `mode` asks: the line scanner alone,
/// tree-sitter alone, or tree-sitter falling back to the scanner.
pub fn extract(file: &SourceFile, pool: &crate::syntax::ParserPool, config: &BraceLanguage, options: crate::syntax::ExtractionOptions, mode: crate::syntax::ExtractionMode) -> (r: GraphPartition)
    requires
        crate::python::text_fits(file.text@),
    ensures
        match mode {
            crate::syntax::ExtractionMode::ScannerOnly => r@ == crate::brace::spec_brace_scanner_extract(*file),
            crate::syntax::ExtractionMode::TreeSitterOnly => brace_tree_sitter_outcome_within(*file, config@, pool.grammar, options.parse_limits.max_file_bytes, options.parse_limits.parse_timeout_micros, false, r@),
            _ => brace_tree_sitter_outcome_within(*file, config@, pool.grammar, options.parse_limits.max_file_bytes, options.parse_limits.parse_timeout_micros, true, r@),
        },
{
    match mode {
        crate::syntax::ExtractionMode::ScannerOnly => crate::brace::brace_scanner_extract(file),
        crate::syntax::ExtractionMode::TreeSitterOnly => tree_sitter_extract(file, pool, config, options.parse_limits, false),
        _ => tree_sitter_extract(file, pool, config, options.parse_limits, true),
    }
}

/// Extracts a C file with tree-sitter, falling back to the line scanner.
pub fn extract_c(file: &SourceFile) -> (r: GraphPartition)
    requires
        crate::python::text_fits(file.text@),
    ensures
        brace_tree_sitter_outcome(*file, spec_c_config(), crate::syntax::GrammarId::C, true, r@),
{
    let pool = crate::syntax::ParserPool::new(crate::syntax::GrammarId::C);
    extract(file, &pool, &c_config(), crate::syntax::ExtractionOptions::default(), crate::syntax::ExtractionMode::TreeSitterWithFallback)
}

/// Extracts a C++ file with tree-sitter, falling back to the line scanner.
pub fn extract_cpp(file: &SourceFile) -> (r: GraphPartition)
    requires
        crate::python::text_fits(file.text@),
    ensures
        brace_tree_sitter_outcome(*file, spec_cpp_config(), crate::syntax::GrammarId::Cpp, true, r@),
{
    let pool = crate::syntax::ParserPool::new(crate::syntax::GrammarId::Cpp);
    extract(file, &pool, &cpp_config(), crate::syntax::ExtractionOptions::default(), crate::syntax::ExtractionMode::TreeSitterWithFallback)
}

/// Extracts a Go file with tree-sitter, falling back to the line scanner.
pub fn extract_go(file: &SourceFile) -> (r: GraphPartition)
    requires
        crate::python::text_fits(file.text@),
    ensures
        brace_tree_sitter_outcome(*file, spec_go_config(), crate::syntax::GrammarId::Go, true, r@),
{
    let pool = crate::syntax::ParserPool::new(crate::syntax::GrammarId::Go);
    extract(file, &pool, &go_config(), crate::syntax::ExtractionOptions::default(), crate::syntax::ExtractionMode::TreeSitterWithFallback)
}

/// Extracts a Java file with tree-sitter, falling back to the line scanner.
pub fn extract_java(file: &SourceFile) -> (r: GraphPartition)
    requires
        crate::python::text_fits(file.text@),
    ensures
        brace_tree_sitter_outcome(*file, spec_java_config(), crate::syntax::GrammarId::Java, true, r@),
{
    let pool = crate::syntax::ParserPool::new(crate::syntax::GrammarId::Java);
    extract(file, &pool, &java_config(), crate::syntax::ExtractionOptions::default(), crate::syntax::ExtractionMode::TreeSitterWithFallback)
}

/// Extracts a Objective-C file with tree-sitter, falling back to the line scanner.
pub fn extract_objective_c(file: &SourceFile) -> (r: GraphPartition)
    requires
        crate::python::text_fits(file.text@),
    ensures
        brace_tree_sitter_outcome(*file, spec_objective_c_config(), crate::syntax::GrammarId::ObjectiveC, true, r@),
{
    let pool = crate::syntax::ParserPool::new(crate::syntax::GrammarId::ObjectiveC);
    extract(file, &pool, &objective_c_config(), crate::syntax::ExtractionOptions::default(), crate::syntax::ExtractionMode::TreeSitterWithFallback)
}

/// Extracts a Java file the way `mode` asks, under the guardrails of `options`.
pub fn extract_java_with_options(file: &SourceFile, options: crate::syntax::ExtractionOptions, mode: crate::syntax::ExtractionMode) -> (r: GraphPartition)
    requires
        crate::python::text_fits(file.text@),
    ensures
        match mode {
            crate::syntax::ExtractionMode::ScannerOnly => r@ == crate::brace::spec_brace_scanner_extract(*file),
            crate::syntax::ExtractionMode::TreeSitterOnly => brace_tree_sitter_outcome_within(*file, spec_java_config(), crate::syntax::GrammarId::Java, options.parse_limits.max_file_bytes, options.parse_limits.parse_timeout_micros, false, r@),
            _ => brace_tree_sitter_outcome_within(*file, spec_java_config(), crate::syntax::GrammarId::Java, options.parse_limits.max_file_bytes, options.parse_limits.parse_timeout_micros, true, r@),
        },
{
    let pool = crate::syntax::ParserPool::new(crate::syntax::GrammarId::Java);
    extract(file, &pool, &java_config(), options, mode)
}

/// Extracts an Objective-C file the way `mode` asks, under the guardrails of `options`.
pub fn extract_objective_c_with_options(file: &SourceFile, options: crate::syntax::ExtractionOptions, mode: crate::syntax::ExtractionMode) -> (r: GraphPartition)
    requires
        crate::python::text_fits(file.text@),
    ensures
        match mode {
            crate::syntax::ExtractionMode::ScannerOnly => r@ == crate::brace::spec_brace_scanner_extract(*file),
            crate::syntax::ExtractionMode::TreeSitterOnly => brace_tree_sitter_outcome_within(*file, spec_objective_c_config(), crate::syntax::GrammarId::ObjectiveC, options.parse_limits.max_file_bytes, options.parse_limits.parse_timeout_micros, false, r@),
            _ => brace_tree_sitter_outcome_within(*file, spec_objective_c_config(), crate::syntax::GrammarId::ObjectiveC, options.parse_limits.max_file_bytes, options.parse_limits.parse_timeout_micros, true, r@),
        },
{
    let pool = crate::syntax::ParserPool::new(crate::syntax::GrammarId::ObjectiveC);
    extract(file, &pool, &objective_c_config(), options, mode)
}

} // verus!
