use crate::helpers::{
    first_identifier_after_chars, line_span_of, spec_add_import, spec_add_link, spec_add_symbol,
    spec_first_identifier_after, spec_line_span, spec_new_builder, symbol_id, BuilderView,
    PartitionBuilder,
};
use crate::ids::NodeId;
use crate::model::EdgeKind;
use crate::syntax::{
    child_by_field_name, children_follow, field_child, kind_is, node_span, node_text,
    node_text_spec, spec_node_span, tree_wf, SyntaxNode, SyntaxNodeView, SyntaxTree,
};
use vstd::utf8::encode_utf8;
use crate::model::{GraphPartition, PartitionView, SourceFile, SymbolKind};
use crate::python::{lemma_lines_len, text_fits};
use crate::quality::{Confidence, FactProvenance};
use crate::span::SourceSpan;
use crate::text::{
    chars_of, concat, lines, lines_of, starts_with, string_from, strip_prefix_str, trim,
    trim_end_char, trim_start_seq, trimmed, trimmed_end_char, trimmed_start_seq,
};
use vstd::prelude::*;

verus! {

/// The builder after adding a function symbol when `prefix` starts the line.
pub open spec fn add_fn_after(b: BuilderView, t: Seq<char>, prefix: Seq<char>, span: SourceSpan) -> BuilderView {
    match spec_first_identifier_after(t, prefix) {
        Some(name) => spec_add_symbol(b, name, name, SymbolKind::Function, span),
        None => b,
    }
}

/// One line of the Rust scanner: a `use` import, and a function for each of the
/// prefixes `fn `, `pub fn `, `async fn ` and `pub async fn ` that starts the line.
pub open spec fn rust_step(b: BuilderView, text: Seq<char>, index: int, line: Seq<char>) -> BuilderView {
    let t = trim(line);
    let span = spec_line_span(text, index);
    let b1 = if starts_with(t, "use "@) {
        spec_add_import(b, trim_end_char(t.skip("use "@.len() as int), ';'), span)
    } else {
        b
    };
    let b2 = add_fn_after(b1, t, "fn "@, span);
    let b3 = add_fn_after(b2, t, "pub fn "@, span);
    let b4 = add_fn_after(b3, t, "async fn "@, span);
    add_fn_after(b4, t, "pub async fn "@, span)
}

pub open spec fn rust_fold(file: SourceFile, k: int) -> BuilderView
    decreases k,
{
    if k <= 0 {
        spec_new_builder(file, FactProvenance::StructuralScanner, Confidence::Medium)
    } else {
        rust_step(rust_fold(file, k - 1), file.text@, k - 1, lines(file.text@)[k - 1])
    }
}

/// The partition the Rust line scanner builds for `file`.
pub open spec fn spec_scanner_extract_rust(file: SourceFile) -> PartitionView {
    rust_fold(file, lines(file.text@).len() as int).partition
}

fn add_fn_exec(builder: &mut PartitionBuilder, t: &[char], prefix: &str, span: SourceSpan)
    requires
        old(builder).wf(),
    ensures
        final(builder).wf(),
        final(builder)@ == add_fn_after(old(builder)@, t@, prefix@, span),
{
    if let Some(name) = first_identifier_after_chars(t, prefix) {
        let ns = string_from(&name);
        builder.add_symbol(ns.as_str(), ns.as_str(), SymbolKind::Function, span);
    }
}

fn rust_line(builder: &mut PartitionBuilder, text: &Vec<char>, li: usize, line: &Vec<char>)
    requires
        old(builder).wf(),
        text_fits(text@),
        li <= text@.len(),
    ensures
        final(builder).wf(),
        final(builder)@ == rust_step(old(builder)@, text@, li as int, line@),
{
    let t = trimmed(line);
    let span = line_span_of(text, li);
    if let Some(rest) = strip_prefix_str(&t, "use ") {
        let spec_text = trimmed_end_char(&rest, ';');
        let s = string_from(&spec_text);
        builder.add_import(s.as_str(), span);
    }
    add_fn_exec(builder, &t, "fn ", span);
    add_fn_exec(builder, &t, "pub fn ", span);
    add_fn_exec(builder, &t, "async fn ", span);
    add_fn_exec(builder, &t, "pub async fn ", span);
}

/// Builds the partition of a Rust file line by line: `use` imports and functions.
pub fn scanner_extract_rust(file: &SourceFile) -> (r: GraphPartition)
    requires
        text_fits(file.text@),
    ensures
        r@ == spec_scanner_extract_rust(*file),
{
    let text = chars_of(file.text.as_str());
    let ls = lines_of(&text);
    let ghost lsv = ls.deep_view();
    let mut builder = PartitionBuilder::new(file);
    proof {
        lemma_lines_len(text@);
    }
    let mut li: usize = 0;
    while li < ls.len()
        invariant
            li <= ls.len(),
            lsv == ls.deep_view(),
            lsv == lines(file.text@),
            text@ == file.text@,
            text_fits(file.text@),
            lsv.len() <= text@.len() + 1,
            builder.wf(),
            builder@ == rust_fold(*file, li as int),
        decreases ls.len() - li,
    {
        assert(lsv[li as int] =~= ls[li as int]@);
        rust_line(&mut builder, &text, li, &ls[li]);
        li += 1;
    }
    builder.finish()
}

/// A scope of the Rust tree visitor: the symbol that encloses what follows.
pub struct Scope {
    pub node: NodeId,
    pub qualified_name: String,
    pub kind: SymbolKind,
}

/// What a scope holds, as plain values.
pub struct ScopeView {
    pub node: Seq<char>,
    pub qualified: Seq<char>,
    pub kind: SymbolKind,
}

impl View for Scope {
    type V = ScopeView;

    open spec fn view(&self) -> ScopeView {
        ScopeView { node: self.node@, qualified: self.qualified_name@, kind: self.kind }
    }
}

pub open spec fn scope_views(s: Seq<Scope>) -> Seq<ScopeView> {
    s.map_values(|x: Scope| x@)
}

/// `name` under `parent`, joined by `::`.
pub open spec fn qualify_rust(parent: Seq<char>, name: Seq<char>) -> Seq<char> {
    if parent.len() == 0 {
        name
    } else {
        parent + "::"@ + name
    }
}

/// The `identifier` nodes at or under node `i`, in order, looking only through
/// named children.
pub open spec fn identifiers(t: Seq<SyntaxNodeView>, i: int) -> Seq<int>
    decreases t.len() - i, 1int, 0int,
{
    if !(0 <= i < t.len()) {
        Seq::empty()
    } else if t[i].kind == "identifier"@ {
        seq![i]
    } else {
        identifiers_from(t, i, 0)
    }
}

pub open spec fn identifiers_from(t: Seq<SyntaxNodeView>, i: int, k: int) -> Seq<int>
    decreases t.len() - i, 0int, t[i].child_count - k,
{
    if !(0 <= i < t.len()) || !children_follow(t, i) || !(0 <= k < t[i].child_count) {
        Seq::empty()
    } else {
        let c = t[i].first_child + k;
        (if t[c].named {
            identifiers(t, c)
        } else {
            Seq::empty()
        }) + identifiers_from(t, i, k + 1)
    }
}

/// The text of the child of `i` under `field`.
pub open spec fn field_text(t: Seq<SyntaxNodeView>, i: int, field: Seq<char>, src: Seq<char>) -> Option<Seq<char>> {
    match field_child(t, i, field) {
        Some(c) => node_text_spec(t, c, src),
        None => None,
    }
}

/// `x` trimmed, when that leaves something.
pub open spec fn non_empty_trimmed(x: Option<Seq<char>>) -> Option<Seq<char>> {
    match x {
        Some(v) => if trim(v).len() > 0 {
            Some(trim(v))
        } else {
            None
        },
        None => None,
    }
}

/// The name a call goes to: an identifier, the field of a field expression, the
/// last name of a path, or else the callee's trimmed text.
pub open spec fn rust_call_name(t: Seq<SyntaxNodeView>, f: int, src: Seq<char>) -> Option<Seq<char>> {
    if t[f].kind == "identifier"@ {
        node_text_spec(t, f, src)
    } else if t[f].kind == "field_expression"@ {
        field_text(t, f, "field"@, src)
    } else if t[f].kind == "scoped_identifier"@ {
        field_text(t, f, "name"@, src)
    } else {
        non_empty_trimmed(node_text_spec(t, f, src))
    }
}

/// Whether nodes of this kind open a scope.
pub open spec fn is_rust_scope_kind(k: Seq<char>) -> bool {
    k == "mod_item"@ || k == "function_item"@ || k == "struct_item"@ || k == "enum_item"@
        || k == "trait_item"@ || k == "type_item"@ || k == "impl_item"@
}

/// The kind of symbol a scope-opening node declares, before methods are told apart.
pub open spec fn rust_scope_kind(k: Seq<char>) -> SymbolKind {
    if k == "mod_item"@ {
        SymbolKind::Module
    } else if k == "function_item"@ {
        SymbolKind::Function
    } else if k == "struct_item"@ {
        SymbolKind::Class
    } else if k == "enum_item"@ {
        SymbolKind::Enum
    } else if k == "trait_item"@ {
        SymbolKind::Interface
    } else if k == "type_item"@ {
        SymbolKind::TypeAlias
    } else {
        SymbolKind::Class
    }
}

/// The name and kind of the symbol a scope-opening node declares: an `impl` is
/// named by its type (or `impl`), the others by their `name` field; a function
/// directly inside a type is a method.
pub open spec fn rust_scope_entry(t: Seq<SyntaxNodeView>, i: int, src: Seq<char>, cur: ScopeView) -> Option<(Seq<char>, SymbolKind)> {
    let k = t[i].kind;
    if k == "impl_item"@ {
        Some((match non_empty_trimmed(field_text(t, i, "type"@, src)) {
            Some(n) => n,
            None => "impl"@,
        }, SymbolKind::Class))
    } else {
        match field_text(t, i, "name"@, src) {
            Some(name) => {
                let kind = rust_scope_kind(k);
                Some((name, if kind == SymbolKind::Function && cur.kind == SymbolKind::Class {
                    SymbolKind::Method
                } else {
                    kind
                }))
            },
            None => None,
        }
    }
}

/// What a `use` declaration imports: its text without `use`, `;` and spaces.
pub open spec fn use_specifier(x: Seq<char>) -> Seq<char> {
    trim(trim_end_char(trim(trim_start_seq(trim(x), "use"@)), ';'))
}

/// The builder after adding a variable for each identifier of a `let` pattern.
pub open spec fn add_let_vars(t: Seq<SyntaxNodeView>, ids: Seq<int>, src: Seq<char>, scope: Seq<char>, b: BuilderView) -> BuilderView
    decreases ids.len(),
{
    if ids.len() == 0 {
        b
    } else {
        let b1 = add_let_vars(t, ids.drop_last(), src, scope, b);
        let id = ids.last();
        match node_text_spec(t, id, src) {
            Some(name) => spec_add_symbol(b1, name, qualify_rust(scope, name), SymbolKind::Variable, spec_node_span(t[id])),
            None => b1,
        }
    }
}

/// What a node that opens no scope adds before its children are visited: the
/// variables of a `let`, a call, or a macro call.
pub open spec fn rust_effect(t: Seq<SyntaxNodeView>, i: int, src: Seq<char>, cur: ScopeView, b: BuilderView) -> BuilderView {
    let k = t[i].kind;
    let span = spec_node_span(t[i]);
    if k == "let_declaration"@ {
        match field_child(t, i, "pattern"@) {
            Some(p) => add_let_vars(t, identifiers(t, p), src, cur.qualified, b),
            None => b,
        }
    } else if k == "call_expression"@ {
        match field_child(t, i, "function"@) {
            Some(f) => match rust_call_name(t, f, src) {
                Some(name) => spec_add_link(b, EdgeKind::Calls, cur.node, name, span),
                None => b,
            },
            None => b,
        }
    } else if k == "macro_invocation"@ {
        match field_text(t, i, "macro"@, src) {
            Some(name) => spec_add_link(b, EdgeKind::Calls, cur.node, trim_end_char(name, '!'), span),
            None => b,
        }
    } else {
        b
    }
}

/// The builder after the Rust visitor has walked node `i` under the scopes `sc`.
pub open spec fn rust_visit(t: Seq<SyntaxNodeView>, i: int, src: Seq<char>, sc: Seq<ScopeView>, b: BuilderView) -> BuilderView
    decreases t.len() - i, 1int, 0int,
{
    if !(0 <= i < t.len()) || !children_follow(t, i) || sc.len() == 0 {
        b
    } else {
        let k = t[i].kind;
        let span = spec_node_span(t[i]);
        let cur = sc.last();
        if is_rust_scope_kind(k) {
            match rust_scope_entry(t, i, src, cur) {
                Some((name, kind)) => {
                    let q = qualify_rust(cur.qualified, name);
                    let s = ScopeView { node: symbol_id(b, name, q, kind, span), qualified: q, kind };
                    rust_children(t, i, 0, src, sc.push(s), spec_add_symbol(b, name, q, kind, span))
                },
                None => b,
            }
        } else if k == "use_declaration"@ {
            match node_text_spec(t, i, src) {
                Some(x) => if use_specifier(x).len() > 0 {
                    spec_add_import(b, use_specifier(x), span)
                } else {
                    b
                },
                None => b,
            }
        } else {
            rust_children(t, i, 0, src, sc, rust_effect(t, i, src, cur, b))
        }
    }
}

/// The builder after the Rust visitor has walked the named children `k..` of `i`.
pub open spec fn rust_children(t: Seq<SyntaxNodeView>, i: int, k: int, src: Seq<char>, sc: Seq<ScopeView>, b: BuilderView) -> BuilderView
    decreases t.len() - i, 0int, t[i].child_count - k,
{
    if !(0 <= i < t.len()) || !children_follow(t, i) || !(0 <= k < t[i].child_count) {
        b
    } else {
        let c = t[i].first_child + k;
        let b1 = if t[c].named {
            rust_visit(t, c, src, sc, b)
        } else {
            b
        };
        rust_children(t, i, k + 1, src, sc, b1)
    }
}

pub open spec fn as_ints(v: Seq<usize>) -> Seq<int> {
    v.map_values(|x: usize| x as int)
}

fn collect_identifiers(tree: &SyntaxTree, i: usize, out: &mut Vec<usize>)
    requires
        tree_wf(tree@),
        i < tree@.len(),
    ensures
        as_ints(final(out)@) == as_ints(old(out)@) + identifiers(tree@, i as int),
        forall|j: int| 0 <= j < final(out)@.len() ==> j < old(out)@.len() || final(out)@[j] < tree@.len(),
        forall|j: int| 0 <= j < old(out)@.len() ==> final(out)@[j] == old(out)@[j],
        final(out)@.len() >= old(out)@.len(),
    decreases tree@.len() - i,
{
    let ghost t = tree@;
    let n = &tree.nodes[i];
    assert(t[i as int] == n@);
    if kind_is(n, "identifier") {
        let ghost before = out@;
        out.push(i);
        assert(as_ints(out@) =~= as_ints(before) + seq![i as int]);
        return;
    }
    assert(children_follow(t, i as int));
    let first = n.first_child;
    let count = n.child_count;
    let total = tree.nodes.len();
    let ghost start = out@;
    let mut k: usize = 0;
    while k < count
        invariant
            t == tree@,
            tree_wf(t),
            i < t.len(),
            total == t.len(),
            children_follow(t, i as int),
            t[i as int].kind != "identifier"@,
            first == t[i as int].first_child,
            count == t[i as int].child_count,
            k <= count,
            as_ints(out@) + identifiers_from(t, i as int, k as int) == as_ints(start) + identifiers_from(t, i as int, 0),
            forall|j: int| 0 <= j < out@.len() ==> j < start.len() || out@[j] < t.len(),
            forall|j: int| 0 <= j < start.len() ==> out@[j] == start[j],
            out@.len() >= start.len(),
        decreases count - k,
    {
        let c = first + k;
        let child = &tree.nodes[c];
        assert(t[c as int] == child@);
        let ghost before = as_ints(out@);
        let ghost here = if t[c as int].named { identifiers(t, c as int) } else { Seq::empty() };
        if child.named {
            collect_identifiers(tree, c, out);
        }
        assert(as_ints(out@) =~= before + here);
        assert(identifiers_from(t, i as int, k as int) == here + identifiers_from(t, i as int, k + 1));
        assert(before + here + identifiers_from(t, i as int, k + 1) =~= before + (here + identifiers_from(t, i as int, k + 1)));
        k += 1;
    }
    assert(identifiers_from(t, i as int, count as int) =~= Seq::<int>::empty());
    assert(as_ints(out@) =~= as_ints(start) + identifiers(t, i as int));
}

fn add_let_vars_exec(tree: &SyntaxTree, ids: &Vec<usize>, src: &[char], scope: &String, builder: &mut PartitionBuilder)
    requires
        old(builder).wf(),
        encode_utf8(src@).len() <= usize::MAX,
        forall|j: int| 0 <= j < ids@.len() ==> ids@[j] < tree@.len(),
    ensures
        final(builder).wf(),
        final(builder)@ == add_let_vars(tree@, as_ints(ids@), src@, scope@, old(builder)@),
{
    let ghost start = builder@;
    let mut j: usize = 0;
    while j < ids.len()
        invariant
            j <= ids.len(),
            builder.wf(),
            encode_utf8(src@).len() <= usize::MAX,
            forall|x: int| 0 <= x < ids@.len() ==> ids@[x] < tree@.len(),
            builder@ == add_let_vars(tree@, as_ints(ids@).take(j as int), src@, scope@, start),
        decreases ids.len() - j,
    {
        let id = ids[j];
        assert(as_ints(ids@).take(j + 1).drop_last() =~= as_ints(ids@).take(j as int));
        assert(as_ints(ids@).take(j + 1).last() == id as int);
        if let Some(name) = node_text(tree, id, src) {
            let q = qualify(scope, &name);
            let ns = string_from(&name);
            let n = &tree.nodes[id];
            assert(tree@[id as int] == n@);
            builder.add_symbol(ns.as_str(), q.as_str(), SymbolKind::Variable, node_span(n));
        }
        j += 1;
    }
    assert(as_ints(ids@).take(ids.len() as int) =~= as_ints(ids@));
}

fn qualify(parent: &String, name: &[char]) -> (r: String)
    ensures
        r@ == qualify_rust(parent@, name@),
{
    let p = chars_of(parent.as_str());
    if p.len() == 0 {
        string_from(name)
    } else {
        let with_sep = concat(&p, &chars_of("::"));
        string_from(&concat(&with_sep, name))
    }
}

pub(crate) fn field_text_exec(tree: &SyntaxTree, i: usize, field: &str, src: &[char]) -> (r: Option<Vec<char>>)
    requires
        tree_wf(tree@),
        i < tree@.len(),
        encode_utf8(src@).len() <= usize::MAX,
    ensures
        match r {
            Some(v) => field_text(tree@, i as int, field@, src@) == Some(v@),
            None => field_text(tree@, i as int, field@, src@) is None,
        },
{
    match child_by_field_name(tree, i, field) {
        Some(c) => node_text(tree, c, src),
        None => None,
    }
}

pub(crate) fn non_empty_trimmed_exec(x: Option<Vec<char>>) -> (r: Option<Vec<char>>)
    ensures
        match r {
            Some(v) => non_empty_trimmed(match x { Some(y) => Some(y@), None => None }) == Some(v@),
            None => non_empty_trimmed(match x { Some(y) => Some(y@), None => None }) is None,
        },
{
    match x {
        Some(v) => {
            let t = trimmed(&v);
            if t.len() > 0 {
                Some(t)
            } else {
                None
            }
        },
        None => None,
    }
}

fn call_name(tree: &SyntaxTree, f: usize, src: &[char]) -> (r: Option<Vec<char>>)
    requires
        tree_wf(tree@),
        f < tree@.len(),
        encode_utf8(src@).len() <= usize::MAX,
    ensures
        match r {
            Some(v) => rust_call_name(tree@, f as int, src@) == Some(v@),
            None => rust_call_name(tree@, f as int, src@) is None,
        },
{
    let n = &tree.nodes[f];
    assert(tree@[f as int] == n@);
    if kind_is(n, "identifier") {
        node_text(tree, f, src)
    } else if kind_is(n, "field_expression") {
        field_text_exec(tree, f, "field", src)
    } else if kind_is(n, "scoped_identifier") {
        field_text_exec(tree, f, "name", src)
    } else {
        non_empty_trimmed_exec(node_text(tree, f, src))
    }
}

fn is_rust_scope_kind_exec(n: &SyntaxNode) -> (r: bool)
    ensures
        r == is_rust_scope_kind(n@.kind),
{
    kind_is(n, "mod_item") || kind_is(n, "function_item") || kind_is(n, "struct_item")
        || kind_is(n, "enum_item") || kind_is(n, "trait_item") || kind_is(n, "type_item")
        || kind_is(n, "impl_item")
}

fn rust_scope_kind_exec(n: &SyntaxNode) -> (r: SymbolKind)
    ensures
        r == rust_scope_kind(n@.kind),
{
    if kind_is(n, "mod_item") {
        SymbolKind::Module
    } else if kind_is(n, "function_item") {
        SymbolKind::Function
    } else if kind_is(n, "struct_item") {
        SymbolKind::Class
    } else if kind_is(n, "enum_item") {
        SymbolKind::Enum
    } else if kind_is(n, "trait_item") {
        SymbolKind::Interface
    } else if kind_is(n, "type_item") {
        SymbolKind::TypeAlias
    } else {
        SymbolKind::Class
    }
}

fn rust_scope_entry_exec(tree: &SyntaxTree, i: usize, src: &[char], cur: &Scope) -> (r: Option<(Vec<char>, SymbolKind)>)
    requires
        tree_wf(tree@),
        i < tree@.len(),
        encode_utf8(src@).len() <= usize::MAX,
    ensures
        match r {
            Some((v, k)) => rust_scope_entry(tree@, i as int, src@, cur@) == Some((v@, k)),
            None => rust_scope_entry(tree@, i as int, src@, cur@) is None,
        },
{
    let n = &tree.nodes[i];
    assert(tree@[i as int] == n@);
    if kind_is(n, "impl_item") {
        let name = match non_empty_trimmed_exec(field_text_exec(tree, i, "type", src)) {
            Some(v) => v,
            None => chars_of("impl"),
        };
        Some((name, SymbolKind::Class))
    } else {
        match field_text_exec(tree, i, "name", src) {
            Some(name) => {
                let kind = rust_scope_kind_exec(n);
                let actual = if kind == SymbolKind::Function && cur.kind == SymbolKind::Class {
                    SymbolKind::Method
                } else {
                    kind
                };
                Some((name, actual))
            },
            None => None,
        }
    }
}

fn rust_effect_exec(tree: &SyntaxTree, i: usize, src: &[char], cur: &Scope, builder: &mut PartitionBuilder)
    requires
        tree_wf(tree@),
        i < tree@.len(),
        encode_utf8(src@).len() <= usize::MAX,
        old(builder).wf(),
    ensures
        final(builder).wf(),
        final(builder)@ == rust_effect(tree@, i as int, src@, cur@, old(builder)@),
{
    let n = &tree.nodes[i];
    assert(tree@[i as int] == n@);
    let span = node_span(n);
    if kind_is(n, "let_declaration") {
        if let Some(p) = child_by_field_name(tree, i, "pattern") {
            let mut ids: Vec<usize> = Vec::new();
            collect_identifiers(tree, p, &mut ids);
            assert(as_ints(Seq::<usize>::empty()) =~= Seq::<int>::empty());
            assert(as_ints(ids@) =~= identifiers(tree@, p as int));
            add_let_vars_exec(tree, &ids, src, &cur.qualified_name, builder);
        }
    } else if kind_is(n, "call_expression") {
        if let Some(f) = child_by_field_name(tree, i, "function") {
            if let Some(name) = call_name(tree, f, src) {
                let ns = string_from(&name);
                builder.add_call(&cur.node, ns.as_str(), span);
            }
        }
    } else if kind_is(n, "macro_invocation") {
        if let Some(name) = field_text_exec(tree, i, "macro", src) {
            let trimmed_name = trimmed_end_char(&name, '!');
            let ns = string_from(&trimmed_name);
            builder.add_call(&cur.node, ns.as_str(), span);
        }
    }
}

fn use_import_exec(tree: &SyntaxTree, i: usize, src: &[char], builder: &mut PartitionBuilder)
    requires
        tree_wf(tree@),
        i < tree@.len(),
        encode_utf8(src@).len() <= usize::MAX,
        old(builder).wf(),
    ensures
        final(builder).wf(),
        final(builder)@ == (match node_text_spec(tree@, i as int, src@) {
            Some(x) => if use_specifier(x).len() > 0 {
                spec_add_import(old(builder)@, use_specifier(x), spec_node_span(tree@[i as int]))
            } else {
                old(builder)@
            },
            None => old(builder)@,
        }),
{
    let n = &tree.nodes[i];
    assert(tree@[i as int] == n@);
    if let Some(text) = node_text(tree, i, src) {
        let a = trimmed(&text);
        let b = trimmed_start_seq(&a, &chars_of("use"));
        let c = trimmed(&b);
        let d = trimmed_end_char(&c, ';');
        let e = trimmed(&d);
        if e.len() > 0 {
            let es = string_from(&e);
            builder.add_import(es.as_str(), node_span(n));
        }
    }
}

fn visit_node(tree: &SyntaxTree, i: usize, src: &[char], builder: &mut PartitionBuilder, scopes: &mut Vec<Scope>)
    requires
        tree_wf(tree@),
        i < tree@.len(),
        encode_utf8(src@).len() <= usize::MAX,
        old(builder).wf(),
        old(scopes)@.len() >= 1,
    ensures
        final(builder).wf(),
        scope_views(final(scopes)@) == scope_views(old(scopes)@),
        final(builder)@ == rust_visit(tree@, i as int, src@, scope_views(old(scopes)@), old(builder)@),
    decreases tree@.len() - i, 1int,
{
    let ghost t = tree@;
    let ghost sc = scope_views(scopes@);
    let ghost b0 = builder@;
    let n = &tree.nodes[i];
    assert(t[i as int] == n@);
    assert(children_follow(t, i as int));
    let span = node_span(n);
    let last = scopes.len() - 1;
    assert(sc.last() == scopes@[last as int]@);
    if is_rust_scope_kind_exec(n) {
        let entry = rust_scope_entry_exec(tree, i, src, &scopes[last]);
        match entry {
            Some((name, kind)) => {
                let q = qualify(&scopes[last].qualified_name, &name);
                let ns = string_from(&name);
                let id = builder.add_symbol(ns.as_str(), q.as_str(), kind, span);
                let ghost before = scopes@;
                scopes.push(Scope { node: id, qualified_name: q, kind });
                assert(scope_views(scopes@) =~= sc.push(scopes@[before.len() as int]@));
                visit_children(tree, i, src, builder, scopes);
                let ghost pre_pop = scopes@;
                scopes.pop();
                assert(scope_views(scopes@) =~= scope_views(pre_pop).drop_last());
                assert(scope_views(scopes@) =~= sc);
            },
            None => {},
        }
    } else if kind_is(n, "use_declaration") {
        use_import_exec(tree, i, src, builder);
    } else {
        rust_effect_exec(tree, i, src, &scopes[last], builder);
        visit_children(tree, i, src, builder, scopes);
    }
}

fn visit_children(tree: &SyntaxTree, i: usize, src: &[char], builder: &mut PartitionBuilder, scopes: &mut Vec<Scope>)
    requires
        tree_wf(tree@),
        i < tree@.len(),
        encode_utf8(src@).len() <= usize::MAX,
        old(builder).wf(),
        old(scopes)@.len() >= 1,
    ensures
        final(builder).wf(),
        scope_views(final(scopes)@) == scope_views(old(scopes)@),
        final(builder)@ == rust_children(tree@, i as int, 0, src@, scope_views(old(scopes)@), old(builder)@),
    decreases tree@.len() - i, 0int,
{
    let ghost t = tree@;
    let ghost sc = scope_views(scopes@);
    let ghost b0 = builder@;
    let n = &tree.nodes[i];
    assert(t[i as int] == n@);
    assert(children_follow(t, i as int));
    let first = n.first_child;
    let count = n.child_count;
    let total = tree.nodes.len();
    let mut k: usize = 0;
    while k < count
        invariant
            t == tree@,
            tree_wf(t),
            i < t.len(),
            total == t.len(),
            children_follow(t, i as int),
            first == t[i as int].first_child,
            count == t[i as int].child_count,
            encode_utf8(src@).len() <= usize::MAX,
            k <= count,
            builder.wf(),
            scopes@.len() >= 1,
            scope_views(scopes@) == sc,
            rust_children(t, i as int, k as int, src@, sc, builder@) == rust_children(t, i as int, 0, src@, sc, b0),
        decreases count - k,
    {
        let c = first + k;
        let child = &tree.nodes[c];
        assert(t[c as int] == child@);
        if child.named {
            visit_node(tree, c, src, builder, scopes);
        }
        k += 1;
    }
}

/// The partition the Rust tree visitor builds from a parsed tree: the file's
/// module symbol first, then the symbols, imports and calls under it, resolved.
pub open spec fn spec_rust_tree_partition(file: SourceFile, t: Seq<SyntaxNodeView>, diagnostics: Seq<crate::diagnostics::DiagnosticView>, parse_time_micros: u64) -> PartitionView {
    let b0 = crate::helpers::spec_add_diagnostics(spec_new_builder(file, FactProvenance::TreeSitter, Confidence::High), diagnostics);
    let module_name = match crate::paths::spec_file_stem(file.path@) {
        Some(stem) => stem,
        None => "module"@,
    };
    let span = spec_node_span(t[0]);
    let b1 = spec_add_symbol(b0, module_name, module_name, SymbolKind::Module, span);
    let scope = ScopeView { node: symbol_id(b0, module_name, module_name, SymbolKind::Module, span), qualified: module_name, kind: SymbolKind::Module };
    let p = crate::resolve::spec_resolve(rust_visit(t, 0, file.text@, seq![scope], b1).partition);
    PartitionView { metrics: crate::model::PartitionMetrics { parse_time_micros, ..p.metrics }, ..p }
}

/// Builds the partition of a Rust file from its parsed tree.
pub fn rust_tree_partition(file: &SourceFile, report: crate::syntax::ParseReport) -> (r: GraphPartition)
    requires
        tree_wf(report.tree@),
    ensures
        r@ == spec_rust_tree_partition(*file, report.tree@, crate::model::diagnostic_views(report.diagnostics@), report.parse_time_micros),
{
    let src = chars_of(file.text.as_str());
    let _bytes = file.text.as_str().as_bytes().len();
    let mut builder = PartitionBuilder::new_with_quality(file, FactProvenance::TreeSitter, Confidence::High);
    let crate::syntax::ParseReport { tree, diagnostics, parse_time_micros } = report;
    builder.add_diagnostics(diagnostics);
    let module_name = match crate::paths::file_stem_of(&chars_of(file.path.as_str())) {
        Some(stem) => string_from(&stem),
        None => String::from_str("module"),
    };
    let root = &tree.nodes[0];
    assert(tree@[0] == root@);
    let id = builder.add_symbol(module_name.as_str(), module_name.as_str(), SymbolKind::Module, node_span(root));
    let mut scopes: Vec<Scope> = Vec::new();
    scopes.push(Scope { node: id, qualified_name: module_name, kind: SymbolKind::Module });
    assert(scope_views(scopes@) =~= seq![scopes@[0]@]);
    visit_node(&tree, 0, &src, &mut builder, &mut scopes);
    let mut partition = crate::resolve::resolve_partition(builder.finish());
    partition.metrics.parse_time_micros = parse_time_micros;
    partition
}

/// What a Rust extraction gives when the parse was skipped with `message`: the
/// line scanner's partition when falling back, else an empty one, with the warning.
pub open spec fn rust_skipped(file: SourceFile, fallback: bool, message: Seq<char>) -> PartitionView {
    let d = crate::syntax::skip_diagnostic_view(message, file.file_id@);
    if fallback {
        crate::syntax::with_diagnostic(spec_scanner_extract_rust(file), d)
    } else {
        crate::syntax::with_diagnostic(crate::syntax::empty_partition_view(file), d)
    }
}

/// Whether `p` is what the Rust tree visitor builds from the Rust grammar's parse
/// of `file`, with that parse's syntax diagnostics.
pub open spec fn is_rust_tree_outcome(file: SourceFile, p: PartitionView) -> bool {
    exists|t: Seq<SyntaxNodeView>, micros: u64|
        tree_wf(t) && crate::syntax::represents(t, crate::syntax::parse_tree(crate::syntax::GrammarId::Rust, file.text@)) && p == #[trigger] spec_rust_tree_partition(
            file,
            t,
            crate::syntax::spec_parse_diagnostics(t, file.text@, file.file_id@),
            micros,
        )
}

/// What a tree-sitter extraction of a Rust file may give: a file over the size
/// limit is skipped with its size; otherwise the partition comes from a parse,
/// or the parse ran out of its time limit `timeout` (none when it is zero), or
/// the grammar was refused.
pub open spec fn rust_tree_sitter_outcome_within(file: SourceFile, limit: usize, timeout: u64, fallback: bool, p: PartitionView) -> bool {
    let len = encode_utf8(file.text@).len();
    &&& len > limit ==> p == rust_skipped(
        file,
        fallback,
        crate::syntax::skip_message_of("Rust"@, 0, len, limit as nat, Seq::empty()),
    )
    &&& len <= limit ==> {
        ||| is_rust_tree_outcome(file, p)
        ||| timeout != 0 && p == rust_skipped(file, fallback, crate::syntax::skip_message_of("Rust"@, 1, 0, 0, Seq::empty()))
        ||| exists|e: Seq<char>| p == rust_skipped(file, fallback, crate::syntax::skip_message_of("Rust"@, 2, 0, 0, e))
    }
}

/// The same, under the default size limit.
pub open spec fn rust_tree_sitter_outcome(file: SourceFile, fallback: bool, p: PartitionView) -> bool {
    rust_tree_sitter_outcome_within(file, crate::syntax::DEFAULT_MAX_FILE_BYTES, crate::syntax::DEFAULT_PARSE_TIMEOUT_MICROS, fallback, p)
}

/// Extracts a Rust file with tree-sitter. A file over the size limit, a parse that
/// runs out of time or a grammar the parser refuses is skipped with a warning:
/// with `fallback`, onto the line scanner's partition, else onto an empty one.
pub fn tree_sitter_extract_rust(file: &SourceFile, limits: crate::syntax::ParseLimits, fallback: bool) -> (r: GraphPartition)
    requires
        text_fits(file.text@),
    ensures
        rust_tree_sitter_outcome_within(*file, limits.max_file_bytes, limits.parse_timeout_micros, fallback, r@),
{
    let pool = crate::syntax::ParserPool::new(crate::syntax::GrammarId::Rust);
    match pool.parse(file.text.as_str(), &file.file_id, limits) {
        Ok(report) => {
            let ghost t = report.tree@;
            let ghost ds = crate::model::diagnostic_views(report.diagnostics@);
            let ghost micros = report.parse_time_micros;
            let r = rust_tree_partition(file, report);
            assert(tree_wf(t) && crate::syntax::represents(t, crate::syntax::parse_tree(pool.grammar, file.text@)) && r@ == spec_rust_tree_partition(*file, t, crate::syntax::spec_parse_diagnostics(t, file.text@, file.file_id@), micros));
            r
        },
        Err(skip) => {
            let base = if fallback {
                scanner_extract_rust(file)
            } else {
                GraphPartition::empty(file)
            };
            proof {
                if !fallback {
                    assert(base@.nodes =~= Seq::<crate::model::NodeView>::empty());
                    assert(base@.edges =~= Seq::<crate::model::EdgeView>::empty());
                    assert(base@.diagnostics =~= Seq::<crate::diagnostics::DiagnosticView>::empty());
                }
            }
            let ghost sk = skip;
            let r = crate::syntax::partition_with_skip(base, skip, file, "Rust");
            proof {
                match sk {
                    crate::syntax::ParseSkip::Parser(e) => {
                        assert(r@ == rust_skipped(*file, fallback, crate::syntax::skip_message_of("Rust"@, 2, 0, 0, e@)));
                    },
                    _ => {},
                }
            }
            r
        },
    }
}

/// Extracts a Rust file the way `mode` asks: the line scanner alone, tree-sitter
/// alone, or tree-sitter falling back to the scanner.
pub fn extract_rust_with_options(file: &SourceFile, options: crate::syntax::ExtractionOptions, mode: crate::syntax::ExtractionMode) -> (r: GraphPartition)
    requires
        text_fits(file.text@),
    ensures
        match mode {
            crate::syntax::ExtractionMode::ScannerOnly => r@ == spec_scanner_extract_rust(*file),
            crate::syntax::ExtractionMode::TreeSitterOnly => rust_tree_sitter_outcome_within(*file, options.parse_limits.max_file_bytes, options.parse_limits.parse_timeout_micros, false, r@),
            _ => rust_tree_sitter_outcome_within(*file, options.parse_limits.max_file_bytes, options.parse_limits.parse_timeout_micros, true, r@),
        },
{
    match mode {
        crate::syntax::ExtractionMode::ScannerOnly => scanner_extract_rust(file),
        crate::syntax::ExtractionMode::TreeSitterOnly => tree_sitter_extract_rust(file, options.parse_limits, false),
        _ => tree_sitter_extract_rust(file, options.parse_limits, true),
    }
}

/// Extracts a Rust file in the default mode: tree-sitter, falling back to the
/// line scanner.
pub fn extract_rust(file: &SourceFile) -> (r: GraphPartition)
    requires
        text_fits(file.text@),
    ensures
        rust_tree_sitter_outcome(*file, true, r@),
{
    extract_rust_with_options(file, crate::syntax::ExtractionOptions::default(), crate::syntax::ExtractionMode::TreeSitterWithFallback)
}

} // verus!
