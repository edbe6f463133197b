use crate::helpers::{
    after_last_dot, after_last_dot_chars, spec_add_export, spec_add_import, spec_add_import_alias,
    spec_add_link, spec_add_symbol, spec_new_builder, symbol_id, BuilderView, PartitionBuilder,
};
use crate::model::{EdgeKind, GraphPartition, PartitionView, SourceFile, SymbolKind};
use crate::quality::{Confidence, FactProvenance};
use crate::rust_lang::{
    as_ints, field_text, field_text_exec, non_empty_trimmed, non_empty_trimmed_exec, scope_views, Scope,
    ScopeView,
};
use crate::span::SourceSpan;
use crate::syntax::{
    child_by_field_name, children_follow, field_child, kind_is,
    node_span, node_text, node_text_spec, spec_node_span, tree_wf, SyntaxNode, SyntaxNodeView,
    SyntaxTree,
};
use crate::text::{
    chars_of, concat, contains_seq, contains_str, first_occurrence, find_str, is_ws, or_opt,
    split_all, split_on, spec_read_identifier, starts_with, starts_with_str, string_from,
    read_identifier_chars, strip_prefix_str, text_is, trim, trim_start_char, trim_start_seq, trimmed,
    trimmed_start_char, trimmed_start_seq,
};
use crate::language::Language;
use crate::paths::{extension_of, spec_extension};
use crate::python::text_fits;
use crate::ts_scanner::{
    scanner_extract_typescript, spec_export_name, spec_module_specifier,
    spec_scanner_extract_typescript,
};
use vstd::prelude::*;
use vstd::utf8::encode_utf8;

verus! {

/// The parts of `s` before and after the first `pat`, when it occurs.
pub open spec fn split_once_str(s: Seq<char>, pat: Seq<char>) -> Option<(Seq<char>, Seq<char>)> {
    match first_occurrence(s, pat) {
        Some(k) => if 0 <= k && k + pat.len() <= s.len() {
            Some((s.take(k), s.skip(k + pat.len())))
        } else {
            None
        },
        None => None,
    }
}

fn split_once_exec(s: &[char], pat: &str) -> (r: Option<(Vec<char>, Vec<char>)>)
    ensures
        match r {
            Some((a, b)) => split_once_str(s@, pat@) == Some((a@, b@)),
            None => split_once_str(s@, pat@) is None,
        },
{
    let plen = chars_of(pat).len();
    match find_str(s, pat) {
        Some(k) => {
            let n = s.len();
            assert(k + plen <= n);
            let a = crate::text::slice(s, 0, k);
            let b = crate::text::slice(s, k + plen, n);
            assert(a@ =~= s@.take(k as int));
            assert(b@ =~= s@.skip(k + pat@.len()));
            Some((a, b))
        },
        None => None,
    }
}

/// Whether `c` is a brace.
pub open spec fn is_brace(c: char) -> bool {
    c == '{' || c == '}'
}

/// Whether `c` is a quote.
pub open spec fn is_quote(c: char) -> bool {
    c == '"' || c == '\''
}

pub open spec fn trim_start_by(s: Seq<char>, quotes: bool) -> Seq<char>
    decreases s.len(),
{
    if s.len() > 0 && (if quotes { is_quote(s[0]) } else { is_brace(s[0]) }) {
        trim_start_by(s.drop_first(), quotes)
    } else {
        s
    }
}

pub open spec fn trim_end_by(s: Seq<char>, quotes: bool) -> Seq<char>
    decreases s.len(),
{
    if s.len() > 0 && (if quotes { is_quote(s.last()) } else { is_brace(s.last()) }) {
        trim_end_by(s.drop_last(), quotes)
    } else {
        s
    }
}

/// `s` without leading and trailing quotes (or braces).
pub open spec fn trim_set(s: Seq<char>, quotes: bool) -> Seq<char> {
    trim_end_by(trim_start_by(s, quotes), quotes)
}

fn in_set(c: char, quotes: bool) -> (r: bool)
    ensures
        r == (if quotes { is_quote(c) } else { is_brace(c) }),
{
    if quotes {
        c == '"' || c == '\''
    } else {
        c == '{' || c == '}'
    }
}

fn trimmed_set(s: &[char], quotes: bool) -> (r: Vec<char>)
    ensures
        r@ == trim_set(s@, quotes),
{
    let mut i: usize = 0;
    assert(s@.skip(0) =~= s@);
    while i < s.len() && in_set(s[i], quotes)
        invariant
            i <= s.len(),
            trim_start_by(s@.skip(i as int), quotes) == trim_start_by(s@, quotes),
        decreases s.len() - i,
    {
        assert(s@.skip(i as int).drop_first() =~= s@.skip(i + 1));
        i += 1;
    }
    assert(s@.skip(i as int) =~= s@.subrange(i as int, s.len() as int));
    let a = crate::text::slice(s, i, s.len());
    let mut j: usize = a.len();
    assert(a@.take(a.len() as int) =~= a@);
    while j > 0 && in_set(a[j - 1], quotes)
        invariant
            j <= a.len(),
            trim_end_by(a@.take(j as int), quotes) == trim_end_by(a@, quotes),
        decreases j,
    {
        assert(a@.take(j as int).drop_last() =~= a@.take(j - 1));
        j -= 1;
    }
    assert(a@.take(j as int) =~= a@.subrange(0, j as int));
    crate::text::slice(&a, 0, j)
}

/// The characters at the end of `s` after its last whitespace.
pub open spec fn trailing_word(s: Seq<char>) -> Seq<char>
    decreases s.len(),
{
    if s.len() == 0 || is_ws(s.last()) {
        Seq::empty()
    } else {
        trailing_word(s.drop_last()).push(s.last())
    }
}

fn trailing_word_exec(s: &[char]) -> (r: Vec<char>)
    ensures
        r@ == trailing_word(s@),
{
    let mut j: usize = s.len();
    assert(s@.take(s.len() as int) =~= s@);
    while j > 0 && !crate::text::is_whitespace(s[j - 1])
        invariant
            j <= s.len(),
            trailing_word(s@) == trailing_word(s@.take(j as int)) + s@.subrange(j as int, s.len() as int),
        decreases j,
    {
        assert(s@.take(j as int).drop_last() =~= s@.take(j - 1));
        assert(s@.subrange(j - 1, s.len() as int) =~= seq![s@[j - 1]] + s@.subrange(j as int, s.len() as int));
        assert(trailing_word(s@.take(j - 1)) + s@.subrange(j - 1, s.len() as int) =~= trailing_word(s@.take(j - 1)).push(s@[j - 1]) + s@.subrange(j as int, s.len() as int));
        j -= 1;
    }
    assert(trailing_word(s@.take(j as int)) =~= Seq::<char>::empty());
    crate::text::slice(s, j, s.len())
}

/// The local name an import item binds: the name after `* as ` or ` as `, else
/// the item's last word; type-only and empty items bind nothing.
pub open spec fn import_item_alias(item: Seq<char>) -> Option<Seq<char>> {
    let t = trim(item);
    if t.len() == 0 || starts_with(t, "type "@) {
        None
    } else if starts_with(t, "* as "@) {
        Some(trim(t.skip("* as "@.len() as int)))
    } else {
        match split_once_str(t, " as "@) {
            Some((_, alias)) => Some(trim(alias)),
            None => Some(trailing_word(t)),
        }
    }
}

pub open spec fn collect_aliases(items: Seq<Seq<char>>) -> Seq<Seq<char>>
    decreases items.len(),
{
    if items.len() == 0 {
        Seq::empty()
    } else {
        collect_aliases(items.drop_last()) + match import_item_alias(items.last()) {
            Some(a) => seq![a],
            None => Seq::empty(),
        }
    }
}

/// The local names an `import ... from` line binds.
pub open spec fn spec_import_aliases(line: Seq<char>) -> Seq<Seq<char>> {
    match split_once_str(line, " from "@) {
        Some((head, _)) => collect_aliases(split_all(trim_set(trim(trim_start_seq(head, "import"@)), false), ',')),
        None => Seq::empty(),
    }
}

/// The name an export item exports: the name after ` as `, else the item;
/// empty items and `from ...` bind nothing.
pub open spec fn export_item_name(item: Seq<char>) -> Option<Seq<char>> {
    let t = trim(item);
    let name = match split_once_str(t, " as "@) {
        Some((_, alias)) => trim(alias),
        None => t,
    };
    if name.len() == 0 || starts_with(name, "from "@) {
        None
    } else {
        Some(name)
    }
}

pub open spec fn collect_export_names(items: Seq<Seq<char>>) -> Seq<Seq<char>>
    decreases items.len(),
{
    if items.len() == 0 {
        Seq::empty()
    } else {
        collect_export_names(items.drop_last()) + match export_item_name(items.last()) {
            Some(a) => seq![a],
            None => Seq::empty(),
        }
    }
}

/// The names an `export` line exports: the declared name, else the listed names.
pub open spec fn spec_export_names(line: Seq<char>) -> Seq<Seq<char>> {
    match spec_export_name(line) {
        Some(n) => seq![n],
        None => collect_export_names(split_all(trim_set(trim(trim_start_seq(line, "export"@)), false), ',')),
    }
}

pub open spec fn char_seqs(v: Seq<Vec<char>>) -> Seq<Seq<char>> {
    v.map_values(|x: Vec<char>| x@)
}

fn import_item_alias_exec(item: &[char]) -> (r: Option<Vec<char>>)
    ensures
        match r {
            Some(v) => import_item_alias(item@) == Some(v@),
            None => import_item_alias(item@) is None,
        },
{
    let t = trimmed(item);
    if t.len() == 0 || starts_with_str(&t, "type ") {
        return None;
    }
    if let Some(rest) = strip_prefix_str(&t, "* as ") {
        return Some(trimmed(&rest));
    }
    match split_once_exec(&t, " as ") {
        Some((_, alias)) => Some(trimmed(&alias)),
        None => Some(trailing_word_exec(&t)),
    }
}

fn export_item_name_exec(item: &[char]) -> (r: Option<Vec<char>>)
    ensures
        match r {
            Some(v) => export_item_name(item@) == Some(v@),
            None => export_item_name(item@) is None,
        },
{
    let t = trimmed(item);
    let name = match split_once_exec(&t, " as ") {
        Some((_, alias)) => trimmed(&alias),
        None => t,
    };
    if name.len() == 0 || starts_with_str(&name, "from ") {
        None
    } else {
        Some(name)
    }
}

/// The local names an `import ... from` line binds.
pub fn import_aliases(line: &[char]) -> (r: Vec<Vec<char>>)
    ensures
        char_seqs(r@) == spec_import_aliases(line@),
{
    let mut out: Vec<Vec<char>> = Vec::new();
    match split_once_exec(line, " from ") {
        Some((head, _)) => {
            let a = trimmed_start_seq(&head, &chars_of("import"));
            let b = trimmed(&a);
            let c = trimmed_set(&b, false);
            let items = split_on(&c, ',');
            let ghost iv = items.deep_view();
            let mut i: usize = 0;
            assert(iv.take(0) =~= Seq::<Seq<char>>::empty());
            assert(char_seqs(out@) =~= Seq::<Seq<char>>::empty());
            while i < items.len()
                invariant
                    i <= items.len(),
                    iv == items.deep_view(),
                    char_seqs(out@) == collect_aliases(iv.take(i as int)),
                decreases items.len() - i,
            {
                assert(iv.take(i + 1).drop_last() =~= iv.take(i as int));
                assert(iv.take(i + 1).last() == items[i as int]@);
                let ghost before = out@;
                if let Some(al) = import_item_alias_exec(&items[i]) {
                    out.push(al);
                    assert(char_seqs(out@) =~= char_seqs(before).push(al@));
                } else {
                    assert(char_seqs(out@) =~= char_seqs(before));
                }
                assert(char_seqs(out@) =~= collect_aliases(iv.take(i + 1)));
                i += 1;
            }
            assert(iv.take(items.len() as int) =~= iv);
            out
        },
        None => {
            assert(char_seqs(out@) =~= Seq::<Seq<char>>::empty());
            out
        },
    }
}

/// The names an `export` line exports.
pub fn export_names(line: &[char]) -> (r: Vec<Vec<char>>)
    ensures
        char_seqs(r@) == spec_export_names(line@),
{
    let mut out: Vec<Vec<char>> = Vec::new();
    if let Some(n) = crate::ts_scanner::export_name(line) {
        out.push(n);
        assert(char_seqs(out@) =~= seq![out@[0]@]);
        return out;
    }
    let a = trimmed_start_seq(line, &chars_of("export"));
    let b = trimmed(&a);
    let c = trimmed_set(&b, false);
    let items = split_on(&c, ',');
    let ghost iv = items.deep_view();
    let mut i: usize = 0;
    assert(iv.take(0) =~= Seq::<Seq<char>>::empty());
    assert(char_seqs(out@) =~= Seq::<Seq<char>>::empty());
    while i < items.len()
        invariant
            i <= items.len(),
            iv == items.deep_view(),
            char_seqs(out@) == collect_export_names(iv.take(i as int)),
        decreases items.len() - i,
    {
        assert(iv.take(i + 1).drop_last() =~= iv.take(i as int));
        assert(iv.take(i + 1).last() == items[i as int]@);
        let ghost before = out@;
        if let Some(nm) = export_item_name_exec(&items[i]) {
            out.push(nm);
            assert(char_seqs(out@) =~= char_seqs(before).push(nm@));
        } else {
            assert(char_seqs(out@) =~= char_seqs(before));
        }
        assert(char_seqs(out@) =~= collect_export_names(iv.take(i + 1)));
        i += 1;
    }
    assert(iv.take(items.len() as int) =~= iv);
    out
}

/// `name` under `parent`, joined by `.`.
pub open spec fn qualify_dot(parent: Seq<char>, name: Seq<char>) -> Seq<char> {
    if parent.len() == 0 {
        name
    } else {
        parent + "."@ + name
    }
}

/// Whether nodes of this kind name a binding in a declarator pattern.
pub open spec fn is_ts_identifier_kind(k: Seq<char>) -> bool {
    k == "identifier"@ || k == "shorthand_property_identifier_pattern"@
}

/// The binding nodes at or under node `i`, in order, looking only through named
/// children.
pub open spec fn ts_identifiers(t: Seq<SyntaxNodeView>, i: int) -> Seq<int>
    decreases t.len() - i, 1int, 0int,
{
    if !(0 <= i < t.len()) {
        Seq::empty()
    } else if is_ts_identifier_kind(t[i].kind) {
        seq![i]
    } else {
        ts_identifiers_from(t, i, 0)
    }
}

pub open spec fn ts_identifiers_from(t: Seq<SyntaxNodeView>, i: int, k: int) -> Seq<int>
    decreases t.len() - i, 0int, t[i].child_count - k,
{
    if !(0 <= i < t.len()) || !children_follow(t, i) || !(0 <= k < t[i].child_count) {
        Seq::empty()
    } else {
        let c = t[i].first_child + k;
        (if t[c].named {
            ts_identifiers(t, c)
        } else {
            Seq::empty()
        }) + ts_identifiers_from(t, i, k + 1)
    }
}

/// The kind of symbol a scope-opening node declares, if it opens one.
pub open spec fn ts_scope_kind(k: Seq<char>) -> Option<SymbolKind> {
    if k == "class_declaration"@ {
        Some(SymbolKind::Class)
    } else if k == "function_declaration"@ || k == "generator_function_declaration"@ {
        Some(SymbolKind::Function)
    } else if k == "method_definition"@ || k == "method_signature"@ {
        Some(SymbolKind::Method)
    } else if k == "interface_declaration"@ {
        Some(SymbolKind::Interface)
    } else if k == "type_alias_declaration"@ {
        Some(SymbolKind::TypeAlias)
    } else if k == "enum_declaration"@ {
        Some(SymbolKind::Enum)
    } else {
        None
    }
}

/// The name a call goes to: an identifier, the property of a member or subscript
/// expression, or else the trimmed text after the callee's last `.`.
pub open spec fn ts_call_name(t: Seq<SyntaxNodeView>, f: int, src: Seq<char>) -> Option<Seq<char>> {
    if t[f].kind == "identifier"@ {
        node_text_spec(t, f, src)
    } else if t[f].kind == "member_expression"@ || t[f].kind == "subscript_expression"@ {
        field_text(t, f, "property"@, src)
    } else {
        non_empty_trimmed(
            match node_text_spec(t, f, src) {
                Some(x) => Some(after_last_dot(x)),
                None => None,
            },
        )
    }
}

/// The first child of node `i`, from the `k`-th on, of the given kind.
pub open spec fn child_of_kind_from(t: Seq<SyntaxNodeView>, i: int, kind: Seq<char>, k: int) -> Option<int>
    decreases t[i].child_count - k,
{
    if !(0 <= i < t.len()) || !children_follow(t, i) || !(0 <= k < t[i].child_count) {
        None
    } else if t[t[i].first_child + k].kind == kind {
        Some(t[i].first_child + k)
    } else {
        child_of_kind_from(t, i, kind, k + 1)
    }
}

/// The first child of node `i` of the given kind.
pub open spec fn child_of_kind(t: Seq<SyntaxNodeView>, i: int, kind: Seq<char>) -> Option<int> {
    child_of_kind_from(t, i, kind, 0)
}

/// The string a call passes first, without its quotes.
pub open spec fn literal_argument(t: Seq<SyntaxNodeView>, i: int, src: Seq<char>) -> Option<Seq<char>> {
    match child_of_kind(t, i, "arguments"@) {
        Some(a) => match child_of_kind(t, a, "string"@) {
            Some(s) => match node_text_spec(t, s, src) {
                Some(v) => Some(trim_set(v, true)),
                None => None,
            },
            None => None,
        },
        None => None,
    }
}

/// The name a decorator refers to: the identifier after its `@`.
pub open spec fn decorator_name(text: Seq<char>) -> Option<Seq<char>> {
    spec_read_identifier(trim(trim_start_char(text, '@')))
}

/// Whether a JSX element name stands for a component: it starts with an ASCII capital.
pub open spec fn is_component_name(name: Seq<char>) -> bool {
    name.len() > 0 && 'A' <= name[0] && name[0] <= 'Z'
}

/// The kind of a declared variable: a function when its value is an arrow
/// function or a function expression.
pub open spec fn ts_value_kind(value: Option<Seq<char>>) -> SymbolKind {
    match value {
        Some(v) => if contains_seq(v, "=>"@) || starts_with(v, "function"@) {
            SymbolKind::Function
        } else {
            SymbolKind::Variable
        },
        None => SymbolKind::Variable,
    }
}

/// The builder after adding a symbol of `kind` for each binding of a declarator.
pub open spec fn add_ts_vars(t: Seq<SyntaxNodeView>, ids: Seq<int>, src: Seq<char>, scope: Seq<char>, kind: SymbolKind, b: BuilderView) -> BuilderView
    decreases ids.len(),
{
    if ids.len() == 0 {
        b
    } else {
        let b1 = add_ts_vars(t, ids.drop_last(), src, scope, kind, b);
        let id = ids.last();
        match node_text_spec(t, id, src) {
            Some(name) => spec_add_symbol(b1, name, qualify_dot(scope, name), kind, spec_node_span(t[id])),
            None => b1,
        }
    }
}

/// The builder after importing `module` under each of `aliases`, in order.
pub open spec fn add_aliases(b: BuilderView, module: Seq<char>, aliases: Seq<Seq<char>>, span: SourceSpan) -> BuilderView
    decreases aliases.len(),
{
    if aliases.len() == 0 {
        b
    } else {
        spec_add_import_alias(add_aliases(b, module, aliases.drop_last(), span), module, aliases.last(), span)
    }
}

/// The builder after exporting each of `names`, in order.
pub open spec fn add_exports(b: BuilderView, names: Seq<Seq<char>>, span: SourceSpan) -> BuilderView
    decreases names.len(),
{
    if names.len() == 0 {
        b
    } else {
        spec_add_export(add_exports(b, names.drop_last(), span), names.last(), span)
    }
}

/// What an import or export statement adds: an import binds the module under each
/// local alias (or imports it plainly when it binds none); an export re-exports
/// the module it names, if any, and exports each of its names.
pub open spec fn spec_import_or_export(b: BuilderView, text: Seq<char>, span: SourceSpan) -> BuilderView {
    let t = trim(text);
    if starts_with(t, "import "@) {
        match spec_module_specifier(t) {
            Some(m) => if spec_import_aliases(t).len() == 0 {
                spec_add_import(b, m, span)
            } else {
                add_aliases(b, m, spec_import_aliases(t), span)
            },
            None => b,
        }
    } else if starts_with(t, "export "@) {
        let b1 = match spec_module_specifier(t) {
            Some(m) => spec_add_import(b, m, span),
            None => b,
        };
        add_exports(b1, spec_export_names(t), span)
    } else {
        b
    }
}

/// What a node that opens no scope adds before its children are visited.
pub open spec fn ts_effect(t: Seq<SyntaxNodeView>, i: int, src: Seq<char>, cur: ScopeView, b: BuilderView) -> BuilderView {
    let k = t[i].kind;
    let span = spec_node_span(t[i]);
    if k == "import_statement"@ || k == "export_statement"@ {
        match node_text_spec(t, i, src) {
            Some(x) => spec_import_or_export(b, x, span),
            None => b,
        }
    } else if k == "public_field_definition"@ || k == "field_definition"@ {
        match field_text(t, i, "name"@, src) {
            Some(name) => spec_add_symbol(
                b,
                name,
                qualify_dot(cur.qualified, name),
                if cur.kind == SymbolKind::Class { SymbolKind::Field } else { SymbolKind::Variable },
                span,
            ),
            None => b,
        }
    } else if k == "variable_declarator"@ {
        match field_child(t, i, "name"@) {
            Some(p) => add_ts_vars(t, ts_identifiers(t, p), src, cur.qualified, ts_value_kind(field_text(t, i, "value"@, src)), b),
            None => b,
        }
    } else if k == "call_expression"@ {
        match field_child(t, i, "function"@) {
            Some(f) => match ts_call_name(t, f, src) {
                Some(callee) => if callee == "import"@ {
                    match literal_argument(t, i, src) {
                        Some(m) => spec_add_import(b, m, span),
                        None => b,
                    }
                } else {
                    spec_add_link(b, EdgeKind::Calls, cur.node, callee, span)
                },
                None => b,
            },
            None => b,
        }
    } else if k == "new_expression"@ {
        match or_opt(field_child(t, i, "constructor"@), field_child(t, i, "function"@)) {
            Some(f) => match ts_call_name(t, f, src) {
                Some(callee) => spec_add_link(b, EdgeKind::Calls, cur.node, callee, span),
                None => b,
            },
            None => b,
        }
    } else if k == "jsx_opening_element"@ || k == "jsx_self_closing_element"@ {
        match field_text(t, i, "name"@, src) {
            Some(name) => if is_component_name(name) {
                spec_add_link(b, EdgeKind::References, cur.node, name, span)
            } else {
                b
            },
            None => b,
        }
    } else if k == "decorator"@ {
        match node_text_spec(t, i, src) {
            Some(x) => match decorator_name(x) {
                Some(name) => spec_add_link(b, EdgeKind::References, cur.node, name, span),
                None => b,
            },
            None => b,
        }
    } else {
        b
    }
}

/// The builder after the JS/TS visitor has walked node `i` under the scopes `sc`.
pub open spec fn ts_visit(t: Seq<SyntaxNodeView>, i: int, src: Seq<char>, sc: Seq<ScopeView>, b: BuilderView) -> BuilderView
    decreases t.len() - i, 1int, 0int,
{
    if !(0 <= i < t.len()) || !children_follow(t, i) || sc.len() == 0 {
        b
    } else {
        let span = spec_node_span(t[i]);
        let cur = sc.last();
        match ts_scope_kind(t[i].kind) {
            Some(kind) => match field_text(t, i, "name"@, src) {
                Some(name) => {
                    let q = qualify_dot(cur.qualified, name);
                    let s = ScopeView { node: symbol_id(b, name, q, kind, span), qualified: q, kind };
                    ts_children(t, i, 0, src, sc.push(s), spec_add_symbol(b, name, q, kind, span))
                },
                None => b,
            },
            None => ts_children(t, i, 0, src, sc, ts_effect(t, i, src, cur, b)),
        }
    }
}

/// The builder after the JS/TS visitor has walked the named children `k..` of `i`.
pub open spec fn ts_children(t: Seq<SyntaxNodeView>, i: int, k: int, src: Seq<char>, sc: Seq<ScopeView>, b: BuilderView) -> BuilderView
    decreases t.len() - i, 0int, t[i].child_count - k,
{
    if !(0 <= i < t.len()) || !children_follow(t, i) || !(0 <= k < t[i].child_count) {
        b
    } else {
        let c = t[i].first_child + k;
        let b1 = if t[c].named {
            ts_visit(t, c, src, sc, b)
        } else {
            b
        };
        ts_children(t, i, k + 1, src, sc, b1)
    }
}

pub(crate) fn qualify_dot_exec(parent: &String, name: &[char]) -> (r: String)
    ensures
        r@ == qualify_dot(parent@, name@),
{
    let p = chars_of(parent.as_str());
    if p.len() == 0 {
        string_from(name)
    } else {
        let with_sep = concat(&p, &chars_of("."));
        string_from(&concat(&with_sep, name))
    }
}

fn is_ts_identifier_node(n: &SyntaxNode) -> (r: bool)
    ensures
        r == is_ts_identifier_kind(n@.kind),
{
    kind_is(n, "identifier") || kind_is(n, "shorthand_property_identifier_pattern")
}

fn collect_ts_identifiers(tree: &SyntaxTree, i: usize, out: &mut Vec<usize>)
    requires
        tree_wf(tree@),
        i < tree@.len(),
    ensures
        as_ints(final(out)@) == as_ints(old(out)@) + ts_identifiers(tree@, i as int),
        forall|j: int| 0 <= j < final(out)@.len() ==> j < old(out)@.len() || final(out)@[j] < tree@.len(),
        forall|j: int| 0 <= j < old(out)@.len() ==> final(out)@[j] == old(out)@[j],
        final(out)@.len() >= old(out)@.len(),
    decreases tree@.len() - i,
{
    let ghost t = tree@;
    let n = &tree.nodes[i];
    assert(t[i as int] == n@);
    if is_ts_identifier_node(n) {
        let ghost before = out@;
        out.push(i);
        assert(as_ints(out@) =~= as_ints(before) + seq![i as int]);
        return;
    }
    assert(children_follow(t, i as int));
    let first = n.first_child;
    let count = n.child_count;
    let total = tree.nodes.len();
    let ghost start = out@;
    let mut k: usize = 0;
    while k < count
        invariant
            t == tree@,
            tree_wf(t),
            i < t.len(),
            total == t.len(),
            children_follow(t, i as int),
            !is_ts_identifier_kind(t[i as int].kind),
            first == t[i as int].first_child,
            count == t[i as int].child_count,
            k <= count,
            as_ints(out@) + ts_identifiers_from(t, i as int, k as int) == as_ints(start) + ts_identifiers_from(t, i as int, 0),
            forall|j: int| 0 <= j < out@.len() ==> j < start.len() || out@[j] < t.len(),
            forall|j: int| 0 <= j < start.len() ==> out@[j] == start[j],
            out@.len() >= start.len(),
        decreases count - k,
    {
        let c = first + k;
        let child = &tree.nodes[c];
        assert(t[c as int] == child@);
        let ghost before = as_ints(out@);
        let ghost here = if t[c as int].named { ts_identifiers(t, c as int) } else { Seq::empty() };
        if child.named {
            collect_ts_identifiers(tree, c, out);
        }
        assert(as_ints(out@) =~= before + here);
        assert(ts_identifiers_from(t, i as int, k as int) == here + ts_identifiers_from(t, i as int, k + 1));
        assert(before + here + ts_identifiers_from(t, i as int, k + 1) =~= before + (here + ts_identifiers_from(t, i as int, k + 1)));
        k += 1;
    }
    assert(ts_identifiers_from(t, i as int, count as int) =~= Seq::<int>::empty());
    assert(as_ints(out@) =~= as_ints(start) + ts_identifiers(t, i as int));
}

fn add_ts_vars_exec(tree: &SyntaxTree, ids: &Vec<usize>, src: &[char], scope: &String, kind: SymbolKind, builder: &mut PartitionBuilder)
    requires
        old(builder).wf(),
        encode_utf8(src@).len() <= usize::MAX,
        forall|j: int| 0 <= j < ids@.len() ==> ids@[j] < tree@.len(),
    ensures
        final(builder).wf(),
        final(builder)@ == add_ts_vars(tree@, as_ints(ids@), src@, scope@, kind, old(builder)@),
{
    let ghost start = builder@;
    let mut j: usize = 0;
    while j < ids.len()
        invariant
            j <= ids.len(),
            builder.wf(),
            encode_utf8(src@).len() <= usize::MAX,
            forall|x: int| 0 <= x < ids@.len() ==> ids@[x] < tree@.len(),
            builder@ == add_ts_vars(tree@, as_ints(ids@).take(j as int), src@, scope@, kind, start),
        decreases ids.len() - j,
    {
        let id = ids[j];
        assert(as_ints(ids@).take(j + 1).drop_last() =~= as_ints(ids@).take(j as int));
        assert(as_ints(ids@).take(j + 1).last() == id as int);
        if let Some(name) = node_text(tree, id, src) {
            let q = qualify_dot_exec(scope, &name);
            let ns = string_from(&name);
            let n = &tree.nodes[id];
            assert(tree@[id as int] == n@);
            builder.add_symbol(ns.as_str(), q.as_str(), kind, node_span(n));
        }
        j += 1;
    }
    assert(as_ints(ids@).take(ids.len() as int) =~= as_ints(ids@));
}

fn ts_scope_kind_exec(n: &SyntaxNode) -> (r: Option<SymbolKind>)
    ensures
        r == ts_scope_kind(n@.kind),
{
    if kind_is(n, "class_declaration") {
        Some(SymbolKind::Class)
    } else if kind_is(n, "function_declaration") || kind_is(n, "generator_function_declaration") {
        Some(SymbolKind::Function)
    } else if kind_is(n, "method_definition") || kind_is(n, "method_signature") {
        Some(SymbolKind::Method)
    } else if kind_is(n, "interface_declaration") {
        Some(SymbolKind::Interface)
    } else if kind_is(n, "type_alias_declaration") {
        Some(SymbolKind::TypeAlias)
    } else if kind_is(n, "enum_declaration") {
        Some(SymbolKind::Enum)
    } else {
        None
    }
}

fn call_name(tree: &SyntaxTree, f: usize, src: &[char]) -> (r: Option<Vec<char>>)
    requires
        tree_wf(tree@),
        f < tree@.len(),
        encode_utf8(src@).len() <= usize::MAX,
    ensures
        match r {
            Some(v) => ts_call_name(tree@, f as int, src@) == Some(v@),
            None => ts_call_name(tree@, f as int, src@) is None,
        },
{
    let n = &tree.nodes[f];
    assert(tree@[f as int] == n@);
    if kind_is(n, "identifier") {
        node_text(tree, f, src)
    } else if kind_is(n, "member_expression") || kind_is(n, "subscript_expression") {
        field_text_exec(tree, f, "property", src)
    } else {
        let tail = match node_text(tree, f, src) {
            Some(x) => Some(after_last_dot_chars(&x)),
            None => None,
        };
        non_empty_trimmed_exec(tail)
    }
}

fn child_of_kind_exec(tree: &SyntaxTree, i: usize, kind: &str) -> (r: Option<usize>)
    requires
        tree_wf(tree@),
        i < tree@.len(),
    ensures
        match r {
            Some(c) => child_of_kind(tree@, i as int, kind@) == Some(c as int) && i < c < tree@.len(),
            None => child_of_kind(tree@, i as int, kind@) is None,
        },
{
    let ghost t = tree@;
    let n = &tree.nodes[i];
    assert(t[i as int] == n@);
    assert(children_follow(t, i as int));
    let first = n.first_child;
    let count = n.child_count;
    let total = tree.nodes.len();
    let mut k: usize = 0;
    while k < count
        invariant
            t == tree@,
            i < t.len(),
            total == t.len(),
            children_follow(t, i as int),
            first == t[i as int].first_child,
            count == t[i as int].child_count,
            k <= count,
            child_of_kind_from(t, i as int, kind@, k as int) == child_of_kind(t, i as int, kind@),
        decreases count - k,
    {
        let c = first + k;
        let child = &tree.nodes[c];
        assert(t[c as int] == child@);
        if kind_is(child, kind) {
            return Some(c);
        }
        k += 1;
    }
    None
}

fn literal_argument_exec(tree: &SyntaxTree, i: usize, src: &[char]) -> (r: Option<Vec<char>>)
    requires
        tree_wf(tree@),
        i < tree@.len(),
        encode_utf8(src@).len() <= usize::MAX,
    ensures
        match r {
            Some(v) => literal_argument(tree@, i as int, src@) == Some(v@),
            None => literal_argument(tree@, i as int, src@) is None,
        },
{
    match child_of_kind_exec(tree, i, "arguments") {
        Some(a) => match child_of_kind_exec(tree, a, "string") {
            Some(s) => match node_text(tree, s, src) {
                Some(v) => Some(trimmed_set(&v, true)),
                None => None,
            },
            None => None,
        },
        None => None,
    }
}

fn decorator_name_exec(text: &[char]) -> (r: Option<Vec<char>>)
    ensures
        match r {
            Some(v) => decorator_name(text@) == Some(v@),
            None => decorator_name(text@) is None,
        },
{
    let a = trimmed_start_char(text, '@');
    let b = trimmed(&a);
    read_identifier_chars(&b)
}

fn ts_value_kind_exec(value: &Option<Vec<char>>) -> (r: SymbolKind)
    ensures
        r == ts_value_kind(match value { Some(v) => Some(v@), None => None }),
{
    match value {
        Some(v) => if contains_str(v, "=>") || starts_with_str(v, "function") {
            SymbolKind::Function
        } else {
            SymbolKind::Variable
        },
        None => SymbolKind::Variable,
    }
}

fn add_aliases_exec(builder: &mut PartitionBuilder, module: &String, aliases: &Vec<Vec<char>>, span: SourceSpan)
    requires
        old(builder).wf(),
    ensures
        final(builder).wf(),
        final(builder)@ == add_aliases(old(builder)@, module@, char_seqs(aliases@), span),
{
    let ghost start = builder@;
    let ghost av = char_seqs(aliases@);
    let mut j: usize = 0;
    while j < aliases.len()
        invariant
            j <= aliases.len(),
            builder.wf(),
            av == char_seqs(aliases@),
            builder@ == add_aliases(start, module@, av.take(j as int), span),
        decreases aliases.len() - j,
    {
        assert(av.take(j + 1).drop_last() =~= av.take(j as int));
        assert(av.take(j + 1).last() == aliases@[j as int]@);
        let a = string_from(&aliases[j]);
        builder.add_import_alias(module.as_str(), a.as_str(), span);
        j += 1;
    }
    assert(av.take(aliases.len() as int) =~= av);
}

fn add_exports_exec(builder: &mut PartitionBuilder, names: &Vec<Vec<char>>, span: SourceSpan)
    requires
        old(builder).wf(),
    ensures
        final(builder).wf(),
        final(builder)@ == add_exports(old(builder)@, char_seqs(names@), span),
{
    let ghost start = builder@;
    let ghost nv = char_seqs(names@);
    let mut j: usize = 0;
    while j < names.len()
        invariant
            j <= names.len(),
            builder.wf(),
            nv == char_seqs(names@),
            builder@ == add_exports(start, nv.take(j as int), span),
        decreases names.len() - j,
    {
        assert(nv.take(j + 1).drop_last() =~= nv.take(j as int));
        assert(nv.take(j + 1).last() == names@[j as int]@);
        let a = string_from(&names[j]);
        builder.add_export(a.as_str(), span);
        j += 1;
    }
    assert(nv.take(names.len() as int) =~= nv);
}

fn add_import_or_export(builder: &mut PartitionBuilder, text: &[char], span: SourceSpan)
    requires
        old(builder).wf(),
    ensures
        final(builder).wf(),
        final(builder)@ == spec_import_or_export(old(builder)@, text@, span),
{
    let t = trimmed(text);
    if starts_with_str(&t, "import ") {
        if let Some(m) = crate::ts_scanner::module_specifier(&t) {
            let ms = string_from(&m);
            let aliases = import_aliases(&t);
            if aliases.len() == 0 {
                builder.add_import(ms.as_str(), span);
            } else {
                add_aliases_exec(builder, &ms, &aliases, span);
            }
        }
    } else if starts_with_str(&t, "export ") {
        if let Some(m) = crate::ts_scanner::module_specifier(&t) {
            let ms = string_from(&m);
            builder.add_import(ms.as_str(), span);
        }
        let names = export_names(&t);
        add_exports_exec(builder, &names, span);
    }
}

fn ts_effect_exec(tree: &SyntaxTree, i: usize, src: &[char], cur: &Scope, builder: &mut PartitionBuilder)
    requires
        tree_wf(tree@),
        i < tree@.len(),
        encode_utf8(src@).len() <= usize::MAX,
        old(builder).wf(),
    ensures
        final(builder).wf(),
        final(builder)@ == ts_effect(tree@, i as int, src@, cur@, old(builder)@),
{
    let n = &tree.nodes[i];
    assert(tree@[i as int] == n@);
    let span = node_span(n);
    if kind_is(n, "import_statement") || kind_is(n, "export_statement") {
        if let Some(text) = node_text(tree, i, src) {
            add_import_or_export(builder, &text, span);
        }
    } else if kind_is(n, "public_field_definition") || kind_is(n, "field_definition") {
        if let Some(name) = field_text_exec(tree, i, "name", src) {
            let q = qualify_dot_exec(&cur.qualified_name, &name);
            let ns = string_from(&name);
            let kind = if cur.kind == SymbolKind::Class { SymbolKind::Field } else { SymbolKind::Variable };
            builder.add_symbol(ns.as_str(), q.as_str(), kind, span);
        }
    } else if kind_is(n, "variable_declarator") {
        if let Some(p) = child_by_field_name(tree, i, "name") {
            let mut ids: Vec<usize> = Vec::new();
            collect_ts_identifiers(tree, p, &mut ids);
            assert(as_ints(Seq::<usize>::empty()) =~= Seq::<int>::empty());
            assert(as_ints(ids@) =~= ts_identifiers(tree@, p as int));
            let value = field_text_exec(tree, i, "value", src);
            let kind = ts_value_kind_exec(&value);
            add_ts_vars_exec(tree, &ids, src, &cur.qualified_name, kind, builder);
        }
    } else if kind_is(n, "call_expression") {
        if let Some(f) = child_by_field_name(tree, i, "function") {
            if let Some(callee) = call_name(tree, f, src) {
                if crate::text::text_is(&callee, "import") {
                    if let Some(m) = literal_argument_exec(tree, i, src) {
                        let ms = string_from(&m);
                        builder.add_import(ms.as_str(), span);
                    }
                } else {
                    let cs = string_from(&callee);
                    builder.add_call(&cur.node, cs.as_str(), span);
                }
            }
        }
    } else if kind_is(n, "new_expression") {
        let target = match child_by_field_name(tree, i, "constructor") {
            Some(c) => Some(c),
            None => child_by_field_name(tree, i, "function"),
        };
        if let Some(f) = target {
            if let Some(callee) = call_name(tree, f, src) {
                let cs = string_from(&callee);
                builder.add_call(&cur.node, cs.as_str(), span);
            }
        }
    } else if kind_is(n, "jsx_opening_element") || kind_is(n, "jsx_self_closing_element") {
        if let Some(name) = field_text_exec(tree, i, "name", src) {
            if name.len() > 0 && 'A' <= name[0] && name[0] <= 'Z' {
                let ns = string_from(&name);
                builder.add_reference(&cur.node, ns.as_str(), span);
            }
        }
    } else if kind_is(n, "decorator") {
        if let Some(text) = node_text(tree, i, src) {
            if let Some(name) = decorator_name_exec(&text) {
                let ns = string_from(&name);
                builder.add_reference(&cur.node, ns.as_str(), span);
            }
        }
    }
}

fn visit_node(tree: &SyntaxTree, i: usize, src: &[char], builder: &mut PartitionBuilder, scopes: &mut Vec<Scope>)
    requires
        tree_wf(tree@),
        i < tree@.len(),
        encode_utf8(src@).len() <= usize::MAX,
        old(builder).wf(),
        old(scopes)@.len() >= 1,
    ensures
        final(builder).wf(),
        scope_views(final(scopes)@) == scope_views(old(scopes)@),
        final(builder)@ == ts_visit(tree@, i as int, src@, scope_views(old(scopes)@), old(builder)@),
    decreases tree@.len() - i, 1int,
{
    let ghost t = tree@;
    let ghost sc = scope_views(scopes@);
    let n = &tree.nodes[i];
    assert(t[i as int] == n@);
    assert(children_follow(t, i as int));
    let span = node_span(n);
    let last = scopes.len() - 1;
    assert(sc.last() == scopes@[last as int]@);
    match ts_scope_kind_exec(n) {
        Some(kind) => {
            if let Some(name) = field_text_exec(tree, i, "name", src) {
                let q = qualify_dot_exec(&scopes[last].qualified_name, &name);
                let ns = string_from(&name);
                let id = builder.add_symbol(ns.as_str(), q.as_str(), kind, span);
                let ghost before = scopes@;
                scopes.push(Scope { node: id, qualified_name: q, kind });
                assert(scope_views(scopes@) =~= sc.push(scopes@[before.len() as int]@));
                visit_children(tree, i, src, builder, scopes);
                let ghost pre_pop = scopes@;
                scopes.pop();
                assert(scope_views(scopes@) =~= scope_views(pre_pop).drop_last());
                assert(scope_views(scopes@) =~= sc);
            }
        },
        None => {
            ts_effect_exec(tree, i, src, &scopes[last], builder);
            visit_children(tree, i, src, builder, scopes);
        },
    }
}

fn visit_children(tree: &SyntaxTree, i: usize, src: &[char], builder: &mut PartitionBuilder, scopes: &mut Vec<Scope>)
    requires
        tree_wf(tree@),
        i < tree@.len(),
        encode_utf8(src@).len() <= usize::MAX,
        old(builder).wf(),
        old(scopes)@.len() >= 1,
    ensures
        final(builder).wf(),
        scope_views(final(scopes)@) == scope_views(old(scopes)@),
        final(builder)@ == ts_children(tree@, i as int, 0, src@, scope_views(old(scopes)@), old(builder)@),
    decreases tree@.len() - i, 0int,
{
    let ghost t = tree@;
    let ghost sc = scope_views(scopes@);
    let ghost b0 = builder@;
    let n = &tree.nodes[i];
    assert(t[i as int] == n@);
    assert(children_follow(t, i as int));
    let first = n.first_child;
    let count = n.child_count;
    let total = tree.nodes.len();
    let mut k: usize = 0;
    while k < count
        invariant
            t == tree@,
            tree_wf(t),
            i < t.len(),
            total == t.len(),
            children_follow(t, i as int),
            first == t[i as int].first_child,
            count == t[i as int].child_count,
            encode_utf8(src@).len() <= usize::MAX,
            k <= count,
            builder.wf(),
            scopes@.len() >= 1,
            scope_views(scopes@) == sc,
            ts_children(t, i as int, k as int, src@, sc, builder@) == ts_children(t, i as int, 0, src@, sc, b0),
        decreases count - k,
    {
        let c = first + k;
        let child = &tree.nodes[c];
        assert(t[c as int] == child@);
        if child.named {
            visit_node(tree, c, src, builder, scopes);
        }
        k += 1;
    }
}

/// The partition the JS/TS tree visitor builds from a parsed tree: the file's
/// module symbol first, then the symbols, imports, exports, calls and references
/// under it, resolved.
pub open spec fn spec_ts_tree_partition(file: SourceFile, t: Seq<SyntaxNodeView>, diagnostics: Seq<crate::diagnostics::DiagnosticView>, parse_time_micros: u64) -> PartitionView {
    let b0 = crate::helpers::spec_add_diagnostics(spec_new_builder(file, FactProvenance::TreeSitter, Confidence::High), diagnostics);
    let module_name = match crate::paths::spec_file_stem(file.path@) {
        Some(stem) => stem,
        None => "module"@,
    };
    let span = spec_node_span(t[0]);
    let b1 = spec_add_symbol(b0, module_name, module_name, SymbolKind::Module, span);
    let scope = ScopeView { node: symbol_id(b0, module_name, module_name, SymbolKind::Module, span), qualified: module_name, kind: SymbolKind::Module };
    let p = crate::resolve::spec_resolve(ts_visit(t, 0, file.text@, seq![scope], b1).partition);
    PartitionView { metrics: crate::model::PartitionMetrics { parse_time_micros, ..p.metrics }, ..p }
}

/// Builds the partition of a JavaScript or TypeScript file from its parsed tree.
pub fn ts_tree_partition(file: &SourceFile, report: crate::syntax::ParseReport) -> (r: GraphPartition)
    requires
        tree_wf(report.tree@),
    ensures
        r@ == spec_ts_tree_partition(*file, report.tree@, crate::model::diagnostic_views(report.diagnostics@), report.parse_time_micros),
{
    let src = chars_of(file.text.as_str());
    let _bytes = file.text.as_str().as_bytes().len();
    let mut builder = PartitionBuilder::new_with_quality(file, FactProvenance::TreeSitter, Confidence::High);
    let crate::syntax::ParseReport { tree, diagnostics, parse_time_micros } = report;
    builder.add_diagnostics(diagnostics);
    let module_name = match crate::paths::file_stem_of(&chars_of(file.path.as_str())) {
        Some(stem) => string_from(&stem),
        None => String::from_str("module"),
    };
    let root = &tree.nodes[0];
    assert(tree@[0] == root@);
    let id = builder.add_symbol(module_name.as_str(), module_name.as_str(), SymbolKind::Module, node_span(root));
    let mut scopes: Vec<Scope> = Vec::new();
    scopes.push(Scope { node: id, qualified_name: module_name, kind: SymbolKind::Module });
    assert(scope_views(scopes@) =~= seq![scopes@[0]@]);
    visit_node(&tree, 0, &src, &mut builder, &mut scopes);
    let mut partition = crate::resolve::resolve_partition(builder.finish());
    partition.metrics.parse_time_micros = parse_time_micros;
    partition
}

/// The grammar a JavaScript or TypeScript file is parsed with.
#[derive(Clone, Copy, Debug, PartialEq, Eq, Structural)]
pub enum ScriptGrammar {
    JavaScript,
    TypeScript,
    Tsx,
}

/// JavaScript files take the JavaScript grammar; `.tsx` and `.jsx` files take the
/// TSX grammar; the rest take the TypeScript grammar.
pub open spec fn spec_grammar_for_path(path: Seq<char>, language: Language) -> ScriptGrammar {
    if language == Language::JavaScript {
        ScriptGrammar::JavaScript
    } else {
        match spec_extension(path) {
            Some(e) => if e == "tsx"@ || e == "jsx"@ {
                ScriptGrammar::Tsx
            } else {
                ScriptGrammar::TypeScript
            },
            None => ScriptGrammar::TypeScript,
        }
    }
}

/// The grammar for a file at `path` detected as `language`.
pub fn grammar_for_path(path: &str, language: Language) -> (r: ScriptGrammar)
    ensures
        r == spec_grammar_for_path(path@, language),
{
    if language == Language::JavaScript {
        return ScriptGrammar::JavaScript;
    }
    match extension_of(&chars_of(path)) {
        Some(e) => if text_is(&e, "tsx") || text_is(&e, "jsx") {
            ScriptGrammar::Tsx
        } else {
            ScriptGrammar::TypeScript
        },
        None => ScriptGrammar::TypeScript,
    }
}

/// What a JS/TS extraction gives when the parse was skipped with `message`: the
/// line scanner's partition when falling back, else an empty one, with the warning.
pub open spec fn ts_skipped(file: SourceFile, fallback: bool, message: Seq<char>) -> PartitionView {
    let d = crate::syntax::skip_diagnostic_view(message, file.file_id@);
    if fallback {
        crate::syntax::with_diagnostic(spec_scanner_extract_typescript(file), d)
    } else {
        crate::syntax::with_diagnostic(crate::syntax::empty_partition_view(file), d)
    }
}

/// Whether `p` is what the JS/TS tree visitor builds from the parse of `file` in
/// the grammar its path and language call for, with that parse's syntax
/// diagnostics.
pub open spec fn is_ts_tree_outcome(file: SourceFile, p: PartitionView) -> bool {
    exists|t: Seq<SyntaxNodeView>, micros: u64|
        tree_wf(t) && crate::syntax::represents(
            t,
            crate::syntax::parse_tree(script_grammar_id(spec_grammar_for_path(file.path@, file.language)), file.text@),
        ) && p == #[trigger] spec_ts_tree_partition(
            file,
            t,
            crate::syntax::spec_parse_diagnostics(t, file.text@, file.file_id@),
            micros,
        )
}

/// What a tree-sitter extraction of a JS/TS file may give: a file over the size
/// limit is skipped with its size; otherwise the partition comes from a parse, or
/// the parse ran out of its time limit `timeout` (none when it is zero), or the
/// grammar was refused.
pub open spec fn ts_tree_sitter_outcome_within(file: SourceFile, limit: usize, timeout: u64, fallback: bool, p: PartitionView) -> bool {
    let len = encode_utf8(file.text@).len();
    &&& len > limit ==> p == ts_skipped(
        file,
        fallback,
        crate::syntax::skip_message_of("JS/TS"@, 0, len, limit as nat, Seq::empty()),
    )
    &&& len <= limit ==> {
        ||| is_ts_tree_outcome(file, p)
        ||| timeout != 0 && p == ts_skipped(file, fallback, crate::syntax::skip_message_of("JS/TS"@, 1, 0, 0, Seq::empty()))
        ||| exists|e: Seq<char>| p == ts_skipped(file, fallback, crate::syntax::skip_message_of("JS/TS"@, 2, 0, 0, e))
    }
}

/// The same, under the default size limit.
pub open spec fn ts_tree_sitter_outcome(file: SourceFile, fallback: bool, p: PartitionView) -> bool {
    ts_tree_sitter_outcome_within(file, crate::syntax::DEFAULT_MAX_FILE_BYTES, crate::syntax::DEFAULT_PARSE_TIMEOUT_MICROS, fallback, p)
}

/// The grammar id of each script grammar.
pub open spec fn script_grammar_id(grammar: ScriptGrammar) -> crate::syntax::GrammarId {
    match grammar {
        ScriptGrammar::JavaScript => crate::syntax::GrammarId::JavaScript,
        ScriptGrammar::TypeScript => crate::syntax::GrammarId::TypeScript,
        ScriptGrammar::Tsx => crate::syntax::GrammarId::Tsx,
    }
}

fn grammar_language(grammar: ScriptGrammar) -> (r: crate::syntax::GrammarId)
    ensures
        r == script_grammar_id(grammar),
{
    match grammar {
        ScriptGrammar::JavaScript => crate::syntax::GrammarId::JavaScript,
        ScriptGrammar::TypeScript => crate::syntax::GrammarId::TypeScript,
        ScriptGrammar::Tsx => crate::syntax::GrammarId::Tsx,
    }
}

/// Extracts a JavaScript or TypeScript file with tree-sitter, in the grammar its
/// path and language call for. A file over the size limit, a parse that runs out
/// of time or a grammar the parser refuses is skipped with a warning: with
/// `fallback`, onto the line scanner's partition, else onto an empty one.
pub fn tree_sitter_extract_typescript(file: &SourceFile, limits: crate::syntax::ParseLimits, fallback: bool) -> (r: GraphPartition)
    requires
        text_fits(file.text@),
    ensures
        ts_tree_sitter_outcome_within(*file, limits.max_file_bytes, limits.parse_timeout_micros, fallback, r@),
{
    let grammar = grammar_for_path(file.path.as_str(), file.language);
    let pool = crate::syntax::ParserPool::new(grammar_language(grammar));
    match pool.parse(file.text.as_str(), &file.file_id, limits) {
        Ok(report) => {
            let ghost t = report.tree@;
            let ghost micros = report.parse_time_micros;
            let r = ts_tree_partition(file, report);
            assert(tree_wf(t) && crate::syntax::represents(t, crate::syntax::parse_tree(pool.grammar, file.text@)) && r@ == spec_ts_tree_partition(*file, t, crate::syntax::spec_parse_diagnostics(t, file.text@, file.file_id@), micros));
            r
        },
        Err(skip) => {
            let base = if fallback {
                scanner_extract_typescript(file)
            } else {
                GraphPartition::empty(file)
            };
            proof {
                if !fallback {
                    assert(base@.nodes =~= Seq::<crate::model::NodeView>::empty());
                    assert(base@.edges =~= Seq::<crate::model::EdgeView>::empty());
                    assert(base@.diagnostics =~= Seq::<crate::diagnostics::DiagnosticView>::empty());
                }
            }
            let ghost sk = skip;
            let r = crate::syntax::partition_with_skip(base, skip, file, "JS/TS");
            proof {
                match sk {
                    crate::syntax::ParseSkip::Parser(e) => {
                        assert(r@ == ts_skipped(*file, fallback, crate::syntax::skip_message_of("JS/TS"@, 2, 0, 0, e@)));
                    },
                    _ => {},
                }
            }
            r
        },
    }
}

/// Extracts a JavaScript or TypeScript file the way `mode` asks: the line scanner
/// alone, tree-sitter alone, or tree-sitter falling back to the scanner.
pub fn extract_typescript_with_options(file: &SourceFile, options: crate::syntax::ExtractionOptions, mode: crate::syntax::ExtractionMode) -> (r: GraphPartition)
    requires
        text_fits(file.text@),
    ensures
        match mode {
            crate::syntax::ExtractionMode::ScannerOnly => r@ == spec_scanner_extract_typescript(*file),
            crate::syntax::ExtractionMode::TreeSitterOnly => ts_tree_sitter_outcome_within(*file, options.parse_limits.max_file_bytes, options.parse_limits.parse_timeout_micros, false, r@),
            _ => ts_tree_sitter_outcome_within(*file, options.parse_limits.max_file_bytes, options.parse_limits.parse_timeout_micros, true, r@),
        },
{
    match mode {
        crate::syntax::ExtractionMode::ScannerOnly => scanner_extract_typescript(file),
        crate::syntax::ExtractionMode::TreeSitterOnly => tree_sitter_extract_typescript(file, options.parse_limits, false),
        _ => tree_sitter_extract_typescript(file, options.parse_limits, true),
    }
}

/// Extracts a JavaScript or TypeScript file in the default mode: tree-sitter,
/// falling back to the line scanner.
pub fn extract_typescript(file: &SourceFile) -> (r: GraphPartition)
    requires
        text_fits(file.text@),
    ensures
        ts_tree_sitter_outcome(*file, true, r@),
{
    extract_typescript_with_options(file, crate::syntax::ExtractionOptions::default(), crate::syntax::ExtractionMode::TreeSitterWithFallback)
}

} // verus!
