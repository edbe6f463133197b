use crate::helpers::{
    first_identifier_after_chars, line_span_of, spec_add_import, spec_add_link, spec_add_symbol,
    spec_first_identifier_after, spec_line_span, spec_new_builder, symbol_id, import_id,
    BuilderView, PartitionBuilder, call_identifiers_chars, spec_call_identifiers,
};
use crate::ids::NodeId;
use crate::model::{EdgeKind, GraphPartition, PartitionView, SourceFile, SymbolKind};
use crate::quality::{Confidence, FactProvenance};
use crate::text::{
    chars_of, index_of, is_ws, lines, lines_of, read_identifier_chars, spec_read_identifier,
    split_once, string_from, trim, trimmed,
};
use vstd::prelude::*;

verus! {

/// Texts that the scanners index: short enough for `u32` offsets and `usize` sums.
pub open spec fn text_fits(text: Seq<char>) -> bool {
    text.len() < u32::MAX && 8 * text.len() + 8 <= usize::MAX
}

/// Whether `text` is short enough for the scanners to index.
pub fn fits_text(text: &str) -> (r: bool)
    ensures
        r == text_fits(text@),
{
    let n = chars_of(text).len();
    let bound: usize = (usize::MAX - 8) / 8;
    assert(n <= bound <==> 8 * n + 8 <= usize::MAX) by (nonlinear_arith)
        requires
            bound == (usize::MAX - 8) / 8,
            usize::MAX >= 8,
    ;
    n < 0xffff_ffffusize && n <= bound
}

/// Number of whitespace characters at the start of `s`.
pub open spec fn leading_ws(s: Seq<char>) -> nat
    decreases s.len(),
{
    if s.len() > 0 && is_ws(s[0]) {
        1 + leading_ws(s.drop_first())
    } else {
        0
    }
}

/// `name` under `parent`, joined by a dot unless the parent is empty.
pub open spec fn qualify_dot(parent: Seq<char>, name: Seq<char>) -> Seq<char> {
    if parent.len() == 0 {
        name
    } else {
        parent + seq!['.'] + name
    }
}

/// The module a Python import line names.
pub open spec fn spec_import_module(line: Seq<char>) -> Option<Seq<char>> {
    match spec_first_identifier_after(line, "import "@) {
        Some(m) => Some(m),
        None => spec_first_identifier_after(line, "from "@),
    }
}

/// A variable assigned at the start of a line.
pub open spec fn spec_assignment_symbol(line: Seq<char>) -> Option<Seq<char>> {
    match index_of(line, '=') {
        Some(k) => spec_read_identifier(trim(line.take(k))),
        None => None,
    }
}

/// The symbol a Python line declares, with its kind.
pub open spec fn spec_symbol_declaration(line: Seq<char>) -> Option<(Seq<char>, SymbolKind)> {
    match spec_first_identifier_after(line, "async def "@) {
        Some(n) => Some((n, SymbolKind::Function)),
        None => match spec_first_identifier_after(line, "def "@) {
            Some(n) => Some((n, SymbolKind::Function)),
            None => match spec_first_identifier_after(line, "class "@) {
                Some(n) => Some((n, SymbolKind::Class)),
                None => match spec_assignment_symbol(line) {
                    Some(n) => Some((n, SymbolKind::Variable)),
                    None => None,
                },
            },
        },
    }
}

/// A Python scope: its indentation, qualified name and node id.
pub type ScopeView = (int, Seq<char>, Seq<char>);

/// The scopes after leaving every scope (but the outermost) that a line indented by
/// `indent` closes.
pub open spec fn pop_scopes(scopes: Seq<ScopeView>, indent: int) -> Seq<ScopeView>
    decreases scopes.len(),
{
    if scopes.len() > 1 && indent <= scopes.last().0 {
        pop_scopes(scopes.drop_last(), indent)
    } else {
        scopes
    }
}

/// The builder after adding a call from `caller` to each name, in order.
pub open spec fn add_calls(b: BuilderView, caller: Seq<char>, names: Seq<Seq<char>>, span: crate::span::SourceSpan) -> BuilderView
    decreases names.len(),
{
    if names.len() == 0 {
        b
    } else {
        crate::helpers::spec_add_link(add_calls(b, caller, names.drop_last(), span), EdgeKind::Calls, caller, names.last(), span)
    }
}

/// One line of the Python scanner: imports open a scope named after the module,
/// declarations open a scope named after the symbol, other lines call names.
pub open spec fn python_step(
    state: (BuilderView, Seq<ScopeView>),
    text: Seq<char>,
    index: int,
    line: Seq<char>,
) -> (BuilderView, Seq<ScopeView>) {
    let trimmed = trim(line);
    if trimmed.len() == 0 || trimmed[0] == '#' {
        state
    } else {
        let indent = leading_ws(line) as int;
        let scopes = pop_scopes(state.1, indent);
        let span = spec_line_span(text, index);
        let b = state.0;
        match spec_import_module(trimmed) {
            Some(module) => {
                let b1 = spec_add_import(b, module, span);
                let id = import_id(b, module, span);
                let b2 = spec_add_link(b1, EdgeKind::References, scopes.last().2, module, span);
                (b2, scopes.push((indent + 1, module, id)))
            },
            None => match spec_symbol_declaration(trimmed) {
                Some((name, kind)) => {
                    let qualified = qualify_dot(scopes.last().1, name);
                    let b1 = spec_add_symbol(b, name, qualified, kind, span);
                    (b1, scopes.push((indent, qualified, symbol_id(b, name, qualified, kind, span))))
                },
                None => (add_calls(b, scopes.last().2, spec_call_identifiers(trimmed), span), scopes),
            },
        }
    }
}

/// The scanner state after the first `k` lines of `text`.
pub open spec fn python_fold(file: SourceFile, k: int) -> (BuilderView, Seq<ScopeView>)
    decreases k,
{
    if k <= 0 {
        let b = spec_new_builder(file, FactProvenance::StructuralScanner, Confidence::Medium);
        (b, seq![(0int, Seq::<char>::empty(), b.file_node)])
    } else {
        python_step(python_fold(file, k - 1), file.text@, k - 1, lines(file.text@)[k - 1])
    }
}

/// The partition the Python scanner builds for `file`.
pub open spec fn spec_scanner_extract_python(file: SourceFile) -> PartitionView {
    python_fold(file, lines(file.text@).len() as int).0.partition
}

fn leading_ws_count(s: &[char]) -> (r: usize)
    ensures
        r == leading_ws(s@),
        r <= s.len(),
{
    let mut i: usize = 0;
    assert(s@.skip(0) =~= s@);
    while i < s.len() && crate::text::is_whitespace(s[i])
        invariant
            i <= s.len(),
            leading_ws(s@) == i + leading_ws(s@.skip(i as int)),
        decreases s.len() - i,
    {
        assert(s@.skip(i as int).drop_first() =~= s@.skip(i + 1));
        i += 1;
    }
    assert(i < s.len() ==> s@.skip(i as int)[0] == s@[i as int]);
    i
}

fn qualify_dot_chars(parent: &[char], name: &[char]) -> (r: Vec<char>)
    ensures
        r@ == qualify_dot(parent@, name@),
{
    if parent.len() == 0 {
        crate::text::slice(name, 0, name.len())
    } else {
        let mut p = crate::text::slice(parent, 0, parent.len());
        p.push('.');
        crate::text::concat(&p, name)
    }
}

fn import_module(line: &[char]) -> (r: Option<Vec<char>>)
    ensures
        match r {
            Some(v) => spec_import_module(line@) == Some(v@),
            None => spec_import_module(line@) is None,
        },
{
    match first_identifier_after_chars(line, "import ") {
        Some(m) => Some(m),
        None => first_identifier_after_chars(line, "from "),
    }
}

fn assignment_symbol(line: &[char]) -> (r: Option<Vec<char>>)
    ensures
        match r {
            Some(v) => spec_assignment_symbol(line@) == Some(v@),
            None => spec_assignment_symbol(line@) is None,
        },
{
    match split_once(line, '=') {
        Some((before, _after)) => {
            let t = trimmed(&before);
            read_identifier_chars(&t)
        },
        None => None,
    }
}

fn symbol_declaration(line: &[char]) -> (r: Option<(Vec<char>, SymbolKind)>)
    ensures
        match r {
            Some((v, k)) => spec_symbol_declaration(line@) == Some((v@, k)),
            None => spec_symbol_declaration(line@) is None,
        },
{
    match first_identifier_after_chars(line, "async def ") {
        Some(n) => return Some((n, SymbolKind::Function)),
        None => {},
    }
    match first_identifier_after_chars(line, "def ") {
        Some(n) => return Some((n, SymbolKind::Function)),
        None => {},
    }
    match first_identifier_after_chars(line, "class ") {
        Some(n) => return Some((n, SymbolKind::Class)),
        None => {},
    }
    match assignment_symbol(line) {
        Some(n) => Some((n, SymbolKind::Variable)),
        None => None,
    }
}

struct Scope {
    indent: usize,
    qualified: Vec<char>,
    node: NodeId,
}

spec fn scope_views(s: Seq<Scope>) -> Seq<ScopeView> {
    s.map_values(|x: Scope| (x.indent as int, x.qualified@, x.node@))
}

/// Adds a call from `caller` to each name, in order.
pub fn add_calls_exec(
    builder: &mut PartitionBuilder,
    caller: &NodeId,
    calls: &Vec<Vec<char>>,
    span: crate::span::SourceSpan,
)
    requires
        old(builder).wf(),
    ensures
        final(builder).wf(),
        final(builder)@ == add_calls(old(builder)@, caller@, calls.deep_view(), span),
{
    let ghost b0 = builder@;
    let mut ci: usize = 0;
    while ci < calls.len()
        invariant
            ci <= calls.len(),
            builder.wf(),
            builder@ == add_calls(b0, caller@, calls.deep_view().take(ci as int), span),
        decreases calls.len() - ci,
    {
        let cs = string_from(&calls[ci]);
        assert(calls.deep_view()[ci as int] =~= cs@);
        builder.add_call(caller, cs.as_str(), span);
        ci += 1;
        assert(calls.deep_view().take(ci as int).drop_last() =~= calls.deep_view().take(ci - 1));
    }
    assert(calls.deep_view().take(calls.len() as int) =~= calls.deep_view());
}

fn python_line(
    builder: &mut PartitionBuilder,
    scopes: &mut Vec<Scope>,
    text: &Vec<char>,
    li: usize,
    line: &Vec<char>,
)
    requires
        old(builder).wf(),
        old(scopes)@.len() >= 1,
        text_fits(text@),
        li <= text@.len(),
        line@.len() <= text@.len(),
    ensures
        final(builder).wf(),
        final(scopes)@.len() >= 1,
        (final(builder)@, scope_views(final(scopes)@)) == python_step(
            (old(builder)@, scope_views(old(scopes)@)),
            text@,
            li as int,
            line@,
        ),
{
    let trimmed_line = trimmed(line);
    if trimmed_line.len() == 0 || trimmed_line[0] == '#' {
        return;
    }
    let indent = leading_ws_count(line);
    let ghost popped = pop_scopes(scope_views(scopes@), indent as int);
    while scopes.len() > 1 && indent <= scopes[scopes.len() - 1].indent
        invariant
            scopes@.len() >= 1,
            pop_scopes(scope_views(scopes@), indent as int) == popped,
        decreases scopes.len(),
    {
        let ghost before = scopes@;
        scopes.pop();
        assert(scope_views(scopes@) =~= scope_views(before).drop_last());
    }
    assert(pop_scopes(scope_views(scopes@), indent as int) == scope_views(scopes@));
    let span = line_span_of(text, li);
    let last = scopes.len() - 1;
    assert(scope_views(scopes@).last() == (
        scopes@[last as int].indent as int,
        scopes@[last as int].qualified@,
        scopes@[last as int].node@,
    ));
    match import_module(&trimmed_line) {
        Some(module) => {
            let ms = string_from(&module);
            let node = builder.add_import(ms.as_str(), span);
            let caller = scopes[last].node.clone();
            builder.add_reference(&caller, ms.as_str(), span);
            let ghost before = scopes@;
            scopes.push(Scope { indent: indent + 1, qualified: module, node });
            assert(scope_views(scopes@) =~= scope_views(before).push((indent + 1, ms@, node@)));
        },
        None => match symbol_declaration(&trimmed_line) {
            Some((name, kind)) => {
                let qualified = qualify_dot_chars(&scopes[last].qualified, &name);
                let ns = string_from(&name);
                let qs = string_from(&qualified);
                let node = builder.add_symbol(ns.as_str(), qs.as_str(), kind, span);
                let ghost before = scopes@;
                scopes.push(Scope { indent, qualified, node });
                assert(scope_views(scopes@) =~= scope_views(before).push(
                    (indent as int, qs@, node@),
                ));
            },
            None => {
                let caller = scopes[last].node.clone();
                let calls = call_identifiers_chars(&trimmed_line);
                add_calls_exec(builder, &caller, &calls, span);
            },
        },
    }
}

/// Builds the partition of a Python file from its lines.
pub fn scanner_extract_python(file: &SourceFile) -> (r: GraphPartition)
    requires
        text_fits(file.text@),
    ensures
        r@ == spec_scanner_extract_python(*file),
{
    let text = chars_of(file.text.as_str());
    let ls = lines_of(&text);
    let ghost lsv = ls.deep_view();
    let mut builder = PartitionBuilder::new(file);
    let mut scopes: Vec<Scope> = Vec::new();
    scopes.push(Scope { indent: 0, qualified: Vec::new(), node: builder.file_node() });
    proof {
        lemma_lines_len(text@);
        assert(scope_views(scopes@) =~= python_fold(*file, 0).1);
    }
    let mut li: usize = 0;
    while li < ls.len()
        invariant
            li <= ls.len(),
            lsv == ls.deep_view(),
            lsv == lines(file.text@),
            text@ == file.text@,
            text_fits(file.text@),
            lsv.len() <= text@.len() + 1,
            builder.wf(),
            scopes@.len() >= 1,
            (builder@, scope_views(scopes@)) == python_fold(*file, li as int),
        decreases ls.len() - li,
    {
        assert(lsv[li as int] =~= ls[li as int]@);
        proof {
            crate::helpers::lemma_line_within_text(text@, li as int);
        }
        python_line(&mut builder, &mut scopes, &text, li, &ls[li]);
        li += 1;
    }
    builder.finish()
}

/// A text has at most one more line than characters.
pub proof fn lemma_lines_len(s: Seq<char>)
    ensures
        lines(s).len() <= s.len() + 1,
{
    lemma_scan_lines_len(s);
}

proof fn lemma_scan_lines_len(s: Seq<char>)
    ensures
        crate::text::scan_lines(s).0.len() <= s.len(),
    decreases s.len(),
{
    if s.len() > 0 {
        lemma_scan_lines_len(s.drop_last());
    }
}

} // verus!
