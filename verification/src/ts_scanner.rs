use crate::helpers::{
    first_identifier_after_chars, line_span_of, quoted_module_chars,
    spec_add_export, spec_add_import, spec_add_link, spec_add_symbol, spec_call_identifiers,
    spec_first_identifier_after, spec_line_span, spec_new_builder, spec_quoted_module, symbol_id,
    BuilderView, PartitionBuilder, call_identifiers_chars,
};
use crate::ids::NodeId;
use crate::model::{EdgeKind, GraphPartition, PartitionView, SourceFile, SymbolKind};
use crate::python::{lemma_lines_len, text_fits};
use crate::quality::{Confidence, FactProvenance};
use crate::span::SourceSpan;
use crate::text::{
    chars_of, contains_char, contains_seq, contains_str, ends_with, ends_with_str, first_occurrence,
    find_str, lines, lines_of, or_opt, read_identifier_chars, spec_read_identifier, starts_with,
    starts_with_str, string_from, text_is, trim, trimmed,
};
use vstd::prelude::*;

verus! {

/// The piece of `line` between the first ` from ` and the next one, if any.
pub open spec fn after_first_from(line: Seq<char>) -> Option<Seq<char>> {
    match first_occurrence(line, " from "@) {
        Some(k) => {
            let rest = line.skip(k + 6);
            match first_occurrence(rest, " from "@) {
                Some(j) => Some(rest.take(j)),
                None => Some(rest),
            }
        },
        None => None,
    }
}

/// The module a line imports: quoted after ` from `, else the first quoted text.
pub open spec fn spec_module_specifier(line: Seq<char>) -> Option<Seq<char>> {
    or_opt(
        match after_first_from(line) {
            Some(piece) => spec_quoted_module(piece),
            None => None,
        },
        spec_quoted_module(line),
    )
}

pub open spec fn fia(line: Seq<char>, p: Seq<char>) -> Option<Seq<char>> {
    spec_first_identifier_after(line, p)
}

/// The name an `export` line exports.
pub open spec fn spec_export_name(line: Seq<char>) -> Option<Seq<char>> {
    or_opt(fia(line, "export default function "@), or_opt(fia(line, "export default class "@),
    or_opt(fia(line, "export function "@), or_opt(fia(line, "export class "@),
    or_opt(fia(line, "export interface "@), or_opt(fia(line, "export type "@),
    or_opt(fia(line, "export enum "@), or_opt(fia(line, "export const "@),
    or_opt(fia(line, "export let "@), fia(line, "export var "@))))))))))
}

/// A `const`, `let` or `var` declaration: a function when the line has `=>` or `function`.
pub open spec fn spec_variable_symbol(line: Seq<char>, prefix: Seq<char>) -> Option<(Seq<char>, SymbolKind)> {
    match fia(line, prefix) {
        Some(name) => if contains_seq(line, "=>"@) || contains_seq(line, "function"@) {
            Some((name, SymbolKind::Function))
        } else {
            Some((name, SymbolKind::Variable))
        },
        None => None,
    }
}

/// A method header: a line that calls and opens a block, named by its first identifier.
pub open spec fn spec_method_symbol(line: Seq<char>) -> Option<(Seq<char>, SymbolKind)> {
    if starts_with(line, "//"@) || !line.contains('(') || !ends_with(line, "{"@) {
        None
    } else {
        match spec_read_identifier(line) {
            Some(name) => if name == "if"@ || name == "for"@ || name == "while"@ || name
                == "switch"@ || name == "catch"@ {
                None
            } else {
                Some((name, SymbolKind::Method))
            },
            None => None,
        }
    }
}

pub open spec fn with_kind(o: Option<Seq<char>>, k: SymbolKind) -> Option<(Seq<char>, SymbolKind)> {
    match o {
        Some(n) => Some((n, k)),
        None => None,
    }
}

/// The symbol a TypeScript line declares, with its kind.
pub open spec fn spec_ts_symbol(line: Seq<char>) -> Option<(Seq<char>, SymbolKind)> {
    or_opt(with_kind(or_opt(fia(line, "export function "@), fia(line, "function "@)), SymbolKind::Function),
    or_opt(with_kind(or_opt(fia(line, "export class "@), fia(line, "class "@)), SymbolKind::Class),
    or_opt(with_kind(or_opt(fia(line, "export interface "@), fia(line, "interface "@)), SymbolKind::Interface),
    or_opt(with_kind(or_opt(fia(line, "export type "@), fia(line, "type "@)), SymbolKind::TypeAlias),
    or_opt(with_kind(or_opt(fia(line, "export enum "@), fia(line, "enum "@)), SymbolKind::Enum),
    or_opt(spec_variable_symbol(line, "export const "@), or_opt(spec_variable_symbol(line, "const "@),
    or_opt(spec_variable_symbol(line, "export let "@), or_opt(spec_variable_symbol(line, "let "@),
    or_opt(spec_variable_symbol(line, "export var "@), or_opt(spec_variable_symbol(line, "var "@),
    spec_method_symbol(line))))))))))))
}

/// Calls on a declaration line, and calls of `require`, are not recorded.
pub open spec fn spec_is_declaration_call(line: Seq<char>, call: Seq<char>) -> bool {
    starts_with(line, "function "@) || starts_with(line, "class "@) || starts_with(line, "interface "@)
        || starts_with(line, "export function "@) || starts_with(line, "export class "@)
        || starts_with(line, "export interface "@) || call == "require"@
}

/// The builder after adding a call from `caller` to each name that is not a
/// declaration call.
pub open spec fn add_ts_calls(b: BuilderView, line: Seq<char>, caller: Seq<char>, names: Seq<Seq<char>>, span: SourceSpan) -> BuilderView
    decreases names.len(),
{
    if names.len() == 0 {
        b
    } else {
        let prev = add_ts_calls(b, line, caller, names.drop_last(), span);
        if spec_is_declaration_call(line, names.last()) {
            prev
        } else {
            spec_add_link(prev, EdgeKind::Calls, caller, names.last(), span)
        }
    }
}

/// One line of the TypeScript scanner: imports, an export, a declaration that
/// becomes the current scope, and the calls of the line.
pub open spec fn ts_step(state: (BuilderView, Seq<char>), text: Seq<char>, index: int, line: Seq<char>) -> (BuilderView, Seq<char>) {
    let t = trim(line);
    let span = spec_line_span(text, index);
    let b0 = state.0;
    let b1 = if (starts_with(t, "import "@) || contains_seq(t, " require("@)) && spec_module_specifier(t) is Some {
        spec_add_import(b0, spec_module_specifier(t)->0, span)
    } else {
        b0
    };
    let b2 = if starts_with(t, "export "@) {
        spec_add_export(b1, match spec_export_name(t) { Some(n) => n, None => "default"@ }, span)
    } else {
        b1
    };
    let (b3, scope) = match spec_ts_symbol(t) {
        Some((name, kind)) => (spec_add_symbol(b2, name, name, kind, span), symbol_id(b2, name, name, kind, span)),
        None => (b2, state.1),
    };
    (add_ts_calls(b3, t, scope, spec_call_identifiers(t), span), scope)
}

/// The scanner state after the first `k` lines.
pub open spec fn ts_fold(file: SourceFile, k: int) -> (BuilderView, Seq<char>)
    decreases k,
{
    if k <= 0 {
        let b = spec_new_builder(file, FactProvenance::StructuralScanner, Confidence::Medium);
        (b, b.file_node)
    } else {
        ts_step(ts_fold(file, k - 1), file.text@, k - 1, lines(file.text@)[k - 1])
    }
}

/// The partition the TypeScript scanner builds for `file`.
pub open spec fn spec_scanner_extract_typescript(file: SourceFile) -> PartitionView {
    ts_fold(file, lines(file.text@).len() as int).0.partition
}

#[verifier::rlimit(40)]
fn after_from_chars(line: &[char]) -> (r: Option<Vec<char>>)
    ensures
        match r {
            Some(v) => after_first_from(line@) == Some(v@),
            None => after_first_from(line@) is None,
        },
{
    proof {
        reveal_strlit(" from ");
        assert(" from "@.len() == 6);
    }
    match find_str(line, " from ") {
        Some(k) => {
            let n = line.len();
            assert(k + " from "@.len() <= n);
            let rest = crate::text::slice(line, k + 6, n);
            assert(rest@ =~= line@.skip(k + 6));
            match find_str(&rest, " from ") {
                Some(j) => {
                    let p = crate::text::slice(&rest, 0, j);
                    assert(p@ =~= rest@.take(j as int));
                    Some(p)
                },
                None => Some(rest),
            }
        },
        None => None,
    }
}

pub fn module_specifier(line: &[char]) -> (r: Option<Vec<char>>)
    ensures
        match r {
            Some(v) => spec_module_specifier(line@) == Some(v@),
            None => spec_module_specifier(line@) is None,
        },
{
    if let Some(piece) = after_from_chars(line) {
        if let Some(m) = quoted_module_chars(&piece) {
            return Some(m);
        }
    }
    quoted_module_chars(line)
}

pub fn export_name(line: &[char]) -> (r: Option<Vec<char>>)
    ensures
        match r {
            Some(v) => spec_export_name(line@) == Some(v@),
            None => spec_export_name(line@) is None,
        },
{
    if let Some(n) = first_identifier_after_chars(line, "export default function ") { return Some(n); }
    if let Some(n) = first_identifier_after_chars(line, "export default class ") { return Some(n); }
    if let Some(n) = first_identifier_after_chars(line, "export function ") { return Some(n); }
    if let Some(n) = first_identifier_after_chars(line, "export class ") { return Some(n); }
    if let Some(n) = first_identifier_after_chars(line, "export interface ") { return Some(n); }
    if let Some(n) = first_identifier_after_chars(line, "export type ") { return Some(n); }
    if let Some(n) = first_identifier_after_chars(line, "export enum ") { return Some(n); }
    if let Some(n) = first_identifier_after_chars(line, "export const ") { return Some(n); }
    if let Some(n) = first_identifier_after_chars(line, "export let ") { return Some(n); }
    first_identifier_after_chars(line, "export var ")
}

fn variable_symbol(line: &[char], prefix: &str) -> (r: Option<(Vec<char>, SymbolKind)>)
    ensures
        match r {
            Some((v, k)) => spec_variable_symbol(line@, prefix@) == Some((v@, k)),
            None => spec_variable_symbol(line@, prefix@) is None,
        },
{
    match first_identifier_after_chars(line, prefix) {
        Some(name) => if contains_str(line, "=>") || contains_str(line, "function") {
            Some((name, SymbolKind::Function))
        } else {
            Some((name, SymbolKind::Variable))
        },
        None => None,
    }
}

fn method_symbol(line: &[char]) -> (r: Option<(Vec<char>, SymbolKind)>)
    ensures
        match r {
            Some((v, k)) => spec_method_symbol(line@) == Some((v@, k)),
            None => spec_method_symbol(line@) is None,
        },
{
    if starts_with_str(line, "//") || !contains_char(line, '(') || !ends_with_str(line, "{") {
        return None;
    }
    match read_identifier_chars(line) {
        Some(name) => if text_is(&name, "if") || text_is(&name, "for") || text_is(&name, "while")
            || text_is(&name, "switch") || text_is(&name, "catch") {
            None
        } else {
            Some((name, SymbolKind::Method))
        },
        None => None,
    }
}

fn either_prefix(line: &[char], a: &str, b: &str, kind: SymbolKind) -> (r: Option<(Vec<char>, SymbolKind)>)
    ensures
        match r {
            Some((v, k)) => with_kind(or_opt(fia(line@, a@), fia(line@, b@)), kind) == Some((v@, k)),
            None => with_kind(or_opt(fia(line@, a@), fia(line@, b@)), kind) is None,
        },
{
    if let Some(n) = first_identifier_after_chars(line, a) {
        return Some((n, kind));
    }
    match first_identifier_after_chars(line, b) {
        Some(n) => Some((n, kind)),
        None => None,
    }
}

fn symbol_declaration(line: &[char]) -> (r: Option<(Vec<char>, SymbolKind)>)
    ensures
        match r {
            Some((v, k)) => spec_ts_symbol(line@) == Some((v@, k)),
            None => spec_ts_symbol(line@) is None,
        },
{
    if let Some(x) = either_prefix(line, "export function ", "function ", SymbolKind::Function) { return Some(x); }
    if let Some(x) = either_prefix(line, "export class ", "class ", SymbolKind::Class) { return Some(x); }
    if let Some(x) = either_prefix(line, "export interface ", "interface ", SymbolKind::Interface) { return Some(x); }
    if let Some(x) = either_prefix(line, "export type ", "type ", SymbolKind::TypeAlias) { return Some(x); }
    if let Some(x) = either_prefix(line, "export enum ", "enum ", SymbolKind::Enum) { return Some(x); }
    if let Some(x) = variable_symbol(line, "export const ") { return Some(x); }
    if let Some(x) = variable_symbol(line, "const ") { return Some(x); }
    if let Some(x) = variable_symbol(line, "export let ") { return Some(x); }
    if let Some(x) = variable_symbol(line, "let ") { return Some(x); }
    if let Some(x) = variable_symbol(line, "export var ") { return Some(x); }
    if let Some(x) = variable_symbol(line, "var ") { return Some(x); }
    method_symbol(line)
}

fn is_declaration_call(line: &[char], call: &[char]) -> (r: bool)
    ensures
        r == spec_is_declaration_call(line@, call@),
{
    starts_with_str(line, "function ") || starts_with_str(line, "class ") || starts_with_str(line, "interface ")
        || starts_with_str(line, "export function ") || starts_with_str(line, "export class ")
        || starts_with_str(line, "export interface ") || text_is(call, "require")
}

fn ts_line(builder: &mut PartitionBuilder, scope: &mut NodeId, text: &Vec<char>, li: usize, line: &Vec<char>)
    requires
        old(builder).wf(),
        text_fits(text@),
        li <= text@.len(),
    ensures
        final(builder).wf(),
        (final(builder)@, final(scope)@) == ts_step((old(builder)@, old(scope)@), text@, li as int, line@),
{
    let t = trimmed(line);
    let span = line_span_of(text, li);
    if starts_with_str(&t, "import ") || contains_str(&t, " require(") {
        if let Some(module) = module_specifier(&t) {
            let ms = string_from(&module);
            builder.add_import(ms.as_str(), span);
        }
    }
    if starts_with_str(&t, "export ") {
        let name = match export_name(&t) {
            Some(n) => string_from(&n),
            None => String::from_str("default"),
        };
        builder.add_export(name.as_str(), span);
    }
    if let Some((name, kind)) = symbol_declaration(&t) {
        let ns = string_from(&name);
        let id = builder.add_symbol(ns.as_str(), ns.as_str(), kind, span);
        *scope = id;
    }
    let calls = call_identifiers_chars(&t);
    let ghost b0 = builder@;
    let mut ci: usize = 0;
    while ci < calls.len()
        invariant
            ci <= calls.len(),
            builder.wf(),
            builder@ == add_ts_calls(b0, t@, scope@, calls.deep_view().take(ci as int), span),
        decreases calls.len() - ci,
    {
        assert(calls.deep_view()[ci as int] =~= calls[ci as int]@);
        assert(calls.deep_view().take(ci + 1).drop_last() =~= calls.deep_view().take(ci as int));
        if !is_declaration_call(&t, &calls[ci]) {
            let cs = string_from(&calls[ci]);
            builder.add_call(scope, cs.as_str(), span);
        }
        ci += 1;
    }
    assert(calls.deep_view().take(calls.len() as int) =~= calls.deep_view());
}

/// Builds the partition of a JavaScript or TypeScript file line by line.
pub fn scanner_extract_typescript(file: &SourceFile) -> (r: GraphPartition)
    requires
        text_fits(file.text@),
    ensures
        r@ == spec_scanner_extract_typescript(*file),
{
    let text = chars_of(file.text.as_str());
    let ls = lines_of(&text);
    let ghost lsv = ls.deep_view();
    let mut builder = PartitionBuilder::new(file);
    let mut scope = builder.file_node();
    proof {
        lemma_lines_len(text@);
    }
    let mut li: usize = 0;
    while li < ls.len()
        invariant
            li <= ls.len(),
            lsv == ls.deep_view(),
            lsv == lines(file.text@),
            text@ == file.text@,
            text_fits(file.text@),
            lsv.len() <= text@.len() + 1,
            builder.wf(),
            (builder@, scope@) == ts_fold(*file, li as int),
        decreases ls.len() - li,
    {
        assert(lsv[li as int] =~= ls[li as int]@);
        ts_line(&mut builder, &mut scope, &text, li, &ls[li]);
        li += 1;
    }
    builder.finish()
}

} // verus!
