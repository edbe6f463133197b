use crate::helpers::{
    first_identifier_after_chars, line_span_of, spec_add_import, spec_add_symbol,
    spec_first_identifier_after, spec_line_span, spec_new_builder, BuilderView, PartitionBuilder,
};
use crate::model::{GraphPartition, PartitionView, SourceFile, SymbolKind};
use crate::python::{lemma_lines_len, text_fits};
use crate::quality::{Confidence, FactProvenance};
use crate::resolve::{resolve_partition, spec_resolve};
use crate::text::{
    chars_of, ends_with, index_of, is_ascii_alnum, lines, lines_of, or_opt, split_once,
    starts_with, string_from, strip_prefix_str, contains_char, ends_with_str, text_is, trim,
    trim_char, trim_end, trim_end_char, trimmed, trimmed_char, trimmed_end, trimmed_end_char,
};
use vstd::prelude::*;

verus! {

/// Characters of a name in the brace-language scanner: ASCII letters, digits, `_`.
pub open spec fn is_word_char(c: char) -> bool {
    is_ascii_alnum(c) || c == '_'
}

/// What an import line of a brace language imports.
pub open spec fn spec_scanner_import(line: Seq<char>) -> Option<Seq<char>> {
    if starts_with(line, "#include"@) {
        Some(trim(line.skip("#include"@.len() as int)))
    } else if starts_with(line, "import "@) {
        Some(trim_char(trim_end_char(trim(line.skip("import "@.len() as int)), ';'), '"'))
    } else if starts_with(line, "@import "@) {
        Some(trim_end_char(trim(line.skip("@import "@.len() as int)), ';'))
    } else {
        None
    }
}

pub open spec fn word_after(line: Seq<char>, prefix: Seq<char>) -> Option<Seq<char>> {
    spec_first_identifier_after(line, prefix)
}

/// The type a line declares: the name after the first declaring keyword found.
pub open spec fn spec_scanner_type_name(line: Seq<char>) -> Option<Seq<char>> {
    or_opt(word_after(line, "class "@), or_opt(word_after(line, "public class "@),
    or_opt(word_after(line, "interface "@), or_opt(word_after(line, "public interface "@),
    or_opt(word_after(line, "struct "@), or_opt(word_after(line, "enum "@),
    or_opt(word_after(line, "@interface "@), or_opt(word_after(line, "@implementation "@),
    or_opt(word_after(line, "@protocol "@), word_after(line, "type "@))))))))))
}

/// `s` without its trailing characters that are not word characters.
pub open spec fn drop_trailing_non_word(s: Seq<char>) -> Seq<char>
    decreases s.len(),
{
    if s.len() > 0 && !is_word_char(s.last()) {
        drop_trailing_non_word(s.drop_last())
    } else {
        s
    }
}

/// Number of word characters at the end of `s`.
pub open spec fn trailing_word_len(s: Seq<char>) -> nat
    decreases s.len(),
{
    if s.len() > 0 && is_word_char(s.last()) {
        1 + trailing_word_len(s.drop_last())
    } else {
        0
    }
}

/// The last run of word characters in `s` (empty when there is none).
pub open spec fn last_word(s: Seq<char>) -> Seq<char> {
    let t = drop_trailing_non_word(s);
    t.skip(t.len() - trailing_word_len(t))
}

pub open spec fn is_control_word(w: Seq<char>) -> bool {
    w == "if"@ || w == "for"@ || w == "while"@ || w == "switch"@ || w == "return"@
}

/// The function a line defines: the last word before its first `(`, when the line
/// does not end with `;` and that word is not a control keyword.
pub open spec fn spec_scanner_function_name(line: Seq<char>) -> Option<Seq<char>> {
    if ends_with(line, ";"@) || !line.contains('(') {
        None
    } else {
        match index_of(line, '(') {
            Some(k) => {
                let w = last_word(trim_end(line.take(k)));
                if w.len() == 0 || is_control_word(w) {
                    None
                } else {
                    Some(w)
                }
            },
            None => None,
        }
    }
}

/// One line of the brace-language scanner.
pub open spec fn brace_step(b: BuilderView, text: Seq<char>, index: int, line: Seq<char>) -> BuilderView {
    let t = trim(line);
    let span = spec_line_span(text, index);
    let b1 = match spec_scanner_import(t) {
        Some(m) => spec_add_import(b, m, span),
        None => b,
    };
    let b2 = match spec_scanner_type_name(t) {
        Some(n) => spec_add_symbol(b1, n, n, SymbolKind::Class, span),
        None => b1,
    };
    match spec_scanner_function_name(t) {
        Some(n) => spec_add_symbol(b2, n, n, SymbolKind::Function, span),
        None => b2,
    }
}

pub open spec fn brace_fold(file: SourceFile, k: int) -> BuilderView
    decreases k,
{
    if k <= 0 {
        spec_new_builder(file, FactProvenance::StructuralScanner, Confidence::Medium)
    } else {
        brace_step(brace_fold(file, k - 1), file.text@, k - 1, lines(file.text@)[k - 1])
    }
}

/// The partition the brace-language scanner builds for `file`, resolved.
pub open spec fn spec_brace_scanner_extract(file: SourceFile) -> PartitionView {
    spec_resolve(brace_fold(file, lines(file.text@).len() as int).partition)
}

/// The module or header an import line names.
pub fn scanner_import(line: &[char]) -> (r: Option<Vec<char>>)
    ensures
        match r {
            Some(v) => spec_scanner_import(line@) == Some(v@),
            None => spec_scanner_import(line@) is None,
        },
{
    if let Some(rest) = strip_prefix_str(line, "#include") {
        return Some(trimmed(&rest));
    }
    if let Some(rest) = strip_prefix_str(line, "import ") {
        let a = trimmed(&rest);
        let b = trimmed_end_char(&a, ';');
        return Some(trimmed_char(&b, '"'));
    }
    if let Some(rest) = strip_prefix_str(line, "@import ") {
        let a = trimmed(&rest);
        return Some(trimmed_end_char(&a, ';'));
    }
    None
}

/// The name of the type a line declares.
pub fn scanner_type_name(line: &[char]) -> (r: Option<Vec<char>>)
    ensures
        match r {
            Some(v) => spec_scanner_type_name(line@) == Some(v@),
            None => spec_scanner_type_name(line@) is None,
        },
{
    if let Some(n) = first_identifier_after_chars(line, "class ") { return Some(n); }
    if let Some(n) = first_identifier_after_chars(line, "public class ") { return Some(n); }
    if let Some(n) = first_identifier_after_chars(line, "interface ") { return Some(n); }
    if let Some(n) = first_identifier_after_chars(line, "public interface ") { return Some(n); }
    if let Some(n) = first_identifier_after_chars(line, "struct ") { return Some(n); }
    if let Some(n) = first_identifier_after_chars(line, "enum ") { return Some(n); }
    if let Some(n) = first_identifier_after_chars(line, "@interface ") { return Some(n); }
    if let Some(n) = first_identifier_after_chars(line, "@implementation ") { return Some(n); }
    if let Some(n) = first_identifier_after_chars(line, "@protocol ") { return Some(n); }
    first_identifier_after_chars(line, "type ")
}

/// Whether `c` is a word character of the brace-language scanner.
pub fn is_word(c: char) -> (r: bool)
    ensures
        r == is_word_char(c),
{
    c == '_' || ('a' <= c && c <= 'z') || ('A' <= c && c <= 'Z') || ('0' <= c && c <= '9')
}

proof fn lemma_drop_trailing_step(s: Seq<char>, i: int)
    requires
        0 < i <= s.len(),
        !is_word_char(s[i - 1]),
    ensures
        drop_trailing_non_word(s.take(i)) == drop_trailing_non_word(s.take(i - 1)),
{
    assert(s.take(i).drop_last() =~= s.take(i - 1));
}

proof fn lemma_trailing_word_step(s: Seq<char>, i: int)
    requires
        0 < i <= s.len(),
        is_word_char(s[i - 1]),
    ensures
        trailing_word_len(s.take(i)) == 1 + trailing_word_len(s.take(i - 1)),
{
    assert(s.take(i).drop_last() =~= s.take(i - 1));
}

/// The last run of word characters in `s`.
pub fn last_word_chars(s: &[char]) -> (r: Vec<char>)
    ensures
        r@ == last_word(s@),
{
    let mut end: usize = s.len();
    assert(s@.take(s.len() as int) =~= s@);
    while end > 0 && !is_word(s[end - 1])
        invariant
            end <= s.len(),
            drop_trailing_non_word(s@.take(end as int)) == drop_trailing_non_word(s@),
        decreases end,
    {
        proof {
            lemma_drop_trailing_step(s@, end as int);
        }
        end -= 1;
    }
    let ghost t = s@.take(end as int);
    assert(drop_trailing_non_word(t) == t);
    let mut start: usize = end;
    while start > 0 && is_word(s[start - 1])
        invariant
            start <= end <= s.len(),
            t == s@.take(end as int),
            trailing_word_len(t) == (end - start) + trailing_word_len(s@.take(start as int)),
        decreases start,
    {
        proof {
            lemma_trailing_word_step(s@, start as int);
        }
        start -= 1;
    }
    assert(trailing_word_len(s@.take(start as int)) == 0);
    let r = crate::text::slice(s, start, end);
    assert(r@ =~= t.skip(t.len() - trailing_word_len(t)));
    r
}

/// The name of the function a line defines.
pub fn scanner_function_name(line: &[char]) -> (r: Option<Vec<char>>)
    ensures
        match r {
            Some(v) => spec_scanner_function_name(line@) == Some(v@),
            None => spec_scanner_function_name(line@) is None,
        },
{
    if ends_with_str(line, ";") || !contains_char(line, '(') {
        return None;
    }
    match split_once(line, '(') {
        Some((before, _after)) => {
            let b = trimmed_end(&before);
            let w = last_word_chars(&b);
            if w.len() == 0 || text_is(&w, "if") || text_is(&w, "for") || text_is(&w, "while")
                || text_is(&w, "switch") || text_is(&w, "return") {
                None
            } else {
                Some(w)
            }
        },
        None => None,
    }
}

fn brace_line(builder: &mut PartitionBuilder, text: &Vec<char>, li: usize, line: &Vec<char>)
    requires
        old(builder).wf(),
        text_fits(text@),
        li <= text@.len(),
    ensures
        final(builder).wf(),
        final(builder)@ == brace_step(old(builder)@, text@, li as int, line@),
{
    let t = trimmed(line);
    let span = line_span_of(text, li);
    if let Some(m) = scanner_import(&t) {
        let ms = string_from(&m);
        builder.add_import(ms.as_str(), span);
    }
    if let Some(n) = scanner_type_name(&t) {
        let ns = string_from(&n);
        builder.add_symbol(ns.as_str(), ns.as_str(), SymbolKind::Class, span);
    }
    if let Some(n) = scanner_function_name(&t) {
        let ns = string_from(&n);
        builder.add_symbol(ns.as_str(), ns.as_str(), SymbolKind::Function, span);
    }
}

/// Builds the partition of a brace-language file (C, C++, Go, Java, Objective-C)
/// line by line, then resolves its calls to local symbols.
pub fn brace_scanner_extract(file: &SourceFile) -> (r: GraphPartition)
    requires
        text_fits(file.text@),
    ensures
        r@ == spec_brace_scanner_extract(*file),
{
    let text = chars_of(file.text.as_str());
    let ls = lines_of(&text);
    let ghost lsv = ls.deep_view();
    let mut builder = PartitionBuilder::new(file);
    proof {
        lemma_lines_len(text@);
    }
    let mut li: usize = 0;
    while li < ls.len()
        invariant
            li <= ls.len(),
            lsv == ls.deep_view(),
            lsv == lines(file.text@),
            text@ == file.text@,
            text_fits(file.text@),
            lsv.len() <= text@.len() + 1,
            builder.wf(),
            builder@ == brace_fold(*file, li as int),
        decreases ls.len() - li,
    {
        assert(lsv[li as int] =~= ls[li as int]@);
        brace_line(&mut builder, &text, li, &ls[li]);
        li += 1;
    }
    resolve_partition(builder.finish())
}

} // verus!
