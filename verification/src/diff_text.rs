use crate::diagnostics::Severity;
use crate::diff_report::{
    AgentDiffReport, AgentDiffStats, AgentReviewFocus, AgentTopChange, RiskLevel,
    change_label, edge_kind_label, ref_side_label, risk_label, spec_change_label,
    spec_edge_kind_label, spec_ref_side_label, spec_risk_label, spec_symbol_kind_label,
    symbol_kind_label, ChangedSymbol, ChangedSymbolView, DependencyChange, DependencyChangeView,
    DiffDiagnostic, DiffDiagnosticView, DiffReport, FileChange, FileChangeView, ImpactedFile,
    ImpactedFileView, SymbolSummary, SymbolSummaryView,
};
use crate::order::string_views;
use crate::output::{
    blen, format_location, render_table, row_views, spec_format_location, spec_render_table,
    table_fits, TableStyle,
};
use crate::syntax::{byte_slice, text_of_bytes};
use crate::text::{chars_of, decimal, decimal_of, string_from};
use vstd::prelude::*;

verus! {

fn push_str(out: &mut Vec<char>, s: &str)
    ensures
        final(out)@ == old(out)@ + s@,
{
    let c = chars_of(s);
    push_chars(out, &c);
}

fn push_chars(out: &mut Vec<char>, s: &[char])
    ensures
        final(out)@ == old(out)@ + s@,
{
    let ghost start = out@;
    let mut i: usize = 0;
    while i < s.len()
        invariant
            i <= s.len(),
            out@ == start + s@.take(i as int),
        decreases s.len() - i,
    {
        out.push(s[i]);
        assert(s@.take(i + 1) =~= s@.take(i as int).push(s@[i as int]));
        i += 1;
    }
    assert(s@.take(s.len() as int) =~= s@);
}

/// The label of a severity.
pub open spec fn spec_severity_label(severity: Severity) -> Seq<char> {
    match severity {
        Severity::Info => "info"@,
        Severity::Warning => "warning"@,
        Severity::Error => "error"@,
    }
}

/// The label of a severity.
pub fn severity_label(severity: Severity) -> (r: &'static str)
    ensures
        r@ == spec_severity_label(severity),
{
    match severity {
        Severity::Info => "info",
        Severity::Warning => "warning",
        Severity::Error => "error",
    }
}

/// The first twelve bytes of a commit, or the whole commit when those do not
/// make whole characters.
pub open spec fn spec_short_commit(commit: Seq<char>) -> Seq<char> {
    match byte_slice(commit, 0, 12) {
        Some(s) => s,
        None => commit,
    }
}

/// The first twelve bytes of a commit, or the whole commit when those do not
/// make whole characters.
pub fn short_commit(commit: &str) -> (r: String)
    ensures
        r@ == spec_short_commit(commit@),
{
    let _bytes = commit.as_bytes().len();
    let c = chars_of(commit);
    match text_of_bytes(&c, 0, 12) {
        Some(s) => string_from(&s),
        None => string_from(&c),
    }
}

/// How a symbol is shown: its qualified name, else its name.
pub open spec fn spec_symbol_name(s: SymbolSummaryView) -> Seq<char> {
    match s.qualified_name {
        Some(q) => q,
        None => s.name,
    }
}

/// How a symbol is shown: its qualified name, else its name.
pub fn symbol_name(symbol: &SymbolSummary) -> (r: String)
    ensures
        r@ == spec_symbol_name(symbol@),
{
    match &symbol.qualified_name {
        Some(q) => q.clone(),
        None => symbol.name.clone(),
    }
}

/// A changed file: how it changed and its path, then its old path if any,
/// separated by tabs.
pub open spec fn spec_file_line(f: FileChangeView) -> Seq<char> {
    match f.old_path {
        Some(old) => spec_change_label(f.change) + "\t"@ + f.path + "\t"@ + old,
        None => spec_change_label(f.change) + "\t"@ + f.path,
    }
}

/// A changed file: how it changed and its path, then its old path if any.
pub fn file_line(file: &FileChange) -> (r: String)
    ensures
        r@ == spec_file_line(file@),
{
    let mut out: Vec<char> = Vec::new();
    push_str(&mut out, change_label(file.change));
    push_str(&mut out, "\t");
    push_str(&mut out, file.path.as_str());
    if let Some(old) = &file.old_path {
        push_str(&mut out, "\t");
        push_str(&mut out, old.as_str());
    }
    string_from(&out)
}

/// The side a changed symbol is shown by: the head's, else the base's.
pub open spec fn shown_side(c: ChangedSymbolView) -> Option<SymbolSummaryView> {
    match c.after {
        Some(a) => Some(a),
        None => c.before,
    }
}

/// Where a changed symbol is, as `path:line:column`, or nothing.
pub open spec fn symbol_location(c: ChangedSymbolView) -> Seq<char> {
    match shown_side(c) {
        Some(s) => match spec_format_location(Some(s.file), s.span) {
            Some(l) => l,
            None => Seq::empty(),
        },
        None => Seq::empty(),
    }
}

/// The shown name of a changed symbol, or nothing.
pub open spec fn shown_name(c: ChangedSymbolView) -> Seq<char> {
    match shown_side(c) {
        Some(s) => spec_symbol_name(s),
        None => Seq::empty(),
    }
}

/// A changed symbol: change, name, location, risk and reason, separated by tabs.
pub open spec fn spec_symbol_line(c: ChangedSymbolView) -> Seq<char> {
    spec_change_label(c.change) + "\t"@ + shown_name(c) + "\t"@ + symbol_location(c) + "\t"@ + spec_risk_label(c.risk)
        + "\t"@ + c.reason
}

fn shown_side_exec(symbol: &ChangedSymbol) -> (r: Option<&SymbolSummary>)
    ensures
        match r {
            Some(s) => shown_side(symbol@) == Some(s@),
            None => shown_side(symbol@) is None,
        },
{
    match &symbol.after {
        Some(a) => Some(a),
        None => match &symbol.before {
            Some(b) => Some(b),
            None => None,
        },
    }
}

fn location_exec(symbol: &ChangedSymbol) -> (r: String)
    ensures
        r@ == symbol_location(symbol@),
{
    match shown_side_exec(symbol) {
        Some(s) => match format_location(Some(s.file.as_str()), match &s.span { Some(x) => Some(x), None => None }) {
            Some(l) => l,
            None => String::new(),
        },
        None => String::new(),
    }
}

fn shown_name_exec(symbol: &ChangedSymbol) -> (r: String)
    ensures
        r@ == shown_name(symbol@),
{
    match shown_side_exec(symbol) {
        Some(s) => symbol_name(s),
        None => String::new(),
    }
}

/// A changed symbol: change, name, location, risk and reason.
pub fn symbol_line(symbol: &ChangedSymbol) -> (r: String)
    ensures
        r@ == spec_symbol_line(symbol@),
{
    let mut out: Vec<char> = Vec::new();
    push_str(&mut out, change_label(symbol.change));
    push_str(&mut out, "\t");
    let name = shown_name_exec(symbol);
    push_str(&mut out, name.as_str());
    push_str(&mut out, "\t");
    let location = location_exec(symbol);
    push_str(&mut out, location.as_str());
    push_str(&mut out, "\t");
    push_str(&mut out, risk_label(symbol.risk));
    push_str(&mut out, "\t");
    push_str(&mut out, symbol.reason.as_str());
    string_from(&out)
}

/// The kind of a changed symbol's shown side, or nothing.
pub open spec fn shown_kind(c: ChangedSymbolView) -> Seq<char> {
    match shown_side(c) {
        Some(s) => match s.kind {
            Some(k) => spec_symbol_kind_label(k),
            None => Seq::empty(),
        },
        None => Seq::empty(),
    }
}

/// The table row of a changed symbol: change, name, kind, location and risk.
pub open spec fn spec_symbol_row(c: ChangedSymbolView) -> Seq<Seq<char>> {
    seq![spec_change_label(c.change), shown_name(c), shown_kind(c), symbol_location(c), spec_risk_label(c.risk)]
}

/// The table row of a changed symbol.
pub fn symbol_row(symbol: &ChangedSymbol) -> (r: Vec<String>)
    ensures
        string_views(r@) == spec_symbol_row(symbol@),
{
    let mut row: Vec<String> = Vec::new();
    row.push(string_from(&chars_of(change_label(symbol.change))));
    row.push(shown_name_exec(symbol));
    let kind = match shown_side_exec(symbol) {
        Some(s) => match s.kind {
            Some(k) => string_from(&chars_of(symbol_kind_label(k))),
            None => String::new(),
        },
        None => String::new(),
    };
    row.push(kind);
    row.push(location_exec(symbol));
    row.push(string_from(&chars_of(risk_label(symbol.risk))));
    assert(string_views(row@) =~= spec_symbol_row(symbol@));
    row
}

/// A dependency change: change, file, dependency and edge kind, separated by tabs.
pub open spec fn spec_dependency_line(d: DependencyChangeView) -> Seq<char> {
    spec_change_label(d.change) + "\t"@ + d.file + "\t"@ + d.dependency + "\t"@ + spec_edge_kind_label(d.edge_kind)
}

/// A dependency change: change, file, dependency and edge kind.
pub fn dependency_line(dependency: &DependencyChange) -> (r: String)
    ensures
        r@ == spec_dependency_line(dependency@),
{
    let mut out: Vec<char> = Vec::new();
    push_str(&mut out, change_label(dependency.change));
    push_str(&mut out, "\t");
    push_str(&mut out, dependency.file.as_str());
    push_str(&mut out, "\t");
    push_str(&mut out, dependency.dependency.as_str());
    push_str(&mut out, "\t");
    push_str(&mut out, edge_kind_label(dependency.edge_kind));
    string_from(&out)
}

/// The texts of `parts` joined by `, `.
pub open spec fn join_comma(parts: Seq<Seq<char>>) -> Seq<char>
    decreases parts.len(),
{
    if parts.len() == 0 {
        Seq::empty()
    } else if parts.len() == 1 {
        parts[0]
    } else {
        join_comma(parts.drop_last()) + ", "@ + parts.last()
    }
}

/// The texts of `parts` joined by `, `.
pub fn join_reasons(parts: &Vec<String>) -> (r: String)
    ensures
        r@ == join_comma(string_views(parts@)),
{
    let ghost pv = string_views(parts@);
    let mut out: Vec<char> = Vec::new();
    let mut i: usize = 0;
    assert(out@ =~= join_comma(pv.take(0)));
    while i < parts.len()
        invariant
            i <= parts.len(),
            pv == string_views(parts@),
            out@ == join_comma(pv.take(i as int)),
        decreases parts.len() - i,
    {
        assert(pv.take(i + 1).drop_last() =~= pv.take(i as int));
        assert(pv.take(i + 1).last() == parts@[i as int]@);
        if i > 0 {
            push_str(&mut out, ", ");
        } else {
            assert(out@ =~= Seq::<char>::empty());
        }
        push_str(&mut out, parts[i].as_str());
        i += 1;
    }
    assert(pv.take(parts.len() as int) =~= pv);
    string_from(&out)
}

/// An impacted file: its path, a tab, and its reasons joined by `, `.
pub open spec fn spec_impact_line(f: ImpactedFileView) -> Seq<char> {
    f.path + "\t"@ + join_comma(f.reasons)
}

/// An impacted file and its reasons.
pub fn impact_line(impact: &ImpactedFile) -> (r: String)
    ensures
        r@ == spec_impact_line(impact@),
{
    let mut out: Vec<char> = Vec::new();
    push_str(&mut out, impact.path.as_str());
    push_str(&mut out, "\t");
    let reasons = join_reasons(&impact.reasons);
    push_str(&mut out, reasons.as_str());
    string_from(&out)
}

/// A diagnostic of the diff: side, severity, file (or `<unknown>`) and message,
/// separated by tabs.
pub open spec fn spec_diagnostic_line(d: DiffDiagnosticView) -> Seq<char> {
    spec_ref_side_label(d.reference) + "\t"@ + spec_severity_label(d.severity) + "\t"@ + match d.file {
        Some(f) => f,
        None => "<unknown>"@,
    } + "\t"@ + d.message
}

/// A diagnostic of the diff.
pub fn diagnostic_line(diagnostic: &DiffDiagnostic) -> (r: String)
    ensures
        r@ == spec_diagnostic_line(diagnostic@),
{
    let mut out: Vec<char> = Vec::new();
    push_str(&mut out, ref_side_label(diagnostic.reference));
    push_str(&mut out, "\t");
    push_str(&mut out, severity_label(diagnostic.severity));
    push_str(&mut out, "\t");
    match &diagnostic.file {
        Some(f) => push_str(&mut out, f.as_str()),
        None => push_str(&mut out, "<unknown>"),
    }
    push_str(&mut out, "\t");
    push_str(&mut out, diagnostic.message.as_str());
    string_from(&out)
}

/// The counts line of a diff: files, symbols, public API changes, dependencies
/// and impacted files.
pub open spec fn spec_summary_line(files: nat, symbols: nat, public_api: nat, dependencies: nat, impacted: nat) -> Seq<char> {
    decimal(files) + " files, "@ + decimal(symbols) + " symbols, "@ + decimal(public_api) + " public API, "@
        + decimal(dependencies) + " dependencies, "@ + decimal(impacted) + " impacted"@
}

/// The counts line of a diff report.
pub fn summary_line(report: &DiffReport) -> (r: String)
    ensures
        r@ == spec_summary_line(
            report.changed_files@.len(),
            report.changed_symbols@.len(),
            report.public_api_changes@.len(),
            report.dependency_changes@.len(),
            report.impacted_files@.len(),
        ),
{
    let mut out: Vec<char> = Vec::new();
    push_chars(&mut out, &decimal_of(report.changed_files.len() as u64));
    push_str(&mut out, " files, ");
    push_chars(&mut out, &decimal_of(report.changed_symbols.len() as u64));
    push_str(&mut out, " symbols, ");
    push_chars(&mut out, &decimal_of(report.public_api_changes.len() as u64));
    push_str(&mut out, " public API, ");
    push_chars(&mut out, &decimal_of(report.dependency_changes.len() as u64));
    push_str(&mut out, " dependencies, ");
    push_chars(&mut out, &decimal_of(report.impacted_files.len() as u64));
    push_str(&mut out, " impacted");
    string_from(&out)
}

/// The first line of a text report: the counts, then the two commits, short.
pub open spec fn spec_report_heading(summary: Seq<char>, base_commit: Seq<char>, head_commit: Seq<char>) -> Seq<char> {
    summary + " "@ + spec_short_commit(base_commit) + ".."@ + spec_short_commit(head_commit)
}

/// The first line of a text report.
pub fn report_heading(report: &DiffReport) -> (r: String)
    ensures
        r@ == spec_report_heading(
            spec_summary_line(
                report.changed_files@.len(),
                report.changed_symbols@.len(),
                report.public_api_changes@.len(),
                report.dependency_changes@.len(),
                report.impacted_files@.len(),
            ),
            report.base.commit@,
            report.head.commit@,
        ),
{
    let mut out: Vec<char> = Vec::new();
    let summary = summary_line(report);
    push_str(&mut out, summary.as_str());
    push_str(&mut out, " ");
    let base = short_commit(report.base.commit.as_str());
    push_str(&mut out, base.as_str());
    push_str(&mut out, "..");
    let head = short_commit(report.head.commit.as_str());
    push_str(&mut out, head.as_str());
    string_from(&out)
}

/// The first line of an agent report: the overall risk and the two commits, short.
pub open spec fn spec_agent_heading(risk: RiskLevel, base_commit: Seq<char>, head_commit: Seq<char>) -> Seq<char> {
    "Risk: "@ + spec_risk_label(risk) + " "@ + spec_short_commit(base_commit) + ".."@ + spec_short_commit(head_commit)
}

/// The first line of an agent report.
pub fn agent_heading(report: &AgentDiffReport) -> (r: String)
    ensures
        r@ == spec_agent_heading(report.risk, report.base.commit@, report.head.commit@),
{
    let mut out: Vec<char> = Vec::new();
    push_str(&mut out, "Risk: ");
    push_str(&mut out, risk_label(report.risk));
    push_str(&mut out, " ");
    let base = short_commit(report.base.commit.as_str());
    push_str(&mut out, base.as_str());
    push_str(&mut out, "..");
    let head = short_commit(report.head.commit.as_str());
    push_str(&mut out, head.as_str());
    string_from(&out)
}

/// The counts line of an agent report.
pub open spec fn spec_agent_counts(s: AgentDiffStats) -> Seq<char> {
    "Files: "@ + decimal(s.files_changed as nat) + " changed | Public API: "@ + decimal(s.public_api_changes as nat)
        + " | Important symbols: "@ + decimal(s.important_symbol_changes as nat) + " | Dependencies: "@
        + decimal(s.dependency_changes as nat) + " | Diagnostics: "@ + decimal(s.diagnostics as nat)
        + " | Tests changed: "@ + if s.tests_changed { "yes"@ } else { "no"@ }
}

/// The counts line of an agent report.
pub fn agent_counts(report: &AgentDiffReport) -> (r: String)
    ensures
        r@ == spec_agent_counts(report.summary),
{
    let s = &report.summary;
    let mut out: Vec<char> = Vec::new();
    push_str(&mut out, "Files: ");
    push_chars(&mut out, &decimal_of(s.files_changed as u64));
    push_str(&mut out, " changed | Public API: ");
    push_chars(&mut out, &decimal_of(s.public_api_changes as u64));
    push_str(&mut out, " | Important symbols: ");
    push_chars(&mut out, &decimal_of(s.important_symbol_changes as u64));
    push_str(&mut out, " | Dependencies: ");
    push_chars(&mut out, &decimal_of(s.dependency_changes as u64));
    push_str(&mut out, " | Diagnostics: ");
    push_chars(&mut out, &decimal_of(s.diagnostics as u64));
    push_str(&mut out, " | Tests changed: ");
    if s.tests_changed {
        push_str(&mut out, "yes");
    } else {
        push_str(&mut out, "no");
    }
    string_from(&out)
}

/// A top change of an agent report: `- [risk] subject: why`, the subject being
/// `symbol in path`, or the path alone.
pub open spec fn spec_top_change_line(risk: RiskLevel, symbol: Option<Seq<char>>, path: Seq<char>, why: Seq<char>) -> Seq<char> {
    "- ["@ + spec_risk_label(risk) + "] "@ + match symbol {
        Some(x) => x + " in "@ + path,
        None => path,
    } + ": "@ + why
}

/// A top change of an agent report.
pub fn top_change_line(change: &AgentTopChange) -> (r: String)
    ensures
        r@ == spec_top_change_line(change.risk, crate::model::opt_view(change.symbol), change.path@, change.why_it_matters@),
{
    let mut out: Vec<char> = Vec::new();
    push_str(&mut out, "- [");
    push_str(&mut out, risk_label(change.risk));
    push_str(&mut out, "] ");
    match &change.symbol {
        Some(x) => {
            push_str(&mut out, x.as_str());
            push_str(&mut out, " in ");
            push_str(&mut out, change.path.as_str());
        },
        None => push_str(&mut out, change.path.as_str()),
    }
    push_str(&mut out, ": ");
    push_str(&mut out, change.why_it_matters.as_str());
    string_from(&out)
}

/// A review focus of an agent report: `- path: reason`.
pub fn focus_line(focus: &AgentReviewFocus) -> (r: String)
    ensures
        r@ == "- "@ + focus.path@ + ": "@ + focus.reason@,
{
    let mut out: Vec<char> = Vec::new();
    push_str(&mut out, "- ");
    push_str(&mut out, focus.path.as_str());
    push_str(&mut out, ": ");
    push_str(&mut out, focus.reason.as_str());
    string_from(&out)
}


/// Lines, each ended by a newline.
pub open spec fn text_lines(lines: Seq<Seq<char>>) -> Seq<char>
    decreases lines.len(),
{
    if lines.len() == 0 {
        Seq::empty()
    } else {
        text_lines(lines.drop_last()) + lines.last() + "\n"@
    }
}

fn push_lines(out: &mut Vec<char>, lines: &Vec<String>)
    ensures
        final(out)@ == old(out)@ + text_lines(string_views(lines@)),
{
    let ghost start = out@;
    let ghost lv = string_views(lines@);
    let mut i: usize = 0;
    assert(lv.take(0) =~= Seq::<Seq<char>>::empty());
    assert(out@ =~= start + text_lines(lv.take(0)));
    while i < lines.len()
        invariant
            i <= lines@.len(),
            lv == string_views(lines@),
            out@ == start + text_lines(lv.take(i as int)),
        decreases lines@.len() - i,
    {
        push_str(out, lines[i].as_str());
        push_str(out, "\n");
        assert(lv.take(i + 1).drop_last() =~= lv.take(i as int));
        assert(lv.take(i + 1).last() == lines@[i as int]@);
        assert(out@ =~= start + text_lines(lv.take(i + 1)));
        i += 1;
    }
    assert(lv.take(lines@.len() as int) =~= lv);
}

pub open spec fn file_lines(v: Seq<FileChange>) -> Seq<Seq<char>> {
    v.map_values(|f: FileChange| spec_file_line(f@))
}

pub open spec fn symbol_lines(v: Seq<ChangedSymbol>) -> Seq<Seq<char>> {
    v.map_values(|c: ChangedSymbol| spec_symbol_line(c@))
}

pub open spec fn dependency_lines(v: Seq<DependencyChange>) -> Seq<Seq<char>> {
    v.map_values(|d: DependencyChange| spec_dependency_line(d@))
}

pub open spec fn impact_lines(v: Seq<ImpactedFile>) -> Seq<Seq<char>> {
    v.map_values(|f: ImpactedFile| spec_impact_line(f@))
}

pub open spec fn diagnostic_lines(v: Seq<DiffDiagnostic>) -> Seq<Seq<char>> {
    v.map_values(|d: DiffDiagnostic| spec_diagnostic_line(d@))
}

pub open spec fn top_change_lines(v: Seq<AgentTopChange>) -> Seq<Seq<char>> {
    v.map_values(|c: AgentTopChange| spec_top_change_line(c.risk, crate::model::opt_view(c.symbol), c.path@, c.why_it_matters@))
}

pub open spec fn focus_lines(v: Seq<AgentReviewFocus>) -> Seq<Seq<char>> {
    v.map_values(|f: AgentReviewFocus| "- "@ + f.path@ + ": "@ + f.reason@)
}

pub open spec fn note_lines(v: Seq<String>) -> Seq<Seq<char>> {
    v.map_values(|n: String| "- "@ + n@)
}

fn file_lines_of(v: &Vec<FileChange>) -> (r: Vec<String>)
    ensures
        string_views(r@) == file_lines(v@),
{
    let mut out: Vec<String> = Vec::new();
    let mut i: usize = 0;
    while i < v.len()
        invariant
            i <= v@.len(),
            string_views(out@) == file_lines(v@.take(i as int)),
        decreases v@.len() - i,
    {
        let ghost before = out@;
        out.push(file_line(&v[i]));
        assert(string_views(out@) =~= string_views(before).push(spec_file_line(v@[i as int]@)));
        assert(file_lines(v@.take(i + 1)) =~= file_lines(v@.take(i as int)).push(spec_file_line(v@[i as int]@)));
        i += 1;
    }
    assert(v@.take(v@.len() as int) =~= v@);
    out
}

fn symbol_lines_of(v: &Vec<ChangedSymbol>) -> (r: Vec<String>)
    ensures
        string_views(r@) == symbol_lines(v@),
{
    let mut out: Vec<String> = Vec::new();
    let mut i: usize = 0;
    while i < v.len()
        invariant
            i <= v@.len(),
            string_views(out@) == symbol_lines(v@.take(i as int)),
        decreases v@.len() - i,
    {
        let ghost before = out@;
        out.push(symbol_line(&v[i]));
        assert(string_views(out@) =~= string_views(before).push(spec_symbol_line(v@[i as int]@)));
        assert(symbol_lines(v@.take(i + 1)) =~= symbol_lines(v@.take(i as int)).push(spec_symbol_line(v@[i as int]@)));
        i += 1;
    }
    assert(v@.take(v@.len() as int) =~= v@);
    out
}

fn dependency_lines_of(v: &Vec<DependencyChange>) -> (r: Vec<String>)
    ensures
        string_views(r@) == dependency_lines(v@),
{
    let mut out: Vec<String> = Vec::new();
    let mut i: usize = 0;
    while i < v.len()
        invariant
            i <= v@.len(),
            string_views(out@) == dependency_lines(v@.take(i as int)),
        decreases v@.len() - i,
    {
        let ghost before = out@;
        out.push(dependency_line(&v[i]));
        assert(string_views(out@) =~= string_views(before).push(spec_dependency_line(v@[i as int]@)));
        assert(dependency_lines(v@.take(i + 1)) =~= dependency_lines(v@.take(i as int)).push(spec_dependency_line(v@[i as int]@)));
        i += 1;
    }
    assert(v@.take(v@.len() as int) =~= v@);
    out
}

fn impact_lines_of(v: &Vec<ImpactedFile>) -> (r: Vec<String>)
    ensures
        string_views(r@) == impact_lines(v@),
{
    let mut out: Vec<String> = Vec::new();
    let mut i: usize = 0;
    while i < v.len()
        invariant
            i <= v@.len(),
            string_views(out@) == impact_lines(v@.take(i as int)),
        decreases v@.len() - i,
    {
        let ghost before = out@;
        out.push(impact_line(&v[i]));
        assert(string_views(out@) =~= string_views(before).push(spec_impact_line(v@[i as int]@)));
        assert(impact_lines(v@.take(i + 1)) =~= impact_lines(v@.take(i as int)).push(spec_impact_line(v@[i as int]@)));
        i += 1;
    }
    assert(v@.take(v@.len() as int) =~= v@);
    out
}

fn diagnostic_lines_of(v: &Vec<DiffDiagnostic>) -> (r: Vec<String>)
    ensures
        string_views(r@) == diagnostic_lines(v@),
{
    let mut out: Vec<String> = Vec::new();
    let mut i: usize = 0;
    while i < v.len()
        invariant
            i <= v@.len(),
            string_views(out@) == diagnostic_lines(v@.take(i as int)),
        decreases v@.len() - i,
    {
        let ghost before = out@;
        out.push(diagnostic_line(&v[i]));
        assert(string_views(out@) =~= string_views(before).push(spec_diagnostic_line(v@[i as int]@)));
        assert(diagnostic_lines(v@.take(i + 1)) =~= diagnostic_lines(v@.take(i as int)).push(spec_diagnostic_line(v@[i as int]@)));
        i += 1;
    }
    assert(v@.take(v@.len() as int) =~= v@);
    out
}

fn top_change_lines_of(v: &Vec<AgentTopChange>) -> (r: Vec<String>)
    ensures
        string_views(r@) == top_change_lines(v@),
{
    let mut out: Vec<String> = Vec::new();
    let mut i: usize = 0;
    while i < v.len()
        invariant
            i <= v@.len(),
            string_views(out@) == top_change_lines(v@.take(i as int)),
        decreases v@.len() - i,
    {
        let ghost before = out@;
        let ghost c = v@[i as int];
        out.push(top_change_line(&v[i]));
        assert(string_views(out@) =~= string_views(before).push(spec_top_change_line(c.risk, crate::model::opt_view(c.symbol), c.path@, c.why_it_matters@)));
        assert(top_change_lines(v@.take(i + 1)) =~= top_change_lines(v@.take(i as int)).push(spec_top_change_line(c.risk, crate::model::opt_view(c.symbol), c.path@, c.why_it_matters@)));
        i += 1;
    }
    assert(v@.take(v@.len() as int) =~= v@);
    out
}

fn focus_lines_of(v: &Vec<AgentReviewFocus>) -> (r: Vec<String>)
    ensures
        string_views(r@) == focus_lines(v@),
{
    let mut out: Vec<String> = Vec::new();
    let mut i: usize = 0;
    while i < v.len()
        invariant
            i <= v@.len(),
            string_views(out@) == focus_lines(v@.take(i as int)),
        decreases v@.len() - i,
    {
        let ghost before = out@;
        let ghost f = v@[i as int];
        out.push(focus_line(&v[i]));
        assert(string_views(out@) =~= string_views(before).push("- "@ + f.path@ + ": "@ + f.reason@));
        assert(focus_lines(v@.take(i + 1)) =~= focus_lines(v@.take(i as int)).push("- "@ + f.path@ + ": "@ + f.reason@));
        i += 1;
    }
    assert(v@.take(v@.len() as int) =~= v@);
    out
}

fn note_lines_of(v: &Vec<String>) -> (r: Vec<String>)
    ensures
        string_views(r@) == note_lines(v@),
{
    let mut out: Vec<String> = Vec::new();
    let mut i: usize = 0;
    while i < v.len()
        invariant
            i <= v@.len(),
            string_views(out@) == note_lines(v@.take(i as int)),
        decreases v@.len() - i,
    {
        let ghost before = out@;
        let mut line: Vec<char> = Vec::new();
        push_str(&mut line, "- ");
        push_str(&mut line, v[i].as_str());
        out.push(string_from(&line));
        assert(string_views(out@) =~= string_views(before).push("- "@ + v@[i as int]@));
        assert(note_lines(v@.take(i + 1)) =~= note_lines(v@.take(i as int)).push("- "@ + v@[i as int]@));
        i += 1;
    }
    assert(v@.take(v@.len() as int) =~= v@);
    out
}

/// A block of an agent report: nothing when it has no lines; otherwise a blank
/// line, its title and its lines.
pub open spec fn agent_block(title: Seq<char>, lines: Seq<Seq<char>>) -> Seq<char> {
    if lines.len() == 0 {
        Seq::empty()
    } else {
        "\n"@ + title + "\n"@ + text_lines(lines)
    }
}

/// The text of an agent report: the heading and counts lines, then the top
/// changes, the review focus and the notes, each block only when it has lines.
pub open spec fn spec_agent_report_text(report: AgentDiffReport) -> Seq<char> {
    spec_agent_heading(report.risk, report.base.commit@, report.head.commit@) + "\n"@
        + spec_agent_counts(report.summary) + "\n"@
        + agent_block("Top changes:"@, top_change_lines(report.top_changes@))
        + agent_block("Review focus:"@, focus_lines(report.review_focus@))
        + agent_block("Notes:"@, note_lines(report.notes@))
}

fn push_agent_block(out: &mut Vec<char>, title: &str, lines: &Vec<String>)
    ensures
        final(out)@ == old(out)@ + agent_block(title@, string_views(lines@)),
{
    if lines.len() > 0 {
        push_str(out, "\n");
        push_str(out, title);
        push_str(out, "\n");
        push_lines(out, lines);
        assert(string_views(lines@).len() > 0);
    } else {
        assert(string_views(lines@).len() == 0);
    }
}

/// The text of an agent report, as the command line prints it.
pub fn agent_report_text(report: &AgentDiffReport) -> (r: String)
    ensures
        r@ == spec_agent_report_text(*report),
{
    let mut out: Vec<char> = Vec::new();
    let heading = agent_heading(report);
    push_str(&mut out, heading.as_str());
    push_str(&mut out, "\n");
    let counts = agent_counts(report);
    push_str(&mut out, counts.as_str());
    push_str(&mut out, "\n");
    push_agent_block(&mut out, "Top changes:", &top_change_lines_of(&report.top_changes));
    push_agent_block(&mut out, "Review focus:", &focus_lines_of(&report.review_focus));
    push_agent_block(&mut out, "Notes:", &note_lines_of(&report.notes));
    string_from(&out)
}

/// A section of a plain report: nothing when it has no lines; otherwise its
/// title, its lines and a blank line.
pub open spec fn plain_section(title: Seq<char>, lines: Seq<Seq<char>>) -> Seq<char> {
    if lines.len() == 0 {
        Seq::empty()
    } else {
        title + "\n"@ + text_lines(lines) + "\n"@
    }
}

/// The body of a plain text report: its changed files, changed symbols, public
/// API changes, dependency changes and impacted files, each section only when it
/// has lines, then its diagnostics.
pub open spec fn spec_plain_report_text(report: DiffReport) -> Seq<char> {
    plain_section("Changed files"@, file_lines(report.changed_files@))
        + plain_section("Changed symbols"@, symbol_lines(report.changed_symbols@))
        + plain_section("Public API changes"@, symbol_lines(report.public_api_changes@))
        + plain_section("Dependency changes"@, dependency_lines(report.dependency_changes@))
        + plain_section("Impacted files"@, impact_lines(report.impacted_files@))
        + if report.diagnostics@.len() == 0 {
            Seq::empty()
        } else {
            "Diagnostics\n"@ + text_lines(diagnostic_lines(report.diagnostics@))
        }
}

fn push_plain_section(out: &mut Vec<char>, title: &str, lines: &Vec<String>)
    ensures
        final(out)@ == old(out)@ + plain_section(title@, string_views(lines@)),
{
    if lines.len() > 0 {
        push_str(out, title);
        push_str(out, "\n");
        push_lines(out, lines);
        push_str(out, "\n");
        assert(string_views(lines@).len() > 0);
    } else {
        assert(string_views(lines@).len() == 0);
    }
}

/// The body of a plain text report, as the command line prints it.
pub fn plain_report_text(report: &DiffReport) -> (r: String)
    ensures
        r@ == spec_plain_report_text(*report),
{
    let mut out: Vec<char> = Vec::new();
    push_plain_section(&mut out, "Changed files", &file_lines_of(&report.changed_files));
    push_plain_section(&mut out, "Changed symbols", &symbol_lines_of(&report.changed_symbols));
    push_plain_section(&mut out, "Public API changes", &symbol_lines_of(&report.public_api_changes));
    push_plain_section(&mut out, "Dependency changes", &dependency_lines_of(&report.dependency_changes));
    push_plain_section(&mut out, "Impacted files", &impact_lines_of(&report.impacted_files));
    if report.diagnostics.len() > 0 {
        push_str(&mut out, "Diagnostics\n");
        push_lines(&mut out, &diagnostic_lines_of(&report.diagnostics));
    }
    string_from(&out)
}


/// The table row of a changed file: change, path and previous path.
pub open spec fn file_row(f: FileChangeView) -> Seq<Seq<char>> {
    seq![spec_change_label(f.change), f.path, match f.old_path {
        Some(p) => p,
        None => Seq::<char>::empty(),
    }]
}

pub open spec fn file_rows(v: Seq<FileChange>) -> Seq<Seq<Seq<char>>> {
    v.map_values(|f: FileChange| file_row(f@))
}

pub open spec fn symbol_rows(v: Seq<ChangedSymbol>) -> Seq<Seq<Seq<char>>> {
    v.map_values(|c: ChangedSymbol| spec_symbol_row(c@))
}

pub open spec fn dependency_rows(v: Seq<DependencyChange>) -> Seq<Seq<Seq<char>>> {
    v.map_values(|d: DependencyChange| seq![spec_change_label(d.change), d.file@, d.dependency@, spec_edge_kind_label(d.edge_kind)])
}

pub open spec fn impact_rows(v: Seq<ImpactedFile>) -> Seq<Seq<Seq<char>>> {
    v.map_values(|f: ImpactedFile| seq![f.path@, join_comma(string_views(f.reasons@))])
}

/// No cell of `rows` is within two bytes of the largest `usize`.
pub open spec fn rows_fit(rows: Seq<Seq<Seq<char>>>) -> bool {
    forall|r: int, i: int| 0 <= r < rows.len() && 0 <= i < rows[r].len() ==> #[trigger] blen(rows[r][i]) + 2 <= usize::MAX
}

/// The cells of a report's tables are short enough to be padded.
pub open spec fn report_rows_fit(report: DiffReport) -> bool {
    &&& rows_fit(file_rows(report.changed_files@))
    &&& rows_fit(symbol_rows(report.changed_symbols@))
    &&& rows_fit(dependency_rows(report.dependency_changes@))
    &&& rows_fit(impact_rows(report.impacted_files@))
}

/// The tables of a pretty report: changed files, changed symbols, dependency
/// changes and impacted files.
pub open spec fn spec_pretty_report_text(report: DiffReport, color: bool) -> Seq<char> {
    spec_render_table(seq!["Change"@, "Path"@, "Previous"@], file_rows(report.changed_files@), color)
        + spec_render_table(seq!["Change"@, "Symbol"@, "Kind"@, "Location"@, "Risk"@], symbol_rows(report.changed_symbols@), color)
        + spec_render_table(seq!["Change"@, "File"@, "Dependency"@, "Kind"@], dependency_rows(report.dependency_changes@), color)
        + spec_render_table(seq!["Impacted file"@, "Reason"@], impact_rows(report.impacted_files@), color)
}

fn file_rows_of(v: &Vec<FileChange>) -> (r: Vec<Vec<String>>)
    ensures
        row_views(r@) == file_rows(v@),
{
    let mut out: Vec<Vec<String>> = Vec::new();
    let mut i: usize = 0;
    while i < v.len()
        invariant
            i <= v@.len(),
            row_views(out@) == file_rows(v@.take(i as int)),
        decreases v@.len() - i,
    {
        let f = &v[i];
        let mut row: Vec<String> = Vec::new();
        row.push(string_from(&chars_of(change_label(f.change))));
        row.push(f.path.clone());
        row.push(match &f.old_path {
            Some(p) => p.clone(),
            None => String::new(),
        });
        let ghost cells = file_row(v@[i as int]@);
        assert(string_views(row@) =~= cells);
        let ghost before = out@;
        out.push(row);
        assert(row_views(out@) =~= row_views(before).push(cells));
        assert(file_rows(v@.take(i + 1)) =~= file_rows(v@.take(i as int)).push(cells));
        i += 1;
    }
    assert(v@.take(v@.len() as int) =~= v@);
    out
}

fn symbol_rows_of(v: &Vec<ChangedSymbol>) -> (r: Vec<Vec<String>>)
    ensures
        row_views(r@) == symbol_rows(v@),
{
    let mut out: Vec<Vec<String>> = Vec::new();
    let mut i: usize = 0;
    while i < v.len()
        invariant
            i <= v@.len(),
            row_views(out@) == symbol_rows(v@.take(i as int)),
        decreases v@.len() - i,
    {
        let row = symbol_row(&v[i]);
        let ghost before = out@;
        out.push(row);
        assert(row_views(out@) =~= row_views(before).push(spec_symbol_row(v@[i as int]@)));
        assert(symbol_rows(v@.take(i + 1)) =~= symbol_rows(v@.take(i as int)).push(spec_symbol_row(v@[i as int]@)));
        i += 1;
    }
    assert(v@.take(v@.len() as int) =~= v@);
    out
}

fn dependency_rows_of(v: &Vec<DependencyChange>) -> (r: Vec<Vec<String>>)
    ensures
        row_views(r@) == dependency_rows(v@),
{
    let mut out: Vec<Vec<String>> = Vec::new();
    let mut i: usize = 0;
    while i < v.len()
        invariant
            i <= v@.len(),
            row_views(out@) == dependency_rows(v@.take(i as int)),
        decreases v@.len() - i,
    {
        let d = &v[i];
        let mut row: Vec<String> = Vec::new();
        row.push(string_from(&chars_of(change_label(d.change))));
        row.push(d.file.clone());
        row.push(d.dependency.clone());
        row.push(string_from(&chars_of(edge_kind_label(d.edge_kind))));
        let ghost cells = seq![spec_change_label(d.change), d.file@, d.dependency@, spec_edge_kind_label(d.edge_kind)];
        assert(string_views(row@) =~= cells);
        let ghost before = out@;
        out.push(row);
        assert(row_views(out@) =~= row_views(before).push(cells));
        assert(dependency_rows(v@.take(i + 1)) =~= dependency_rows(v@.take(i as int)).push(cells));
        i += 1;
    }
    assert(v@.take(v@.len() as int) =~= v@);
    out
}

fn impact_rows_of(v: &Vec<ImpactedFile>) -> (r: Vec<Vec<String>>)
    ensures
        row_views(r@) == impact_rows(v@),
{
    let mut out: Vec<Vec<String>> = Vec::new();
    let mut i: usize = 0;
    while i < v.len()
        invariant
            i <= v@.len(),
            row_views(out@) == impact_rows(v@.take(i as int)),
        decreases v@.len() - i,
    {
        let f = &v[i];
        let mut row: Vec<String> = Vec::new();
        row.push(f.path.clone());
        row.push(join_reasons(&f.reasons));
        let ghost cells = seq![f.path@, join_comma(string_views(f.reasons@))];
        assert(string_views(row@) =~= cells);
        let ghost before = out@;
        out.push(row);
        assert(row_views(out@) =~= row_views(before).push(cells));
        assert(impact_rows(v@.take(i + 1)) =~= impact_rows(v@.take(i as int)).push(cells));
        i += 1;
    }
    assert(v@.take(v@.len() as int) =~= v@);
    out
}

fn cells_fit(rows: &Vec<Vec<String>>) -> (r: bool)
    ensures
        r == rows_fit(row_views(rows@)),
{
    let ghost rv = row_views(rows@);
    let mut k: usize = 0;
    while k < rows.len()
        invariant
            k <= rows@.len(),
            rv == row_views(rows@),
            forall|r: int, i: int| 0 <= r < k && 0 <= i < rv[r].len() ==> #[trigger] blen(rv[r][i]) + 2 <= usize::MAX,
        decreases rows@.len() - k,
    {
        let row = &rows[k];
        assert(rv[k as int] == string_views(row@));
        let mut i: usize = 0;
        while i < row.len()
            invariant
                k < rows@.len(),
                i <= row@.len(),
                rv == row_views(rows@),
                rv[k as int] == string_views(row@),
                forall|r: int, j: int| 0 <= r < k && 0 <= j < rv[r].len() ==> #[trigger] blen(rv[r][j]) + 2 <= usize::MAX,
                forall|j: int| 0 <= j < i ==> #[trigger] blen(rv[k as int][j]) + 2 <= usize::MAX,
            decreases row@.len() - i,
        {
            let n = row[i].as_str().as_bytes().len();
            proof {
                assert(rv[k as int][i as int] == row@[i as int]@);
            }
            if n > usize::MAX - 2 {
                assert(blen(rv[k as int][i as int]) + 2 > usize::MAX);
                return false;
            }
            i += 1;
        }
        k += 1;
    }
    true
}

/// Whether the cells of a report's tables are short enough to be padded.
pub fn report_tables_fit(report: &DiffReport) -> (r: bool)
    ensures
        r == report_rows_fit(*report),
{
    cells_fit(&file_rows_of(&report.changed_files))
        && cells_fit(&symbol_rows_of(&report.changed_symbols))
        && cells_fit(&dependency_rows_of(&report.dependency_changes))
        && cells_fit(&impact_rows_of(&report.impacted_files))
}

proof fn lemma_headers_fit(headers: Seq<Seq<char>>, rows: Seq<Seq<Seq<char>>>)
    requires
        rows_fit(rows),
        forall|i: int| 0 <= i < headers.len() ==> #[trigger] headers[i].len() <= 16,
    ensures
        table_fits(headers, rows),
{
    assert forall|i: int| 0 <= i < headers.len() implies #[trigger] blen(headers[i]) + 2 <= usize::MAX by {
        crate::text::lemma_encode_len_bound(headers[i]);
    }
}

fn render_rows(headers: Vec<&str>, rows: &Vec<Vec<String>>, style: TableStyle) -> (r: String)
    requires
        rows_fit(row_views(rows@)),
        forall|i: int| 0 <= i < headers@.len() ==> #[trigger] headers@[i]@.len() <= 16,
    ensures
        r@ == spec_render_table(crate::ids::str_views(headers@), row_views(rows@), style.color),
{
    proof {
        let hv = crate::ids::str_views(headers@);
        assert forall|i: int| 0 <= i < hv.len() implies #[trigger] hv[i].len() <= 16 by {
            assert(hv[i] == headers@[i]@);
        }
        lemma_headers_fit(hv, row_views(rows@));
    }
    render_table(headers.as_slice(), rows, style)
}

/// The tables of a pretty report, as the command line prints them.
pub fn pretty_report_text(report: &DiffReport, color: bool) -> (r: String)
    requires
        report_rows_fit(*report),
    ensures
        r@ == spec_pretty_report_text(*report, color),
{
    proof {
        reveal_strlit("Change");
        reveal_strlit("Path");
        reveal_strlit("Previous");
        reveal_strlit("Symbol");
        reveal_strlit("Kind");
        reveal_strlit("Location");
        reveal_strlit("Risk");
        reveal_strlit("File");
        reveal_strlit("Dependency");
        reveal_strlit("Impacted file");
        reveal_strlit("Reason");
    }
    let style = TableStyle::new(color);
    let mut out: Vec<char> = Vec::new();
    let files = vec!["Change", "Path", "Previous"];
    assert(crate::ids::str_views(files@) =~= seq!["Change"@, "Path"@, "Previous"@]);
    let t = render_rows(files, &file_rows_of(&report.changed_files), style);
    push_str(&mut out, t.as_str());
    let symbols = vec!["Change", "Symbol", "Kind", "Location", "Risk"];
    assert(crate::ids::str_views(symbols@) =~= seq!["Change"@, "Symbol"@, "Kind"@, "Location"@, "Risk"@]);
    let t = render_rows(symbols, &symbol_rows_of(&report.changed_symbols), style);
    push_str(&mut out, t.as_str());
    let dependencies = vec!["Change", "File", "Dependency", "Kind"];
    assert(crate::ids::str_views(dependencies@) =~= seq!["Change"@, "File"@, "Dependency"@, "Kind"@]);
    let t = render_rows(dependencies, &dependency_rows_of(&report.dependency_changes), style);
    push_str(&mut out, t.as_str());
    let impacts = vec!["Impacted file", "Reason"];
    assert(crate::ids::str_views(impacts@) =~= seq!["Impacted file"@, "Reason"@]);
    let t = render_rows(impacts, &impact_rows_of(&report.impacted_files), style);
    push_str(&mut out, t.as_str());
    string_from(&out)
}

} // verus!
