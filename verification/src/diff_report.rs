use crate::diagnostics::Severity;
use crate::language::Language;
use crate::model::{EdgeKind, SymbolKind};
use crate::span::SourceSpan;
use vstd::prelude::*;

verus! {

/// How a file or fact changed between two references.
#[derive(Clone, Copy, Debug, PartialEq, Eq, Structural)]
pub enum ChangeKind {
    Added,
    Removed,
    Modified,
    Renamed,
    TypeChanged,
    Copied,
}

/// Which of the two compared references a fact comes from.
#[derive(Clone, Copy, Debug, PartialEq, Eq, Structural)]
pub enum RefSide {
    Base,
    Head,
}

/// How risky a change is to review.
#[derive(Clone, Copy, Debug, PartialEq, Eq, Structural)]
pub enum RiskLevel {
    Low,
    Medium,
    High,
}

/// A compared reference: its name and the commit it resolved to.
#[derive(Debug)]
pub struct RefSummary {
    pub name: String,
    pub commit: String,
}

/// A changed file; renames and copies carry the old path.
#[derive(Debug)]
pub struct FileChange {
    pub change: ChangeKind,
    pub path: String,
    pub old_path: Option<String>,
}

/// What a file change holds, as plain values.
pub struct FileChangeView {
    pub change: ChangeKind,
    pub path: Seq<char>,
    pub old_path: Option<Seq<char>>,
}

impl View for FileChange {
    type V = FileChangeView;

    open spec fn view(&self) -> FileChangeView {
        FileChangeView {
            change: self.change,
            path: self.path@,
            old_path: match self.old_path {
                Some(p) => Some(p@),
                None => None,
            },
        }
    }
}

/// A symbol on one side of a diff.
#[derive(Debug)]
pub struct SymbolSummary {
    pub name: String,
    pub qualified_name: Option<String>,
    pub kind: Option<SymbolKind>,
    pub language: Language,
    pub file: String,
    pub span: Option<SourceSpan>,
}

/// What a symbol summary holds, as plain values.
pub struct SymbolSummaryView {
    pub name: Seq<char>,
    pub qualified_name: Option<Seq<char>>,
    pub kind: Option<SymbolKind>,
    pub language: Language,
    pub file: Seq<char>,
    pub span: Option<SourceSpan>,
}

impl View for SymbolSummary {
    type V = SymbolSummaryView;

    open spec fn view(&self) -> SymbolSummaryView {
        SymbolSummaryView {
            name: self.name@,
            qualified_name: match self.qualified_name {
                Some(q) => Some(q@),
                None => None,
            },
            kind: self.kind,
            language: self.language,
            file: self.file@,
            span: self.span,
        }
    }
}

/// A symbol that changed, with its two sides.
#[derive(Debug)]
pub struct ChangedSymbol {
    pub change: ChangeKind,
    pub before: Option<SymbolSummary>,
    pub after: Option<SymbolSummary>,
    pub public_api: bool,
    pub risk: RiskLevel,
    pub reason: String,
}

/// What a changed symbol holds, as plain values.
pub struct ChangedSymbolView {
    pub change: ChangeKind,
    pub before: Option<SymbolSummaryView>,
    pub after: Option<SymbolSummaryView>,
    pub public_api: bool,
    pub risk: RiskLevel,
    pub reason: Seq<char>,
}

impl View for ChangedSymbol {
    type V = ChangedSymbolView;

    open spec fn view(&self) -> ChangedSymbolView {
        ChangedSymbolView {
            change: self.change,
            before: match self.before {
                Some(s) => Some(s@),
                None => None,
            },
            after: match self.after {
                Some(s) => Some(s@),
                None => None,
            },
            public_api: self.public_api,
            risk: self.risk,
            reason: self.reason@,
        }
    }
}

/// A dependency added or removed in a file.
#[derive(Debug)]
pub struct DependencyChange {
    pub change: ChangeKind,
    pub file: String,
    pub dependency: String,
    pub edge_kind: EdgeKind,
}

/// What a dependency change holds, as plain values.
pub struct DependencyChangeView {
    pub change: ChangeKind,
    pub file: Seq<char>,
    pub dependency: Seq<char>,
    pub edge_kind: EdgeKind,
}

impl View for DependencyChange {
    type V = DependencyChangeView;

    open spec fn view(&self) -> DependencyChangeView {
        DependencyChangeView {
            change: self.change,
            file: self.file@,
            dependency: self.dependency@,
            edge_kind: self.edge_kind,
        }
    }
}

/// A file that the change reaches, with why.
#[derive(Debug)]
pub struct ImpactedFile {
    pub path: String,
    pub reasons: Vec<String>,
}

/// What an impacted file holds, as plain values.
pub struct ImpactedFileView {
    pub path: Seq<char>,
    pub reasons: Seq<Seq<char>>,
}

impl View for ImpactedFile {
    type V = ImpactedFileView;

    open spec fn view(&self) -> ImpactedFileView {
        ImpactedFileView { path: self.path@, reasons: self.reasons@.map_values(|r: String| r@) }
    }
}

/// A diagnostic of one side of the diff.
#[derive(Debug)]
pub struct DiffDiagnostic {
    pub reference: RefSide,
    pub file: Option<String>,
    pub severity: Severity,
    pub message: String,
    pub span: Option<SourceSpan>,
}

/// What a diff diagnostic holds, as plain values.
pub struct DiffDiagnosticView {
    pub reference: RefSide,
    pub file: Option<Seq<char>>,
    pub severity: Severity,
    pub message: Seq<char>,
    pub span: Option<SourceSpan>,
}

impl View for DiffDiagnostic {
    type V = DiffDiagnosticView;

    open spec fn view(&self) -> DiffDiagnosticView {
        DiffDiagnosticView {
            reference: self.reference,
            file: match self.file {
                Some(f) => Some(f@),
                None => None,
            },
            severity: self.severity,
            message: self.message@,
            span: self.span,
        }
    }
}

/// Counts of what changed.
#[derive(Debug, Clone, Copy, PartialEq, Eq, Structural)]
pub struct DiffStats {
    pub files_added: usize,
    pub files_removed: usize,
    pub files_modified: usize,
    pub files_renamed: usize,
    pub symbols_added: usize,
    pub symbols_removed: usize,
    pub symbols_modified: usize,
    pub public_api_changes: usize,
    pub dependency_changes: usize,
    pub impacted_files: usize,
    pub diagnostics: usize,
    pub base_indexed_files: usize,
    pub head_indexed_files: usize,
    pub base_skipped_files: usize,
    pub head_skipped_files: usize,
}

impl Default for DiffStats {
    fn default() -> (r: Self)
        ensures
            r == DiffStats::zero_spec(),
    {
        DiffStats {
            files_added: 0,
            files_removed: 0,
            files_modified: 0,
            files_renamed: 0,
            symbols_added: 0,
            symbols_removed: 0,
            symbols_modified: 0,
            public_api_changes: 0,
            dependency_changes: 0,
            impacted_files: 0,
            diagnostics: 0,
            base_indexed_files: 0,
            head_indexed_files: 0,
            base_skipped_files: 0,
            head_skipped_files: 0,
        }
    }
}

impl DiffStats {
    /// All counts zero.
    pub open spec fn zero_spec() -> DiffStats {
        DiffStats {
            files_added: 0,
            files_removed: 0,
            files_modified: 0,
            files_renamed: 0,
            symbols_added: 0,
            symbols_removed: 0,
            symbols_modified: 0,
            public_api_changes: 0,
            dependency_changes: 0,
            impacted_files: 0,
            diagnostics: 0,
            base_indexed_files: 0,
            head_indexed_files: 0,
            base_skipped_files: 0,
            head_skipped_files: 0,
        }
    }
}

/// The semantic difference between two references.
#[derive(Debug)]
pub struct DiffReport {
    pub base: RefSummary,
    pub head: RefSummary,
    pub changed_files: Vec<FileChange>,
    pub changed_symbols: Vec<ChangedSymbol>,
    pub public_api_changes: Vec<ChangedSymbol>,
    pub dependency_changes: Vec<DependencyChange>,
    pub impacted_files: Vec<ImpactedFile>,
    pub diagnostics: Vec<DiffDiagnostic>,
    pub stats: DiffStats,
}

/// Headline counts of the agent summary.
#[derive(Debug)]
pub struct AgentDiffStats {
    pub files_changed: usize,
    pub public_api_changes: usize,
    pub important_symbol_changes: usize,
    pub dependency_changes: usize,
    pub diagnostics: usize,
    pub tests_changed: bool,
}

/// One of the changes an agent should look at first.
#[derive(Debug)]
pub struct AgentTopChange {
    pub kind: String,
    pub path: String,
    pub symbol: Option<String>,
    pub risk: RiskLevel,
    pub why_it_matters: String,
}

/// A file to review, with why.
#[derive(Debug)]
pub struct AgentReviewFocus {
    pub path: String,
    pub reason: String,
}

/// A diff condensed for an agent.
#[derive(Debug)]
pub struct AgentDiffReport {
    pub base: RefSummary,
    pub head: RefSummary,
    pub risk: RiskLevel,
    pub summary: AgentDiffStats,
    pub top_changes: Vec<AgentTopChange>,
    pub review_focus: Vec<AgentReviewFocus>,
    pub notes: Vec<String>,
}

pub open spec fn spec_change_label(change: ChangeKind) -> Seq<char> {
    match change {
        ChangeKind::Added => "added"@,
        ChangeKind::Removed => "removed"@,
        ChangeKind::Modified => "modified"@,
        ChangeKind::Renamed => "renamed"@,
        ChangeKind::TypeChanged => "type-changed"@,
        ChangeKind::Copied => "copied"@,
    }
}

/// The label of a change kind.
pub fn change_label(change: ChangeKind) -> (r: &'static str)
    ensures
        r@ == spec_change_label(change),
{
    match change {
        ChangeKind::Added => "added",
        ChangeKind::Removed => "removed",
        ChangeKind::Modified => "modified",
        ChangeKind::Renamed => "renamed",
        ChangeKind::TypeChanged => "type-changed",
        ChangeKind::Copied => "copied",
    }
}

pub open spec fn spec_edge_kind_label(kind: EdgeKind) -> Seq<char> {
    match kind {
        EdgeKind::Contains => "contains"@,
        EdgeKind::Defines => "defines"@,
        EdgeKind::Imports => "imports"@,
        EdgeKind::Exports => "exports"@,
        EdgeKind::Calls => "calls"@,
        EdgeKind::References => "references"@,
        EdgeKind::Extends => "extends"@,
        EdgeKind::Implements => "implements"@,
        EdgeKind::Overrides => "overrides"@,
        EdgeKind::DependsOn => "depends-on"@,
        EdgeKind::Tests => "tests"@,
    }
}

/// The label of an edge kind.
pub fn edge_kind_label(kind: EdgeKind) -> (r: &'static str)
    ensures
        r@ == spec_edge_kind_label(kind),
{
    match kind {
        EdgeKind::Contains => "contains",
        EdgeKind::Defines => "defines",
        EdgeKind::Imports => "imports",
        EdgeKind::Exports => "exports",
        EdgeKind::Calls => "calls",
        EdgeKind::References => "references",
        EdgeKind::Extends => "extends",
        EdgeKind::Implements => "implements",
        EdgeKind::Overrides => "overrides",
        EdgeKind::DependsOn => "depends-on",
        EdgeKind::Tests => "tests",
    }
}

pub open spec fn spec_edge_impact_label(kind: EdgeKind) -> Seq<char> {
    match kind {
        EdgeKind::Imports => "imports"@,
        EdgeKind::DependsOn => "depends on"@,
        EdgeKind::Calls => "calls"@,
        EdgeKind::References => "references"@,
        _ => "uses"@,
    }
}

/// How an edge reaches an impacted file, in words.
pub fn edge_impact_label(kind: EdgeKind) -> (r: &'static str)
    ensures
        r@ == spec_edge_impact_label(kind),
{
    match kind {
        EdgeKind::Imports => "imports",
        EdgeKind::DependsOn => "depends on",
        EdgeKind::Calls => "calls",
        EdgeKind::References => "references",
        _ => "uses",
    }
}

pub open spec fn spec_risk_label(risk: RiskLevel) -> Seq<char> {
    match risk {
        RiskLevel::Low => "low"@,
        RiskLevel::Medium => "medium"@,
        RiskLevel::High => "high"@,
    }
}

/// The label of a risk level.
pub fn risk_label(risk: RiskLevel) -> (r: &'static str)
    ensures
        r@ == spec_risk_label(risk),
{
    match risk {
        RiskLevel::Low => "low",
        RiskLevel::Medium => "medium",
        RiskLevel::High => "high",
    }
}

pub open spec fn spec_ref_side_label(side: RefSide) -> Seq<char> {
    match side {
        RefSide::Base => "base"@,
        RefSide::Head => "head"@,
    }
}

/// The label of a side of the diff.
pub fn ref_side_label(side: RefSide) -> (r: &'static str)
    ensures
        r@ == spec_ref_side_label(side),
{
    match side {
        RefSide::Base => "base",
        RefSide::Head => "head",
    }
}

pub open spec fn spec_symbol_kind_label(kind: SymbolKind) -> Seq<char> {
    match kind {
        SymbolKind::Function => "function"@,
        SymbolKind::Method => "method"@,
        SymbolKind::Class => "class"@,
        SymbolKind::Interface => "interface"@,
        SymbolKind::TypeAlias => "type-alias"@,
        SymbolKind::Enum => "enum"@,
        SymbolKind::Variable => "variable"@,
        SymbolKind::Module => "module"@,
        SymbolKind::Field => "field"@,
        SymbolKind::Unknown => "unknown"@,
    }
}

/// The label of a symbol kind.
pub fn symbol_kind_label(kind: SymbolKind) -> (r: &'static str)
    ensures
        r@ == spec_symbol_kind_label(kind),
{
    match kind {
        SymbolKind::Function => "function",
        SymbolKind::Method => "method",
        SymbolKind::Class => "class",
        SymbolKind::Interface => "interface",
        SymbolKind::TypeAlias => "type-alias",
        SymbolKind::Enum => "enum",
        SymbolKind::Variable => "variable",
        SymbolKind::Module => "module",
        SymbolKind::Field => "field",
        SymbolKind::Unknown => "unknown",
    }
}

/// The risk of a symbol change: removing public API is high; any other public
/// API change, and removing a private symbol, is medium; the rest is low.
pub open spec fn spec_risk_for(change: ChangeKind, public_api: bool) -> RiskLevel {
    if public_api {
        if change == ChangeKind::Removed {
            RiskLevel::High
        } else {
            RiskLevel::Medium
        }
    } else if change == ChangeKind::Removed {
        RiskLevel::Medium
    } else {
        RiskLevel::Low
    }
}

/// The risk of a symbol change.
pub fn risk_for(change: ChangeKind, public_api: bool) -> (r: RiskLevel)
    ensures
        r == spec_risk_for(change, public_api),
{
    match (change, public_api) {
        (ChangeKind::Removed, true) => RiskLevel::High,
        (ChangeKind::Modified, true) | (ChangeKind::TypeChanged, true) => RiskLevel::Medium,
        (_, true) => RiskLevel::Medium,
        (ChangeKind::Removed, false) => RiskLevel::Medium,
        _ => RiskLevel::Low,
    }
}

/// A public API change is never less risky than the same change to a private
/// symbol.
pub proof fn public_api_raises_risk(change: ChangeKind)
    ensures
        risk_rank(spec_risk_for(change, true)) >= risk_rank(spec_risk_for(change, false)),
        spec_risk_for(change, true) != RiskLevel::Low,
{
}

pub open spec fn risk_rank(r: RiskLevel) -> int {
    match r {
        RiskLevel::Low => 0,
        RiskLevel::Medium => 1,
        RiskLevel::High => 2,
    }
}

/// Number of file changes of a kind in the `a`, `b` pair.
pub open spec fn count_files(files: Seq<FileChangeView>, a: ChangeKind, b: ChangeKind) -> nat
    decreases files.len(),
{
    if files.len() == 0 {
        0
    } else {
        count_files(files.drop_last(), a, b) + if files.last().change == a || files.last().change == b {
            1nat
        } else {
            0nat
        }
    }
}

/// Number of symbol changes of one of the kinds `a`, `b`, `c`.
pub open spec fn count_symbols(symbols: Seq<ChangedSymbolView>, a: ChangeKind, b: ChangeKind, c: ChangeKind) -> nat
    decreases symbols.len(),
{
    if symbols.len() == 0 {
        0
    } else {
        count_symbols(symbols.drop_last(), a, b, c) + if symbols.last().change == a || symbols.last().change
            == b || symbols.last().change == c {
            1nat
        } else {
            0nat
        }
    }
}

pub open spec fn file_views(v: Seq<FileChange>) -> Seq<FileChangeView> {
    v.map_values(|f: FileChange| f@)
}

pub open spec fn dependency_views(v: Seq<DependencyChange>) -> Seq<DependencyChangeView> {
    v.map_values(|d: DependencyChange| d@)
}

pub open spec fn diagnostic_views(v: Seq<DiffDiagnostic>) -> Seq<DiffDiagnosticView> {
    v.map_values(|d: DiffDiagnostic| d@)
}

pub open spec fn impacted_views(v: Seq<ImpactedFile>) -> Seq<ImpactedFileView> {
    v.map_values(|d: ImpactedFile| d@)
}

pub open spec fn changed_symbol_views(v: Seq<ChangedSymbol>) -> Seq<ChangedSymbolView> {
    v.map_values(|s: ChangedSymbol| s@)
}

/// Counts of a diff: files and symbols by how they changed, and the given totals.
pub fn stats(
    files: &Vec<FileChange>,
    symbols: &Vec<ChangedSymbol>,
    public_api_changes: usize,
    dependency_changes: usize,
    impacted_files: usize,
    diagnostics: usize,
    base_indexed_files: usize,
    head_indexed_files: usize,
    base_skipped_files: usize,
    head_skipped_files: usize,
) -> (r: DiffStats)
    ensures
        r.files_added == count_files(file_views(files@), ChangeKind::Added, ChangeKind::Copied),
        r.files_removed == count_files(file_views(files@), ChangeKind::Removed, ChangeKind::Removed),
        r.files_modified == count_files(file_views(files@), ChangeKind::Modified, ChangeKind::TypeChanged),
        r.files_renamed == count_files(file_views(files@), ChangeKind::Renamed, ChangeKind::Renamed),
        r.symbols_added == count_symbols(changed_symbol_views(symbols@), ChangeKind::Added, ChangeKind::Copied, ChangeKind::Copied),
        r.symbols_removed == count_symbols(changed_symbol_views(symbols@), ChangeKind::Removed, ChangeKind::Removed, ChangeKind::Removed),
        r.symbols_modified == count_symbols(changed_symbol_views(symbols@), ChangeKind::Modified, ChangeKind::Renamed, ChangeKind::TypeChanged),
        r.public_api_changes == public_api_changes,
        r.dependency_changes == dependency_changes,
        r.impacted_files == impacted_files,
        r.diagnostics == diagnostics,
        r.base_indexed_files == base_indexed_files,
        r.head_indexed_files == head_indexed_files,
        r.base_skipped_files == base_skipped_files,
        r.head_skipped_files == head_skipped_files,
{
    let ghost fv = file_views(files@);
    let mut added: usize = 0;
    let mut removed: usize = 0;
    let mut modified: usize = 0;
    let mut renamed: usize = 0;
    let mut i: usize = 0;
    while i < files.len()
        invariant
            i <= files.len(),
            fv == file_views(files@),
            added == count_files(fv.take(i as int), ChangeKind::Added, ChangeKind::Copied),
            removed == count_files(fv.take(i as int), ChangeKind::Removed, ChangeKind::Removed),
            modified == count_files(fv.take(i as int), ChangeKind::Modified, ChangeKind::TypeChanged),
            renamed == count_files(fv.take(i as int), ChangeKind::Renamed, ChangeKind::Renamed),
            added + removed + modified + renamed <= i,
        decreases files.len() - i,
    {
        assert(fv.take(i + 1).drop_last() =~= fv.take(i as int));
        assert(fv.take(i + 1).last() == files@[i as int]@);
        match files[i].change {
            ChangeKind::Added | ChangeKind::Copied => added += 1,
            ChangeKind::Removed => removed += 1,
            ChangeKind::Modified | ChangeKind::TypeChanged => modified += 1,
            ChangeKind::Renamed => renamed += 1,
        }
        i += 1;
    }
    assert(fv.take(files.len() as int) =~= fv);
    let ghost sv = changed_symbol_views(symbols@);
    let mut s_added: usize = 0;
    let mut s_removed: usize = 0;
    let mut s_modified: usize = 0;
    let mut j: usize = 0;
    while j < symbols.len()
        invariant
            j <= symbols.len(),
            sv == changed_symbol_views(symbols@),
            s_added == count_symbols(sv.take(j as int), ChangeKind::Added, ChangeKind::Copied, ChangeKind::Copied),
            s_removed == count_symbols(sv.take(j as int), ChangeKind::Removed, ChangeKind::Removed, ChangeKind::Removed),
            s_modified == count_symbols(sv.take(j as int), ChangeKind::Modified, ChangeKind::Renamed, ChangeKind::TypeChanged),
            s_added + s_removed + s_modified <= j,
        decreases symbols.len() - j,
    {
        assert(sv.take(j + 1).drop_last() =~= sv.take(j as int));
        assert(sv.take(j + 1).last() == symbols@[j as int]@);
        match symbols[j].change {
            ChangeKind::Added | ChangeKind::Copied => s_added += 1,
            ChangeKind::Removed => s_removed += 1,
            _ => s_modified += 1,
        }
        j += 1;
    }
    assert(sv.take(symbols.len() as int) =~= sv);
    DiffStats {
        files_added: added,
        files_removed: removed,
        files_modified: modified,
        files_renamed: renamed,
        symbols_added: s_added,
        symbols_removed: s_removed,
        symbols_modified: s_modified,
        public_api_changes,
        dependency_changes,
        impacted_files,
        diagnostics,
        base_indexed_files,
        head_indexed_files,
        base_skipped_files,
        head_skipped_files,
    }
}

} // verus!
