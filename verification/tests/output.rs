use aci::diagnostics::Severity;
use aci::diff_report::{
    AgentDiffReport, AgentDiffStats, AgentReviewFocus, AgentTopChange, ChangeKind, ChangedSymbol,
    DependencyChange, DiffDiagnostic, DiffReport, DiffStats, FileChange, ImpactedFile, RefSide,
    RefSummary, RiskLevel, SymbolSummary,
};
use aci::diff_text::{
    agent_report_text, dependency_line, file_line, impact_line, plain_report_text, pretty_report_text,
    report_tables_fit, short_commit, symbol_line, symbol_row,
};
use aci::language::Language;
use aci::model::{EdgeKind, SymbolKind};
use aci::cli::{BenchExtractionVariant, ColorChoice, DiffOptions};
use aci::syntax::ExtractionMode;
use aci::output::{format_location, render_table, Output, TableStyle};
use aci::span::{LineColumn, SourceSpan};
use aci::syntax::query_sources_for;

#[test]
fn renders_pretty_table_with_aligned_columns() {
    let rows = vec![
        vec!["app.main".to_string(), "Function".to_string()],
        vec!["Service.run".to_string(), "Method".to_string()],
    ];

    assert_eq!(
        render_table(&["Symbol", "Kind"], &rows, TableStyle::new(false)),
        [
            "+-------------+----------+\n",
            "| Symbol      | Kind     |\n",
            "+-------------+----------+\n",
            "| app.main    | Function |\n",
            "| Service.run | Method   |\n",
            "+-------------+----------+\n",
        ]
        .concat()
    );
}

#[test]
fn renders_empty_pretty_table_as_message() {
    assert_eq!(
        render_table(&["Symbol"], &Vec::new(), TableStyle::new(false)),
        "No results.\n"
    );
}

#[test]
fn renders_simplified_colorized_table_when_enabled() {
    let rows = vec![vec!["app.main".to_string()]];

    assert_eq!(
        render_table(&["Symbol"], &rows, TableStyle::new(true)),
        ["\u{1b}[1m\u{1b}[36mSymbol  \u{1b}[0m\n", "app.main\n"].concat()
    );
}

#[test]
fn formats_path_and_start_position_as_location() {
    let span = SourceSpan::new(10, 20, LineColumn::new(4, 7), LineColumn::new(4, 17));

    assert_eq!(
        format_location(Some("src/main.rs"), Some(&span)),
        Some("src/main.rs:4:7".to_string())
    );
}

#[test]
fn output_formats_labels_and_values() {
    let output = Output::new(true);
    assert!(output.label("indexed").contains("\x1b[1m"));
    assert!(output.label("indexed").contains("\x1b[36m"));
    assert!(output.value(42).contains("\x1b[1m"));
    assert!(output.success("done").contains("\x1b[32m"));
    assert!(output.warning("skipped").contains("\x1b[33m"));
    assert!(output.path("/foo").contains("\x1b[34m"));
    assert!(output.dim("secondary").contains("\x1b[2m"));

    let plain = Output::new(false);
    assert_eq!(plain.label("indexed"), "indexed");
    assert_eq!(plain.value(42), "42");
}

#[test]
fn declares_standard_query_sources() {
    let sources = query_sources_for("languages/python");
    assert_eq!(sources.len(), 3);
    assert!(sources.iter().any(|source| source.name == "symbols.scm"));
    assert!(sources
        .iter()
        .any(|source| source.path.ends_with("queries/calls.scm")));
}

#[test]
fn diff_lines_are_tab_separated() {
    let renamed = FileChange { change: ChangeKind::Renamed, path: "src/new.ts".to_string(), old_path: Some("src/old.ts".to_string()) };
    assert_eq!(file_line(&renamed), "renamed\tsrc/new.ts\tsrc/old.ts");
    let symbol = ChangedSymbol {
        change: ChangeKind::Modified,
        before: None,
        after: Some(SymbolSummary {
            name: "run".to_string(),
            qualified_name: Some("lib.A.run".to_string()),
            kind: Some(SymbolKind::Method),
            language: Language::TypeScript,
            file: "src/lib.ts".to_string(),
            span: Some(SourceSpan::new(10, 20, LineColumn::new(3, 5), LineColumn::new(3, 9))),
        }),
        public_api: true,
        risk: RiskLevel::Medium,
        reason: "symbol body or span changed".to_string(),
    };
    assert_eq!(symbol_line(&symbol), "modified\tlib.A.run\tsrc/lib.ts:3:5\tmedium\tsymbol body or span changed");
    assert_eq!(symbol_row(&symbol), vec!["modified", "lib.A.run", "method", "src/lib.ts:3:5", "medium"]);
    let dependency = DependencyChange { change: ChangeKind::Added, file: "package.json".to_string(), dependency: "lodash".to_string(), edge_kind: EdgeKind::DependsOn };
    assert_eq!(dependency_line(&dependency), "added\tpackage.json\tlodash\tdepends-on");
    let impact = ImpactedFile { path: "src/app.ts".to_string(), reasons: vec!["calls changed".to_string(), "file modified".to_string()] };
    assert_eq!(impact_line(&impact), "src/app.ts\tcalls changed, file modified");
    assert_eq!(short_commit("0123456789abcdef"), "0123456789ab");
    assert_eq!(short_commit("abc"), "abc");
}

#[test]
fn color_and_bench_choices() {
    assert!(ColorChoice::Auto.enabled(true));
    assert!(!ColorChoice::Auto.enabled(false));
    assert!(ColorChoice::Always.enabled(false));
    assert!(!ColorChoice::Never.enabled(true));
    assert_eq!(BenchExtractionVariant::TreeSitterFallback.mode(), ExtractionMode::TreeSitterWithFallback);
    let options = DiffOptions::new("main".to_string(), "feature".to_string(), 8)
        .with_repo_root("/repo".to_string())
        .with_workers(0)
        .with_max_parse_bytes(Some(1024));
    assert_eq!(options.workers, 1);
    assert_eq!(options.repo_root, "/repo");
    assert_eq!(options.max_parse_bytes, Some(1024));
}

#[test]
fn agent_report_text_lists_only_non_empty_blocks() {
    let report = AgentDiffReport {
        base: RefSummary { name: "main".to_string(), commit: "0123456789abcdef".to_string() },
        head: RefSummary { name: "feature".to_string(), commit: "fedcba9876543210".to_string() },
        risk: RiskLevel::High,
        summary: AgentDiffStats {
            files_changed: 2,
            public_api_changes: 1,
            important_symbol_changes: 1,
            dependency_changes: 0,
            diagnostics: 0,
            tests_changed: false,
        },
        top_changes: vec![AgentTopChange {
            kind: "symbol".to_string(),
            path: "src/lib.rs".to_string(),
            symbol: Some("run".to_string()),
            risk: RiskLevel::High,
            why_it_matters: "public API modified".to_string(),
        }],
        review_focus: Vec::new(),
        notes: vec!["No test files changed.".to_string()],
    };
    assert_eq!(
        agent_report_text(&report),
        "Risk: high 0123456789ab..fedcba987654\n\
         Files: 2 changed | Public API: 1 | Important symbols: 1 | Dependencies: 0 | Diagnostics: 0 | Tests changed: no\n\
         \n\
         Top changes:\n\
         - [high] run in src/lib.rs: public API modified\n\
         \n\
         Notes:\n\
         - No test files changed.\n"
    );
}

#[test]
fn plain_report_text_skips_empty_sections() {
    let report = DiffReport {
        base: RefSummary { name: "main".to_string(), commit: "a".to_string() },
        head: RefSummary { name: "feature".to_string(), commit: "b".to_string() },
        changed_files: vec![FileChange { change: ChangeKind::Modified, path: "src/lib.rs".to_string(), old_path: None }],
        changed_symbols: Vec::new(),
        public_api_changes: Vec::new(),
        dependency_changes: Vec::new(),
        impacted_files: vec![ImpactedFile { path: "src/lib.rs".to_string(), reasons: vec!["file modified".to_string()] }],
        diagnostics: vec![DiffDiagnostic {
            reference: RefSide::Head,
            file: None,
            severity: Severity::Warning,
            message: "parse skipped".to_string(),
            span: None,
        }],
        stats: DiffStats::default(),
    };
    assert_eq!(
        plain_report_text(&report),
        "Changed files\nmodified\tsrc/lib.rs\n\nImpacted files\nsrc/lib.rs\tfile modified\n\nDiagnostics\nhead\twarning\t<unknown>\tparse skipped\n"
    );
}

#[test]
fn pretty_report_text_renders_each_table() {
    let report = DiffReport {
        base: RefSummary { name: "main".to_string(), commit: "a".to_string() },
        head: RefSummary { name: "feature".to_string(), commit: "b".to_string() },
        changed_files: vec![FileChange { change: ChangeKind::Added, path: "src/a.rs".to_string(), old_path: None }],
        changed_symbols: Vec::new(),
        public_api_changes: Vec::new(),
        dependency_changes: Vec::new(),
        impacted_files: vec![ImpactedFile { path: "src/a.rs".to_string(), reasons: vec!["file added".to_string()] }],
        diagnostics: Vec::new(),
        stats: DiffStats::default(),
    };
    assert!(report_tables_fit(&report));
    assert_eq!(
        pretty_report_text(&report, false),
        [
            "+--------+----------+----------+\n",
            "| Change | Path     | Previous |\n",
            "+--------+----------+----------+\n",
            "| added  | src/a.rs |          |\n",
            "+--------+----------+----------+\n",
            "No results.\n",
            "No results.\n",
            "+---------------+------------+\n",
            "| Impacted file | Reason     |\n",
            "+---------------+------------+\n",
            "| src/a.rs      | file added |\n",
            "+---------------+------------+\n",
        ]
        .concat()
    );
}
