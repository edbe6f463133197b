use aci::agent::summarize_for_agent;
use aci::compare::{compare_refs, IndexedRef};
use aci::model::SourceFile;
use aci::registry::default_registry;
use aci::diff_report::{
    ChangeKind, ChangedSymbol, DiffReport, DiffStats, FileChange, RefSummary, RiskLevel,
    SymbolSummary,
};
use aci::git_status::{git_error_message, parse_name_status_z};
use aci::ids::RepositoryId;
use aci::language::Language;
use aci::model::{GraphNode, NodeKind, SymbolKind};
use aci::quality::{Confidence, FactProvenance};
use aci::span::{LineColumn, SourceSpan};
use aci::symbol_identity::symbol_key;

#[test]
fn agent_summary_prioritizes_public_api_and_review_focus() {
    let report = DiffReport {
        base: RefSummary {
            name: "main".to_string(),
            commit: "base".to_string(),
        },
        head: RefSummary {
            name: "feature".to_string(),
            commit: "head".to_string(),
        },
        changed_files: vec![FileChange {
            change: ChangeKind::Modified,
            path: "src/lib.ts".to_string(),
            old_path: None,
        }],
        changed_symbols: vec![ChangedSymbol {
            change: ChangeKind::Modified,
            before: None,
            after: Some(SymbolSummary {
                name: "run".to_string(),
                qualified_name: Some("lib.run".to_string()),
                kind: Some(SymbolKind::Function),
                language: Language::TypeScript,
                file: "src/lib.ts".to_string(),
                span: None,
            }),
            public_api: true,
            risk: RiskLevel::Medium,
            reason: "symbol body or span changed".to_string(),
        }],
        public_api_changes: Vec::new(),
        dependency_changes: Vec::new(),
        impacted_files: Vec::new(),
        diagnostics: Vec::new(),
        stats: DiffStats::default(),
    };

    let summary = summarize_for_agent(&report);

    assert_eq!(summary.risk, RiskLevel::Medium);
    assert_eq!(summary.summary.important_symbol_changes, 1);
    assert_eq!(summary.top_changes[0].symbol.as_deref(), Some("lib.run"));
    assert_eq!(summary.review_focus[0].path, "src/lib.ts");
}

#[test]
fn parses_nul_separated_name_status_with_special_paths() {
    let input = b"M\0src/has space.ts\0A\0src/has\ttab.ts\0D\0src/has\nnewline.ts\0";
    let changes = parse_name_status_z(input).expect("parse name-status");

    assert_eq!(changes.len(), 3);
    assert_eq!(changes[0].change, ChangeKind::Modified);
    assert_eq!(changes[0].path, "src/has space.ts");
    assert_eq!(changes[1].change, ChangeKind::Added);
    assert_eq!(changes[1].path, "src/has\ttab.ts");
    assert_eq!(changes[2].change, ChangeKind::Removed);
    assert_eq!(changes[2].path, "src/has\nnewline.ts");
}

#[test]
fn parses_nul_separated_renames() {
    let input = b"R100\0src/old name.ts\0src/new name.ts\0";
    let changes = parse_name_status_z(input).expect("parse rename");

    assert_eq!(changes.len(), 1);
    assert_eq!(changes[0].change, ChangeKind::Renamed);
    assert_eq!(changes[0].old_path, Some("src/old name.ts".to_string()));
    assert_eq!(changes[0].path, "src/new name.ts");
}

fn node(qualified: &str, name: &str, kind: SymbolKind) -> GraphNode {
    GraphNode::deterministic(
        &RepositoryId::new("repo", &["fixture"]),
        None,
        NodeKind::Symbol,
        Language::TypeScript,
        Some(name.to_string()),
        Some(qualified.to_string()),
        Some(SourceSpan::new(0, 1, LineColumn::new(1, 1), LineColumn::new(1, 2))),
    )
    .with_symbol_kind(kind)
    .with_fact_quality(FactProvenance::TreeSitter, Confidence::High)
}

#[test]
fn scoped_identity_keeps_owner_after_file_module_prefix() {
    let left = node("lib.A.run", "run", SymbolKind::Method);
    let right = node("lib.B.run", "run", SymbolKind::Method);

    assert_ne!(
        symbol_key(&left, "src/lib.ts".to_string()),
        symbol_key(&right, "src/lib.ts".to_string())
    );
}

#[test]
fn module_identity_survives_file_rename() {
    let left = node("old", "old", SymbolKind::Module);
    let right = node("renamed", "renamed", SymbolKind::Module);

    assert_eq!(
        symbol_key(&left, "src/renamed.ts".to_string()).scoped_name,
        symbol_key(&right, "src/renamed.ts".to_string()).scoped_name
    );
}

fn indexed(label: &str, root: &str, files: &[(&str, &str)]) -> IndexedRef {
    let registry = default_registry();
    let repo = RepositoryId::new("repo", &[label]);
    let mut partitions = Vec::new();
    let mut sources = Vec::new();
    for (path, text) in files {
        let full = format!("{root}/{path}");
        let language = registry.detect_language(&full, text.as_bytes());
        let file = SourceFile::new(repo.clone(), root, full, language, text.to_string());
        partitions.push(registry.extract(&file));
        sources.push(Some(text.to_string()));
    }
    IndexedRef {
        label: label.to_string(),
        commit: format!("{label}-commit"),
        root: root.to_string(),
        partitions,
        diagnostics: Vec::new(),
        skipped: Vec::new(),
        sources,
    }
}

fn change(kind: ChangeKind, path: &str, old_path: Option<&str>) -> FileChange {
    FileChange {
        change: kind,
        path: path.to_string(),
        old_path: old_path.map(str::to_string),
    }
}

#[test]
fn compare_reports_symbol_public_api_and_impact_changes() {
    let base = indexed(
        "main",
        "/base",
        &[
            ("src/lib.ts", "export function stable() { return 1; }\nexport function changed() { return stable(); }\n"),
            ("src/app.ts", "import { changed } from './lib';\nexport function app() { return changed(); }\n"),
        ],
    );
    let head = indexed(
        "feature",
        "/head",
        &[
            ("src/lib.ts", "export function stable() { return 1; }\nexport function changed() { return stable() + 1; }\nexport function added() { return changed(); }\n"),
            ("src/app.ts", "import { changed } from './lib';\nexport function app() { return changed(); }\n"),
        ],
    );
    let report = compare_refs(base, head, vec![change(ChangeKind::Modified, "src/lib.ts", None)]);
    assert_eq!(report.stats.files_modified, 1);
    assert!(report.changed_symbols.iter().any(|symbol| symbol.change == ChangeKind::Modified
        && symbol.after.as_ref().is_some_and(|summary| summary.name == "changed")));
    assert!(report.changed_symbols.iter().any(|symbol| symbol.change == ChangeKind::Added
        && symbol.after.as_ref().is_some_and(|summary| summary.name == "added")));
    assert!(!report.changed_symbols.iter().any(|symbol| symbol
        .after
        .as_ref()
        .is_some_and(|summary| summary.name == "stable")));
    assert!(report.public_api_changes.iter().any(|symbol| symbol
        .after
        .as_ref()
        .or(symbol.before.as_ref())
        .is_some_and(|summary| summary.name == "changed")));
    assert!(report.impacted_files.iter().any(|file| file.path == "src/app.ts"));
    let lib = report.impacted_files.iter().find(|file| file.path == "src/lib.ts").expect("lib impacted");
    assert!(lib.reasons.contains(&"file modified".to_string()));
    assert_eq!(report.base.name, "main");
    assert_eq!(report.head.commit, "feature-commit");
}

#[test]
fn compare_treats_renamed_files_without_symbol_churn() {
    let base = indexed(
        "main",
        "/base",
        &[
            ("src/old.ts", "export function oldName() { return 1; }\n"),
            ("src/remove.py", "def doomed():\n    return 1\n"),
        ],
    );
    let head = indexed("feature", "/head", &[("src/renamed.ts", "export function oldName() { return 1; }\n")]);
    let report = compare_refs(
        base,
        head,
        vec![
            change(ChangeKind::Renamed, "src/renamed.ts", Some("src/old.ts")),
            change(ChangeKind::Removed, "src/remove.py", None),
        ],
    );
    assert!(report.changed_files.iter().any(|file| file.change == ChangeKind::Renamed
        && file.old_path.as_deref() == Some("src/old.ts")
        && file.path == "src/renamed.ts"));
    assert!(!report.changed_symbols.iter().any(|symbol| symbol
        .before
        .as_ref()
        .or(symbol.after.as_ref())
        .is_some_and(|summary| summary.name == "oldName")));
    assert!(report.changed_symbols.iter().any(|symbol| symbol.change == ChangeKind::Removed
        && symbol.before.as_ref().is_some_and(|summary| summary.name == "doomed")));
    assert_eq!(report.stats.files_renamed, 1);
    assert_eq!(report.stats.files_removed, 1);
}

#[test]
fn compare_reports_dependency_changes_and_head_diagnostics() {
    let base = indexed("main", "/base", &[("package.json", r#"{"dependencies":{"left-pad":"1.3.0"}}"#)]);
    let head = indexed(
        "feature",
        "/head",
        &[
            ("package.json", r#"{"dependencies":{"left-pad":"1.3.0","lodash":"4.17.21"}}"#),
            ("src/broken.ts", "export function broken( {\n"),
        ],
    );
    let report = compare_refs(
        base,
        head,
        vec![change(ChangeKind::Modified, "package.json", None), change(ChangeKind::Added, "src/broken.ts", None)],
    );
    assert!(report
        .dependency_changes
        .iter()
        .any(|dependency| dependency.change == ChangeKind::Added && dependency.dependency == "lodash"));
    assert!(!report.dependency_changes.iter().any(|dependency| dependency.dependency == "left-pad"));
    assert!(report
        .diagnostics
        .iter()
        .any(|diagnostic| diagnostic.file.as_deref() == Some("src/broken.ts")));
}

#[test]
fn compare_does_not_collapse_same_named_methods_in_one_file() {
    let base = indexed(
        "main",
        "/base",
        &[("src/lib.ts", "export class A { run() { return 1; } }\nexport class B { run() { return 2; } }\n")],
    );
    let head = indexed(
        "feature",
        "/head",
        &[("src/lib.ts", "export class A { run() { return 99; } }\nexport class B { run() { return 2; } }\n")],
    );
    let report = compare_refs(base, head, vec![change(ChangeKind::Modified, "src/lib.ts", None)]);
    assert!(report.changed_symbols.iter().any(|symbol| symbol.change == ChangeKind::Modified
        && symbol.after.as_ref().and_then(|summary| summary.qualified_name.as_deref()) == Some("lib.A.run")));
    assert!(!report.changed_symbols.iter().any(|symbol| symbol
        .after
        .as_ref()
        .or(symbol.before.as_ref())
        .and_then(|summary| summary.qualified_name.as_deref())
        == Some("lib.B.run")));
}

#[test]
fn compare_of_identical_sides_reports_only_file_changes() {
    let files = [("src/lib.ts", "export function stable() { return 1; }\n")];
    let base = indexed("main", "/repo", &files);
    let head = indexed("main", "/repo", &files);
    let report = compare_refs(base, head, Vec::new());
    assert!(report.changed_symbols.is_empty());
    assert!(report.dependency_changes.is_empty());
    assert!(report.impacted_files.is_empty());
    assert_eq!(report.stats.base_indexed_files, 1);
}

#[test]
fn git_errors_prefer_standard_error() {
    assert_eq!(git_error_message("  fatal: bad revision\n", "ignored"), "fatal: bad revision");
    assert_eq!(git_error_message("   ", " out \n"), "out");
    assert_eq!(git_error_message("", ""), "git command failed");
}
