use aci::helpers::PartitionBuilder;
use aci::resolve::resolve_partition;
use aci::ids::{FileId, RepositoryId};
use aci::json::{extract_json, json_partition, JsonValue};
use aci::py_tree::extract_python;
use aci::language::Language;
use aci::model::{EdgeKind, GraphPartition, NodeKind, SourceFile, SymbolKind};
use aci::quality::FactProvenance;
use aci::registry::{default_registry, AdapterRegistry, BuiltinAdapter, LanguageAdapter};
use aci::rust_lang::extract_rust;
use aci::span::{LineColumn, SourceSpan};
use aci::syntax::{
    capture_count_outcome, compile_query, count_query_captures, node_span, python_language,
    capture_budget,
    validate_queries, ExtractionMode, ExtractionOptions, GrammarId, ParseLimits, ParseSkip, ParserPool,
    QuerySource,
};
use aci::ts_tree::{extract_typescript, grammar_for_path, ScriptGrammar};

const RUST_COVERAGE: &str = "use std::fmt::Display;\n\npub struct Service;\n\nimpl Service {\n    pub fn run(&self) {\n        println!(\"run\");\n    }\n}\n\npub enum Mode {\n    Fast,\n}\n\npub trait Runner {\n    fn execute(&self);\n}\n\npub fn main() {\n    let service = Service;\n    service.run();\n}\n";

fn symbol_qualified_names(partition: &GraphPartition) -> Vec<String> {
    let mut names = partition
        .nodes
        .iter()
        .filter(|node| node.kind == NodeKind::Symbol)
        .filter_map(|node| node.qualified_name.clone())
        .collect::<Vec<_>>();
    names.sort_unstable();
    names
}

#[test]
fn rust_tree_sitter_golden_graph_is_stable() {
    let repo = RepositoryId::new("repo", &["rust-golden"]);
    let file = SourceFile::new(
        repo,
        ".",
        "fixtures/rust/coverage.rs".to_string(),
        Language::Rust,
        RUST_COVERAGE.to_string(),
    );
    let left = extract_rust(&file);
    let right = extract_rust(&file);

    assert_eq!(symbol_qualified_names(&left), symbol_qualified_names(&right));
    assert!(symbol_qualified_names(&left)
        .iter()
        .any(|name| *name == "coverage::Service"));
    assert!(left.edges.iter().any(|edge| edge.kind == EdgeKind::Calls));
}

const TS_COVERAGE: &str = "import { helper } from './helper';\n\nexport class Service {\n  run(): number {\n    return helper();\n  }\n}\n\nconst local = () => 1;\n\nexport function main() {\n  return new Service().run() + local();\n}\n";
const PY_COVERAGE: &str = "import os\n\nclass Service:\n    def run(self):\n        return value()\n\ndef main():\n    Service().run()\n\ndef value():\n    return 1\n";
const JSON_PACKAGE: &str = "{\n  \"name\": \"fixture-package\",\n  \"dependencies\": { \"react\": \"^18.0.0\" },\n  \"devDependencies\": [\"vitest\"],\n  \"exports\": { \".\": \"./dist/index.js\" }\n}\n";
const C_COVERAGE: &str = "#include <stdio.h>\n\nstruct Point {\n    int x;\n    int y;\n};\n\nint add(int a, int b) {\n    return a + b;\n}\n\nint main(void) {\n    return add(1, 2);\n}\n";
const CPP_COVERAGE: &str = "#include <vector>\n\nnamespace demo {\nclass Widget {\npublic:\n    int size() const { return 1; }\n};\n\nWidget make_widget() {\n    return Widget();\n}\n}\n";
const GO_COVERAGE: &str = "package demo\n\nimport \"fmt\"\n\ntype Counter struct {\n\tn int\n}\n\nfunc Add(a int, b int) int {\n\treturn a + b\n}\n\nfunc (c *Counter) Inc() {\n\tc.n = Add(c.n, 1)\n\tfmt.Println(c.n)\n}\n";
const JAVA_COVERAGE: &str = "package demo;\n\nimport java.util.List;\n\npublic class Widget {\n    public int size() {\n        return 1;\n    }\n}\n";
const OBJC_COVERAGE: &str = "#import <Foundation/Foundation.h>\n\n@interface Widget : NSObject\n- (void)run;\n@end\n\n@implementation Widget\n- (void)run {\n    NSLog(@\"run\");\n}\n@end\n";
const LARGE_PY: &str = "def handler():\n    return 1\n";

fn fixture(repo: &RepositoryId, path: &str, language: Language, text: &str) -> SourceFile {
    SourceFile::new(repo.clone(), ".", path.to_string(), language, text.to_string())
}

#[test]
fn registry_detects_supported_languages() {
    let registry = default_registry();
    assert_eq!(
        registry.detect_language("src/app.ts", b"export function app() {}"),
        Language::TypeScript
    );
    assert_eq!(
        registry.detect_language("tools/build.py", b"#!/usr/bin/env python\n"),
        Language::Python
    );
    assert_eq!(
        registry.detect_language("crates/app/src/lib.rs", b"pub fn app() {}"),
        Language::Rust
    );
    assert_eq!(
        registry.detect_language("package.json", br#"{ "name": "app" }"#),
        Language::Json
    );
    assert_eq!(
        registry.detect_language("src/app.c", b"int main(void) { return 0; }"),
        Language::C
    );
    assert_eq!(
        registry.detect_language("src/app.cpp", b"namespace app {}"),
        Language::Cpp
    );
    assert_eq!(
        registry.detect_language("src/App.java", b"public class App {}"),
        Language::Java
    );
    assert_eq!(
        registry.detect_language("src/app.m", b"@interface App\n@end\n"),
        Language::ObjectiveC
    );
    assert_eq!(
        registry.detect_language("src/app.go", b"package app\n"),
        Language::Go
    );
}

#[test]
fn registry_prefilters_obvious_unsupported_paths() {
    let registry = default_registry();
    assert!(registry.path_candidate("src/app.ts"));
    assert!(registry.path_candidate("tools/build.py"));
    assert!(registry.path_candidate("crates/app/src/lib.rs"));
    assert!(registry.path_candidate("package.json"));
    assert!(registry.path_candidate("scripts/run"));
    assert!(registry.path_candidate("src/app.cc"));
    assert!(registry.path_candidate("src/app.java"));
    assert!(registry.path_candidate("src/app.m"));
    assert!(registry.path_candidate("src/app.go"));
    assert!(!registry.path_candidate("assets/logo.png"));
}

#[test]
fn adapters_extract_fixture_shapes() {
    let registry = default_registry();
    let repo = RepositoryId::new("repo", &["adapter-fixtures"]);
    let fixtures: [(&str, &str, Language, &[&str]); 9] = [
        ("fixtures/typescript/coverage.ts", TS_COVERAGE, Language::TypeScript, &["Service", "run", "main", "local"]),
        ("fixtures/python/coverage.py", PY_COVERAGE, Language::Python, &["Service", "run", "main", "value"]),
        ("fixtures/rust/coverage.rs", RUST_COVERAGE, Language::Rust, &["Service", "run", "Mode", "Runner", "main"]),
        ("fixtures/json/package.json", JSON_PACKAGE, Language::Json, &["package.json", "fixture-package"]),
        ("fixtures/c/coverage.c", C_COVERAGE, Language::C, &["Point", "add", "main"]),
        ("fixtures/cpp/coverage.cpp", CPP_COVERAGE, Language::Cpp, &["demo", "Widget", "size", "make_widget"]),
        ("fixtures/go/coverage.go", GO_COVERAGE, Language::Go, &["demo", "Counter", "Add", "Inc"]),
        ("fixtures/java/coverage.java", JAVA_COVERAGE, Language::Java, &["demo", "Widget", "size"]),
        ("fixtures/objective_c/coverage.m", OBJC_COVERAGE, Language::ObjectiveC, &["Widget", "run"]),
    ];
    for (path, text, language, expected_symbols) in fixtures {
        let file = fixture(&repo, path, language, text);
        let partition = registry.extract(&file);
        for expected in expected_symbols {
            assert!(
                partition.nodes.iter().any(|node| node.name.as_deref() == Some(*expected)),
                "missing {expected} in {language:?}"
            );
        }
    }
}

#[test]
fn adapters_recover_from_syntax_error_fixtures() {
    let registry = default_registry();
    let repo = RepositoryId::new("repo", &["syntax-fixtures"]);
    for (path, text, language) in [
        ("fixtures/typescript/syntax-error.ts", "export function broken( {\n", Language::TypeScript),
        ("fixtures/python/syntax-error.py", "def broken(:\n    pass\n", Language::Python),
        ("fixtures/rust/syntax-error.rs", "pub fn broken( {\n", Language::Rust),
        ("fixtures/c/syntax-error.c", "int broken( {\n", Language::C),
        ("fixtures/cpp/syntax-error.cpp", "class Broken {\n", Language::Cpp),
        ("fixtures/go/syntax-error.go", "package demo\nfunc broken( {\n", Language::Go),
        ("fixtures/java/syntax-error.java", "public class Broken {\n", Language::Java),
        ("fixtures/objective_c/syntax-error.m", "@interface Broken\n", Language::ObjectiveC),
    ] {
        let file = fixture(&repo, path, language, text);
        let partition = registry.extract(&file);
        assert!(!partition.nodes.is_empty());
    }
}

#[test]
fn adapters_handle_large_files() {
    let registry = default_registry();
    let repo = RepositoryId::new("repo", &["large-fixture"]);
    let text = LARGE_PY.repeat(400);
    let file = fixture(&repo, "fixtures/python/large.py", Language::Python, &text);
    let partition = registry.extract(&file);
    assert!(partition.nodes.len() >= 400);
}

#[test]
fn typescript_tree_sitter_golden_graph_is_stable() {
    let repo = RepositoryId::new("repo", &["typescript-golden"]);
    let file = fixture(&repo, "fixtures/typescript/coverage.ts", Language::TypeScript, TS_COVERAGE);
    let left = extract_typescript(&file);
    let right = extract_typescript(&file);
    assert_eq!(symbol_qualified_names(&left), symbol_qualified_names(&right));
    assert_eq!(
        symbol_qualified_names(&left),
        vec!["coverage", "coverage.Service", "coverage.Service.run", "coverage.local", "coverage.main"]
    );
    assert!(left
        .nodes
        .iter()
        .filter(|node| matches!(node.kind, NodeKind::Symbol | NodeKind::Import))
        .all(|node| node.provenance == FactProvenance::TreeSitter));
    assert!(left.edges.iter().any(|edge| edge.kind == EdgeKind::Exports));
}

#[test]
fn json_package_dependencies_are_indexed() {
    let repo = RepositoryId::new("repo", &["json-golden"]);
    let file = fixture(&repo, "fixtures/json/package.json", Language::Json, JSON_PACKAGE);
    let partition = extract_json(&file);
    assert!(partition.nodes.iter().any(|node| node.name.as_deref() == Some("react")));
    assert!(partition.edges.iter().any(|edge| edge.kind == EdgeKind::DependsOn));
}

#[test]
fn converts_node_range_to_one_based_span() {
    let pool = ParserPool::new(GrammarId::Python);
    let repo = RepositoryId::new("repo", &["tree-sitter-test"]);
    let file_id = FileId::new("file", &[repo.as_str(), "a.py", "python"]);
    let report = match pool.parse("def main():\n    pass\n", &file_id, ParseLimits::default()) {
        Ok(report) => report,
        Err(_) => panic!("parse python"),
    };
    let span = node_span(&report.tree.nodes[0]);
    assert_eq!(span.start, LineColumn::new(1, 1));
    assert_eq!(span.end.line, 3);
}

#[test]
fn pool_parses_with_its_own_grammar() {
    let repo = RepositoryId::new("repo", &["tree-sitter-grammar"]);
    let file_id = FileId::new("file", &[repo.as_str(), "a.src", "any"]);
    let roots: Vec<String> = [GrammarId::Python, GrammarId::Rust, GrammarId::TypeScript]
        .iter()
        .map(|grammar| match ParserPool::new(*grammar).parse("x = 1\n", &file_id, ParseLimits::default()) {
            Ok(report) => report.tree.nodes[0].kind.clone(),
            Err(_) => panic!("parse"),
        })
        .collect();
    assert_eq!(roots, vec!["module".to_string(), "source_file".to_string(), "program".to_string()]);
    let python = match ParserPool::new(GrammarId::Python).parse("def main():\n    pass\n", &file_id, ParseLimits::default()) {
        Ok(report) => report,
        Err(_) => panic!("parse python"),
    };
    let again = match ParserPool::new(GrammarId::Python).parse("def main():\n    pass\n", &file_id, ParseLimits::default()) {
        Ok(report) => report,
        Err(_) => panic!("parse python"),
    };
    let layout = |tree: &aci::syntax::SyntaxTree| -> Vec<(String, usize, usize)> {
        tree.nodes.iter().map(|n| (n.kind.clone(), n.first_child, n.child_count)).collect()
    };
    assert_eq!(layout(&python.tree), layout(&again.tree));
    assert_eq!(python.tree.nodes[0].child_count, 1);
    assert_eq!(python.tree.nodes[1].kind, "function_definition");
    assert!(python.diagnostics.is_empty());
}

#[test]
fn parser_reports_size_guardrail_without_panicking() {
    let pool = ParserPool::new(GrammarId::Python);
    let repo = RepositoryId::new("repo", &["tree-sitter-guardrail"]);
    let file_id = FileId::new("file", &[repo.as_str(), "large.py", "python"]);
    let limits = ParseLimits { max_file_bytes: 4, ..ParseLimits::default() };
    let skip = match pool.parse("def main():\n    pass\n", &file_id, limits) {
        Ok(_) => panic!("large input should be skipped"),
        Err(skip) => skip,
    };
    assert!(matches!(skip, ParseSkip::TooLarge { .. }));
}

#[test]
fn json_partition_reports_parse_errors() {
    let repo = RepositoryId::new("repo", &["json-errors"]);
    let file = fixture(&repo, "conf/broken.json", Language::Json, "{");
    let partition = json_partition(&file, Err("EOF while parsing an object at line 1 column 1".to_string()));
    assert_eq!(partition.diagnostics.len(), 1);
    assert_eq!(
        partition.diagnostics[0].message,
        "json parse failed: EOF while parsing an object at line 1 column 1"
    );
    assert_eq!(symbol_qualified_names(&partition), vec!["broken.json"]);
    let parsed = extract_json(&file);
    assert_eq!(parsed.diagnostics.len(), 1);
    assert!(parsed.diagnostics[0].message.starts_with("json parse failed: "));
}

#[test]
fn json_partition_reads_manifest_keys() {
    let repo = RepositoryId::new("repo", &["json-manifest"]);
    let file = fixture(&repo, "package.json", Language::Json, "{}");
    let value = JsonValue::Object(vec![
        ("name".to_string(), JsonValue::Str("app".to_string())),
        ("peerDependencies".to_string(), JsonValue::Array(vec![JsonValue::Str("left-pad".to_string()), JsonValue::Number("3".to_string())])),
        ("imports".to_string(), JsonValue::Object(vec![("#x".to_string(), JsonValue::Str("./x.js".to_string())), ("#y".to_string(), JsonValue::Str("lib-y".to_string()))])),
        ("exports".to_string(), JsonValue::Array(vec![JsonValue::Str("/abs.js".to_string()), JsonValue::Bool(true)])),
    ]);
    let partition = json_partition(&file, Ok(value));
    assert_eq!(symbol_qualified_names(&partition), vec!["app", "package.json"]);
    let depends = partition.edges.iter().filter(|edge| edge.kind == EdgeKind::DependsOn).count();
    assert_eq!(depends, 1);
    let references: Vec<String> = partition
        .nodes
        .iter()
        .filter(|node| node.kind == NodeKind::ExternalSymbol)
        .filter_map(|node| node.name.clone())
        .collect();
    assert_eq!(references, vec!["./x.js".to_string(), "/abs.js".to_string()]);
    assert!(partition.diagnostics.is_empty());
}

#[test]
fn registering_an_adapter_appends_it() {
    let registry = AdapterRegistry::new();
    assert_eq!(registry.detect_language("src/app.rs", b"fn main() {}"), Language::Unknown);
    assert!(!registry.path_candidate("src/app.rs"));
    let registry = registry.register(BuiltinAdapter::Rust);
    assert_eq!(registry.detect_language("src/app.rs", b"fn main() {}"), Language::Rust);
    let registry = registry.register(BuiltinAdapter::C);
    assert_eq!(registry.detect_language("src/app.rs", b"fn main() {}"), Language::Rust);
    assert_eq!(registry.detect_language("src/app.c", b"int x;"), Language::C);
    let repo = RepositoryId::new("repo", &["registry"]);
    let file = fixture(&repo, "notes.txt", Language::Unknown, "hello\n");
    let partition = registry.extract(&file);
    assert!(partition.nodes.is_empty() && partition.edges.is_empty());
    assert_eq!(BuiltinAdapter::Json.language(), Language::Json);
}

#[test]
fn script_grammar_follows_language_and_extension() {
    assert_eq!(grammar_for_path("src/app.ts", Language::TypeScript), ScriptGrammar::TypeScript);
    assert_eq!(grammar_for_path("src/app.tsx", Language::TypeScript), ScriptGrammar::Tsx);
    assert_eq!(grammar_for_path("src/app.jsx", Language::TypeScript), ScriptGrammar::Tsx);
    assert_eq!(grammar_for_path("src/app.jsx", Language::JavaScript), ScriptGrammar::JavaScript);
}

#[test]
fn typescript_tree_visitor_reads_imports_calls_and_components() {
    let repo = RepositoryId::new("repo", &["ts-visitor"]);
    let text = "import React, { useState as useS } from 'react';\nimport './side-effect';\n@Component\nclass View {\n  count = 0;\n  render() { const { a, b } = props; return <Panel />; }\n}\nconst load = () => import('./lazy');\n";
    let file = fixture(&repo, "src/view.tsx", Language::TypeScript, text);
    let partition = extract_typescript(&file);
    let names = symbol_qualified_names(&partition);
    assert!(names.contains(&"view.View".to_string()));
    assert!(names.contains(&"view.View.count".to_string()));
    assert!(names.contains(&"view.View.render.a".to_string()));
    assert!(names.contains(&"view.View.render.b".to_string()));
    assert!(names.contains(&"view.load".to_string()));
    let imports: Vec<String> = partition
        .nodes
        .iter()
        .filter(|node| node.kind == NodeKind::Import)
        .filter_map(|node| node.name.clone())
        .collect();
    assert!(imports.contains(&"React".to_string()));
    assert!(imports.contains(&"useS".to_string()));
    assert!(imports.contains(&"./side-effect".to_string()));
    assert!(imports.contains(&"./lazy".to_string()));
    let externals: Vec<String> = partition
        .nodes
        .iter()
        .filter(|node| node.kind == NodeKind::ExternalSymbol)
        .filter_map(|node| node.name.clone())
        .collect();
    assert!(externals.contains(&"Panel".to_string()));
    assert!(externals.contains(&"Component".to_string()));
}

#[test]
fn python_tree_sitter_golden_graph_is_stable() {
    let repo = RepositoryId::new("repo", &["python-golden"]);
    let file = fixture(&repo, "fixtures/python/coverage.py", Language::Python, PY_COVERAGE);
    let left = extract_python(&file);
    let right = extract_python(&file);
    assert_eq!(symbol_qualified_names(&left), symbol_qualified_names(&right));
    assert_eq!(
        symbol_qualified_names(&left),
        vec!["coverage", "coverage.Service", "coverage.Service.run", "coverage.main", "coverage.value"]
    );
    assert!(left
        .nodes
        .iter()
        .filter(|node| matches!(node.kind, NodeKind::Symbol | NodeKind::Import))
        .all(|node| node.provenance == FactProvenance::TreeSitter));
    assert!(left.edges.iter().any(|edge| edge.kind == EdgeKind::Calls));
}

#[test]
fn extraction_mode_follows_its_setting() {
    assert_eq!(ExtractionMode::from_name(Some("scanner-only")), ExtractionMode::ScannerOnly);
    assert_eq!(ExtractionMode::from_name(Some("tree-sitter-only")), ExtractionMode::TreeSitterOnly);
    assert_eq!(ExtractionMode::from_name(Some("tree-sitter-enrichment")), ExtractionMode::TreeSitterWithEnrichment);
    assert_eq!(ExtractionMode::from_name(Some("other")), ExtractionMode::TreeSitterWithFallback);
    assert_eq!(ExtractionMode::from_name(None), ExtractionMode::TreeSitterWithFallback);
    assert_eq!(ExtractionMode::current(None, Some("scanner-only")), ExtractionMode::ScannerOnly);
    assert_eq!(
        ExtractionMode::current(Some(ExtractionMode::TreeSitterOnly), Some("scanner-only")),
        ExtractionMode::TreeSitterOnly
    );
    let registry = default_registry();
    let repo = RepositoryId::new("repo", &["modes"]);
    let file = fixture(&repo, "src/app.ts", Language::TypeScript, TS_COVERAGE);
    let scanned = registry.extract_with_options(&file, ExtractionOptions::default(), ExtractionMode::ScannerOnly);
    assert!(scanned
        .nodes
        .iter()
        .filter(|node| node.kind == NodeKind::Symbol)
        .all(|node| node.provenance == FactProvenance::StructuralScanner));
    let parsed = registry.extract_with_options(&file, ExtractionOptions::default(), ExtractionMode::TreeSitterOnly);
    assert!(parsed
        .nodes
        .iter()
        .filter(|node| node.kind == NodeKind::Symbol)
        .all(|node| node.provenance == FactProvenance::TreeSitter));
}

#[test]
fn queries_are_validated_in_order() {
    let python = GrammarId::Python;
    let good = QuerySource::new("symbols.scm", "languages/python/queries/symbols.scm", "(function_definition name: (identifier) @name)");
    let bad = QuerySource::new("calls.scm", "languages/python/queries/calls.scm", "(no_such_node) @x");
    match validate_queries(python, &[good]) {
        Ok(queries) => assert_eq!(queries.len(), 1),
        Err(error) => panic!("valid query refused: {error}"),
    }
    let good = QuerySource::new("symbols.scm", "languages/python/queries/symbols.scm", "(function_definition name: (identifier) @name)");
    match validate_queries(python, &[good, bad]) {
        Ok(_) => panic!("invalid query accepted"),
        Err(error) => assert!(error.starts_with("languages/python/queries/calls.scm: ")),
    }
    let bad = QuerySource::new("calls.scm", "languages/python/queries/calls.scm", "(no_such_node) @x");
    let direct = match compile_query(python, "(no_such_node) @x") {
        Ok(_) => panic!("invalid query accepted"),
        Err(error) => error,
    };
    match validate_queries(python, &[bad]) {
        Ok(_) => panic!("invalid query accepted"),
        Err(error) => assert_eq!(error, format!("languages/python/queries/calls.scm: {direct}")),
    }
}

#[test]
fn capture_budget_allows_one_capture_past_the_limit() {
    let limits = ParseLimits { max_query_captures: 7, ..ParseLimits::default() };
    assert_eq!(capture_budget(limits), (7, 8));
    let huge = ParseLimits { max_query_captures: usize::MAX, ..ParseLimits::default() };
    assert_eq!(capture_budget(huge), (u32::MAX, usize::MAX));
}

#[test]
fn untimed_parses_do_not_time_out() {
    let repo = RepositoryId::new("repo", &["untimed"]);
    let file_id = FileId::new("file", &[repo.as_str(), "a.py", "python"]);
    let limits = ParseLimits { parse_timeout_micros: 0, ..ParseLimits::default() };
    let report = ParserPool::new(GrammarId::Python).parse("def main():\n    pass\n", &file_id, limits);
    assert!(report.is_ok());
}

#[test]
fn capture_counts_follow_their_limits() {
    assert_eq!(capture_count_outcome(3, false, 5), Ok(3));
    assert_eq!(capture_count_outcome(3, true, 5), Err("tree-sitter query match limit exceeded".to_string()));
    assert_eq!(
        capture_count_outcome(6, false, 5),
        Err("tree-sitter query capture limit exceeded: 6 > 5".to_string())
    );
}

#[test]
fn query_captures_are_counted_within_limits() {
    let source = "alpha(1)\nbeta(2)\ngamma(3)\n";
    let mut parser = tree_sitter::Parser::new();
    parser.set_language(&python_language()).unwrap();
    let tree = parser.parse(source, None).unwrap();
    let query = compile_query(GrammarId::Python, "(call function: (identifier) @callee)").unwrap();
    let root = tree.root_node();
    assert_eq!(count_query_captures(&query, &root, source, ParseLimits::default()), Ok(3));
    let tight = ParseLimits { max_query_captures: 2, ..ParseLimits::default() };
    assert_eq!(
        count_query_captures(&query, &root, source, tight),
        Err("tree-sitter query capture limit exceeded: 3 > 2".to_string())
    );
}

#[test]
fn index_file_keeps_recognised_utf8_sources() {
    let registry = default_registry();
    let repo = RepositoryId::new("repo", &["index"]);
    let options = ExtractionOptions::default();
    let indexed = registry.index_file(
        &repo,
        "/work",
        "/work/src/lib.rs",
        RUST_COVERAGE.as_bytes(),
        options,
        ExtractionMode::ScannerOnly,
    );
    let (file, partition) = indexed.expect("a Rust source is indexed");
    assert_eq!(file.language, Language::Rust);
    assert_eq!(file.text, RUST_COVERAGE);
    assert!(partition.file_id == file.file_id);
    assert!(partition
        .nodes
        .iter()
        .any(|node| node.name.as_deref() == Some("main")));
    let invalid = registry.index_file(
        &repo,
        "/work",
        "/work/src/bad.rs",
        &[0x66, 0x6e, 0xff, 0xfe],
        options,
        ExtractionMode::ScannerOnly,
    );
    assert!(invalid.is_none());
    let unknown = registry.index_file(
        &repo,
        "/work",
        "/work/notes.xyz",
        b"plain words",
        options,
        ExtractionMode::ScannerOnly,
    );
    assert!(unknown.is_none());
}

const PYTHON_SYMBOLS_SCM: &str = "(class_definition name: (identifier) @name) @class\n(function_definition name: (identifier) @name) @function\n";
const PYTHON_IMPORTS_SCM: &str = "(import_statement name: (dotted_name) @module) @import\n(import_from_statement module_name: (dotted_name) @module) @import\n";
const PYTHON_CALLS_SCM: &str = "(call function: (identifier) @callee) @call\n(call function: (attribute attribute: (identifier) @callee)) @call\n";
const TYPESCRIPT_SYMBOLS_SCM: &str = "(class_declaration name: (type_identifier) @name) @class\n(function_declaration name: (identifier) @name) @function\n(method_definition name: (property_identifier) @name) @method\n";
const TYPESCRIPT_IMPORTS_SCM: &str = "(import_statement source: (string) @source) @import\n(export_statement) @export\n";
const TYPESCRIPT_CALLS_SCM: &str = "(call_expression function: (identifier) @callee) @call\n(call_expression function: (member_expression property: (property_identifier) @callee)) @call\n";
const RUST_SYMBOLS_SCM: &str = "(function_item name: (identifier) @name) @function\n(struct_item name: (type_identifier) @name) @struct\n(enum_item name: (type_identifier) @name) @enum\n(trait_item name: (type_identifier) @name) @trait\n";
const RUST_IMPORTS_SCM: &str = "(use_declaration argument: (_) @path) @import\n";
const RUST_CALLS_SCM: &str = "(call_expression function: (identifier) @callee) @call\n(call_expression function: (field_expression field: (field_identifier) @callee)) @call\n";

#[test]
fn tree_sitter_queries_compile_for_supported_grammars() {
    let queries = validate_queries(
        GrammarId::Python,
        &[
            QuerySource::new("symbols.scm", "languages/python/queries/symbols.scm", PYTHON_SYMBOLS_SCM),
            QuerySource::new("imports.scm", "languages/python/queries/imports.scm", PYTHON_IMPORTS_SCM),
            QuerySource::new("calls.scm", "languages/python/queries/calls.scm", PYTHON_CALLS_SCM),
        ],
    );
    assert!(queries.is_ok(), "python queries compile");

    for grammar in [GrammarId::TypeScript, GrammarId::Tsx] {
        let queries = validate_queries(
            grammar,
            &[
                QuerySource::new("symbols.scm", "languages/typescript/queries/symbols.scm", TYPESCRIPT_SYMBOLS_SCM),
                QuerySource::new("imports.scm", "languages/typescript/queries/imports.scm", TYPESCRIPT_IMPORTS_SCM),
                QuerySource::new("calls.scm", "languages/typescript/queries/calls.scm", TYPESCRIPT_CALLS_SCM),
            ],
        );
        assert!(queries.is_ok(), "typescript queries compile");
    }

    let queries = validate_queries(
        GrammarId::Rust,
        &[
            QuerySource::new("symbols.scm", "languages/rust/queries/symbols.scm", RUST_SYMBOLS_SCM),
            QuerySource::new("imports.scm", "languages/rust/queries/imports.scm", RUST_IMPORTS_SCM),
            QuerySource::new("calls.scm", "languages/rust/queries/calls.scm", RUST_CALLS_SCM),
        ],
    );
    assert!(queries.is_ok(), "rust queries compile");
}

#[test]
fn builder_links_and_resolution_settle() {
    let repo = RepositoryId::new("repo", &["builder"]);
    let file = fixture(&repo, "src/lib.rs", Language::Rust, "fn helper() {}\nfn main() { helper(); }\n");
    let span = SourceSpan::new(0, 4, LineColumn::new(1, 1), LineColumn::new(1, 5));
    let build = |calls: usize| {
        let mut builder = PartitionBuilder::new(&file);
        let file_node = builder.file_node();
        builder.add_symbol("helper", "lib.helper", SymbolKind::Function, span);
        let main = builder.add_symbol("main", "lib.main", SymbolKind::Function, span);
        for _ in 0..calls {
            builder.add_call(&main, "helper", span);
        }
        assert!(builder.file_node() == file_node);
        builder.finish()
    };
    let once = build(1);
    let again = build(2);
    let ids = |p: &GraphPartition| {
        (
            p.nodes.iter().map(|n| n.id.as_str().to_string()).collect::<Vec<_>>(),
            p.edges.iter().map(|e| e.id.as_str().to_string()).collect::<Vec<_>>(),
        )
    };
    assert_eq!(ids(&once), ids(&again));
    assert_eq!(once.nodes[0].kind, NodeKind::File);
    let resolved = resolve_partition(once);
    let targets: Vec<String> = resolved.edges.iter().map(|e| e.to.as_str().to_string()).collect();
    let twice = resolve_partition(resolved);
    let twice_targets: Vec<String> = twice.edges.iter().map(|e| e.to.as_str().to_string()).collect();
    assert_eq!(targets, twice_targets);
}

#[test]
fn each_callee_has_one_external_node() {
    let repo = RepositoryId::new("repo", &["callees"]);
    let file = fixture(&repo, "src/lib.rs", Language::Rust, "fn a() { log(); }\nfn b() { log(); }\n");
    let span = SourceSpan::new(0, 4, LineColumn::new(1, 1), LineColumn::new(1, 5));
    let mut builder = PartitionBuilder::new(&file);
    let a = builder.add_symbol("a", "lib.a", SymbolKind::Function, span);
    let b = builder.add_symbol("b", "lib.b", SymbolKind::Function, span);
    builder.add_call(&a, "log", span);
    builder.add_call(&b, "log", span);
    builder.add_reference(&b, "log", span);
    let partition = builder.finish();
    let externals = partition
        .nodes
        .iter()
        .filter(|n| n.kind == NodeKind::ExternalSymbol && n.name.as_deref() == Some("log"))
        .count();
    assert_eq!(externals, 1);
    assert_eq!(partition.edges.iter().filter(|e| e.kind == EdgeKind::Calls).count(), 2);
}

struct TomlAdapter;

impl LanguageAdapter for TomlAdapter {
    fn spec_language(&self) -> Language {
        Language::Json
    }

    fn spec_detects(&self, path: &str, _bytes: &[u8]) -> bool {
        path.ends_with(".toml")
    }

    fn spec_extracts(&self, file: &SourceFile, partition: &GraphPartition) -> bool {
        partition.file_id == file.file_id && partition.nodes.is_empty() && partition.edges.is_empty()
    }

    fn language(&self) -> Language {
        Language::Json
    }

    fn path_candidate(&self, path: &str) -> bool {
        path.ends_with(".toml")
    }

    fn detect(&self, path: &str, _bytes: &[u8]) -> bool {
        path.ends_with(".toml")
    }

    fn extract(&self, file: &SourceFile) -> GraphPartition {
        GraphPartition::empty(file)
    }
}

#[test]
fn registries_take_user_adapters_after_built_in_ones() {
    let registry = AdapterRegistry::new();
    assert!(!registry.path_candidate("Cargo.toml"));
    assert_eq!(registry.detect_language("Cargo.toml", b"[package]"), Language::Unknown);
    let registry = registry.register(BuiltinAdapter::Rust).register_custom(Box::new(TomlAdapter));
    assert!(registry.path_candidate("Cargo.toml"));
    assert_eq!(registry.detect_language("Cargo.toml", b"[package]"), Language::Json);
    assert_eq!(registry.detect_language("src/lib.rs", b"pub fn a() {}"), Language::Rust);
    let repo = RepositoryId::new("repo", &["custom"]);
    let file = fixture(&repo, "Cargo.toml", Language::Json, "[package]\n");
    let partition = registry.extract(&file);
    assert!(partition.nodes.is_empty());
    assert!(TomlAdapter.spec_extracts(&file, &partition));
    let later = AdapterRegistry::new().register_custom(Box::new(TomlAdapter)).register(BuiltinAdapter::Json);
    assert_eq!(later.detect_language("Cargo.toml", b"[package]"), Language::Json);
    assert_eq!(later.detect_language("package.json", b"{}"), Language::Json);
    assert_eq!(later.detect_language("notes.txt", b"words"), Language::Unknown);
    let package = fixture(&repo, "package.json", Language::Json, JSON_PACKAGE);
    assert!(later.extract(&package).nodes.is_empty());
    assert!(!default_registry().extract(&package).nodes.is_empty());
}
