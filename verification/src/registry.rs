use crate::brace_tree::{
    brace_tree_sitter_outcome, brace_tree_sitter_outcome_within, extract_c, extract_cpp, extract_go, extract_java,
    extract_objective_c, spec_c_config, spec_cpp_config, spec_go_config, spec_java_config,
    spec_objective_c_config,
};
use crate::detect::{
    detect_c, detect_cpp, detect_go, detect_java, detect_javascript, detect_json,
    detect_objective_c, detect_python, detect_rust, detect_typescript, path_might_be_c,
    path_might_be_cpp, path_might_be_go, path_might_be_java, path_might_be_javascript,
    path_might_be_json, path_might_be_objective_c, path_might_be_python, path_might_be_rust,
    path_might_be_typescript, spec_detect_c, spec_detect_cpp, spec_detect_go, spec_detect_java,
    spec_detect_javascript, spec_detect_json, spec_detect_objective_c, spec_detect_python,
    spec_detect_rust, spec_detect_typescript, spec_path_might_be_c, spec_path_might_be_cpp,
    spec_path_might_be_go, spec_path_might_be_java, spec_path_might_be_javascript,
    spec_path_might_be_json, spec_path_might_be_objective_c, spec_path_might_be_python,
    spec_path_might_be_rust, spec_path_might_be_typescript,
};
use crate::json::{extract_json, json_parse_result, same_but_extraction_time, spec_json_partition};
use crate::language::Language;
use crate::ids::RepositoryId;
use crate::model::{file_id_text, GraphPartition, PartitionView, SourceFile};
use crate::py_tree::{extract_python, py_tree_sitter_outcome, py_tree_sitter_outcome_within};
use crate::python::{fits_text, text_fits};
use crate::rust_lang::{extract_rust, rust_tree_sitter_outcome, rust_tree_sitter_outcome_within};
use crate::syntax::{empty_partition_view, ExtractionMode, ExtractionOptions};
use crate::python::spec_scanner_extract_python;
use crate::rust_lang::spec_scanner_extract_rust;
use crate::ts_scanner::spec_scanner_extract_typescript;
use crate::ts_tree::{extract_typescript, ts_tree_sitter_outcome, ts_tree_sitter_outcome_within};
use vstd::prelude::*;
use vstd::utf8::{decode_utf8, encode_utf8, valid_utf8};

verus! {

/// A language front end: it names its language, screens paths, recognises
/// files and extracts their graph partitions. The `spec_*` functions state what
/// `language`, `detect` and `extract` answer; the registry's contracts speak of
/// them. Nothing calls them when the library runs: an implementation written
/// outside Verus gives them as ordinary functions with the same answers.
pub trait LanguageAdapter {
    /// The language `language` answers.
    spec fn spec_language(&self) -> Language;

    /// What `detect` answers for the file at `path` with these bytes.
    spec fn spec_detects(&self, path: &str, bytes: &[u8]) -> bool;

    /// Whether `partition` is a partition `extract` may give for `file`.
    spec fn spec_extracts(&self, file: &SourceFile, partition: &GraphPartition) -> bool;

    /// The language this adapter handles.
    fn language(&self) -> (r: Language)
        ensures
            r == self.spec_language(),
    ;

    /// Whether a file at `path` may be in this adapter's language, before its
    /// bytes are read. Unless an adapter says otherwise, every path may.
    fn path_candidate(&self, path: &str) -> bool {
        true
    }

    /// Whether the file at `path` with these bytes is in this adapter's language.
    fn detect(&self, path: &str, bytes: &[u8]) -> (r: bool)
        ensures
            r == self.spec_detects(path, bytes),
    ;

    /// The graph partition of `file`.
    fn extract(&self, file: &SourceFile) -> (r: GraphPartition)
        requires
            text_fits(file.text@),
        ensures
            self.spec_extracts(file, &r),
    ;
}

/// The C front end.
pub struct CAdapter;

impl LanguageAdapter for CAdapter {
    open spec fn spec_language(&self) -> Language {
        Language::C
    }

    open spec fn spec_detects(&self, path: &str, bytes: &[u8]) -> bool {
        spec_detect_c(path@, bytes@)
    }

    open spec fn spec_extracts(&self, file: &SourceFile, partition: &GraphPartition) -> bool {
        brace_tree_sitter_outcome(*file, spec_c_config(), crate::syntax::GrammarId::C, true, partition@)
    }

    fn language(&self) -> (r: Language)
        ensures
            r == Language::C,
    {
        Language::C
    }

    fn path_candidate(&self, path: &str) -> (r: bool)
        ensures
            r == spec_path_might_be_c(path@),
    {
        path_might_be_c(path)
    }

    fn detect(&self, path: &str, bytes: &[u8]) -> (r: bool)
        ensures
            r == spec_detect_c(path@, bytes@),
    {
        detect_c(path, bytes)
    }

    fn extract(&self, file: &SourceFile) -> (r: GraphPartition)
        ensures
            brace_tree_sitter_outcome(*file, spec_c_config(), crate::syntax::GrammarId::C, true, r@),
    {
        extract_c(file)
    }
}

/// The C++ front end.
pub struct CppAdapter;

impl LanguageAdapter for CppAdapter {
    open spec fn spec_language(&self) -> Language {
        Language::Cpp
    }

    open spec fn spec_detects(&self, path: &str, bytes: &[u8]) -> bool {
        spec_detect_cpp(path@, bytes@)
    }

    open spec fn spec_extracts(&self, file: &SourceFile, partition: &GraphPartition) -> bool {
        brace_tree_sitter_outcome(*file, spec_cpp_config(), crate::syntax::GrammarId::Cpp, true, partition@)
    }

    fn language(&self) -> (r: Language)
        ensures
            r == Language::Cpp,
    {
        Language::Cpp
    }

    fn path_candidate(&self, path: &str) -> (r: bool)
        ensures
            r == spec_path_might_be_cpp(path@),
    {
        path_might_be_cpp(path)
    }

    fn detect(&self, path: &str, bytes: &[u8]) -> (r: bool)
        ensures
            r == spec_detect_cpp(path@, bytes@),
    {
        detect_cpp(path, bytes)
    }

    fn extract(&self, file: &SourceFile) -> (r: GraphPartition)
        ensures
            brace_tree_sitter_outcome(*file, spec_cpp_config(), crate::syntax::GrammarId::Cpp, true, r@),
    {
        extract_cpp(file)
    }
}

/// The Go front end.
pub struct GoAdapter;

impl LanguageAdapter for GoAdapter {
    open spec fn spec_language(&self) -> Language {
        Language::Go
    }

    open spec fn spec_detects(&self, path: &str, bytes: &[u8]) -> bool {
        spec_detect_go(path@)
    }

    open spec fn spec_extracts(&self, file: &SourceFile, partition: &GraphPartition) -> bool {
        brace_tree_sitter_outcome(*file, spec_go_config(), crate::syntax::GrammarId::Go, true, partition@)
    }

    fn language(&self) -> (r: Language)
        ensures
            r == Language::Go,
    {
        Language::Go
    }

    fn path_candidate(&self, path: &str) -> (r: bool)
        ensures
            r == spec_path_might_be_go(path@),
    {
        path_might_be_go(path)
    }

    fn detect(&self, path: &str, bytes: &[u8]) -> (r: bool)
        ensures
            r == spec_detect_go(path@),
    {
        detect_go(path, bytes)
    }

    fn extract(&self, file: &SourceFile) -> (r: GraphPartition)
        ensures
            brace_tree_sitter_outcome(*file, spec_go_config(), crate::syntax::GrammarId::Go, true, r@),
    {
        extract_go(file)
    }
}

/// The Java front end.
pub struct JavaAdapter;

impl LanguageAdapter for JavaAdapter {
    open spec fn spec_language(&self) -> Language {
        Language::Java
    }

    open spec fn spec_detects(&self, path: &str, bytes: &[u8]) -> bool {
        spec_detect_java(path@)
    }

    open spec fn spec_extracts(&self, file: &SourceFile, partition: &GraphPartition) -> bool {
        brace_tree_sitter_outcome(*file, spec_java_config(), crate::syntax::GrammarId::Java, true, partition@)
    }

    fn language(&self) -> (r: Language)
        ensures
            r == Language::Java,
    {
        Language::Java
    }

    fn path_candidate(&self, path: &str) -> (r: bool)
        ensures
            r == spec_path_might_be_java(path@),
    {
        path_might_be_java(path)
    }

    fn detect(&self, path: &str, bytes: &[u8]) -> (r: bool)
        ensures
            r == spec_detect_java(path@),
    {
        detect_java(path, bytes)
    }

    fn extract(&self, file: &SourceFile) -> (r: GraphPartition)
        ensures
            brace_tree_sitter_outcome(*file, spec_java_config(), crate::syntax::GrammarId::Java, true, r@),
    {
        extract_java(file)
    }
}

/// The JSON front end.
pub struct JsonAdapter;

impl LanguageAdapter for JsonAdapter {
    open spec fn spec_language(&self) -> Language {
        Language::Json
    }

    open spec fn spec_detects(&self, path: &str, bytes: &[u8]) -> bool {
        spec_detect_json(path@, bytes@)
    }

    open spec fn spec_extracts(&self, file: &SourceFile, partition: &GraphPartition) -> bool {
        same_but_extraction_time(partition@, spec_json_partition(*file, json_parse_result(file.text@)))
    }

    fn language(&self) -> (r: Language)
        ensures
            r == Language::Json,
    {
        Language::Json
    }

    fn path_candidate(&self, path: &str) -> (r: bool)
        ensures
            r == spec_path_might_be_json(path@),
    {
        path_might_be_json(path)
    }

    fn detect(&self, path: &str, bytes: &[u8]) -> (r: bool)
        ensures
            r == spec_detect_json(path@, bytes@),
    {
        detect_json(path, bytes)
    }

    fn extract(&self, file: &SourceFile) -> (r: GraphPartition)
        ensures
            same_but_extraction_time(r@, spec_json_partition(*file, json_parse_result(file.text@))),
    {
        extract_json(file)
    }
}

/// The Objective-C front end.
pub struct ObjectiveCAdapter;

impl LanguageAdapter for ObjectiveCAdapter {
    open spec fn spec_language(&self) -> Language {
        Language::ObjectiveC
    }

    open spec fn spec_detects(&self, path: &str, bytes: &[u8]) -> bool {
        spec_detect_objective_c(path@, bytes@)
    }

    open spec fn spec_extracts(&self, file: &SourceFile, partition: &GraphPartition) -> bool {
        brace_tree_sitter_outcome(*file, spec_objective_c_config(), crate::syntax::GrammarId::ObjectiveC, true, partition@)
    }

    fn language(&self) -> (r: Language)
        ensures
            r == Language::ObjectiveC,
    {
        Language::ObjectiveC
    }

    fn path_candidate(&self, path: &str) -> (r: bool)
        ensures
            r == spec_path_might_be_objective_c(path@),
    {
        path_might_be_objective_c(path)
    }

    fn detect(&self, path: &str, bytes: &[u8]) -> (r: bool)
        ensures
            r == spec_detect_objective_c(path@, bytes@),
    {
        detect_objective_c(path, bytes)
    }

    fn extract(&self, file: &SourceFile) -> (r: GraphPartition)
        ensures
            brace_tree_sitter_outcome(*file, spec_objective_c_config(), crate::syntax::GrammarId::ObjectiveC, true, r@),
    {
        extract_objective_c(file)
    }
}

/// The Python front end.
pub struct PythonAdapter;

impl LanguageAdapter for PythonAdapter {
    open spec fn spec_language(&self) -> Language {
        Language::Python
    }

    open spec fn spec_detects(&self, path: &str, bytes: &[u8]) -> bool {
        spec_detect_python(path@, bytes@)
    }

    open spec fn spec_extracts(&self, file: &SourceFile, partition: &GraphPartition) -> bool {
        py_tree_sitter_outcome(*file, true, partition@)
    }

    fn language(&self) -> (r: Language)
        ensures
            r == Language::Python,
    {
        Language::Python
    }

    fn path_candidate(&self, path: &str) -> (r: bool)
        ensures
            r == spec_path_might_be_python(path@),
    {
        path_might_be_python(path)
    }

    fn detect(&self, path: &str, bytes: &[u8]) -> (r: bool)
        ensures
            r == spec_detect_python(path@, bytes@),
    {
        detect_python(path, bytes)
    }

    fn extract(&self, file: &SourceFile) -> (r: GraphPartition)
        ensures
            py_tree_sitter_outcome(*file, true, r@),
    {
        extract_python(file)
    }
}

/// The Rust front end.
pub struct RustAdapter;

impl LanguageAdapter for RustAdapter {
    open spec fn spec_language(&self) -> Language {
        Language::Rust
    }

    open spec fn spec_detects(&self, path: &str, bytes: &[u8]) -> bool {
        spec_detect_rust(path@, bytes@)
    }

    open spec fn spec_extracts(&self, file: &SourceFile, partition: &GraphPartition) -> bool {
        rust_tree_sitter_outcome(*file, true, partition@)
    }

    fn language(&self) -> (r: Language)
        ensures
            r == Language::Rust,
    {
        Language::Rust
    }

    fn path_candidate(&self, path: &str) -> (r: bool)
        ensures
            r == spec_path_might_be_rust(path@),
    {
        path_might_be_rust(path)
    }

    fn detect(&self, path: &str, bytes: &[u8]) -> (r: bool)
        ensures
            r == spec_detect_rust(path@, bytes@),
    {
        detect_rust(path, bytes)
    }

    fn extract(&self, file: &SourceFile) -> (r: GraphPartition)
        ensures
            rust_tree_sitter_outcome(*file, true, r@),
    {
        extract_rust(file)
    }
}

/// The TypeScript front end.
pub struct TypeScriptAdapter;

impl LanguageAdapter for TypeScriptAdapter {
    open spec fn spec_language(&self) -> Language {
        Language::TypeScript
    }

    open spec fn spec_detects(&self, path: &str, bytes: &[u8]) -> bool {
        spec_detect_typescript(path@, bytes@)
    }

    open spec fn spec_extracts(&self, file: &SourceFile, partition: &GraphPartition) -> bool {
        ts_tree_sitter_outcome(*file, true, partition@)
    }

    fn language(&self) -> (r: Language)
        ensures
            r == Language::TypeScript,
    {
        Language::TypeScript
    }

    fn path_candidate(&self, path: &str) -> (r: bool)
        ensures
            r == spec_path_might_be_typescript(path@),
    {
        path_might_be_typescript(path)
    }

    fn detect(&self, path: &str, bytes: &[u8]) -> (r: bool)
        ensures
            r == spec_detect_typescript(path@, bytes@),
    {
        detect_typescript(path, bytes)
    }

    fn extract(&self, file: &SourceFile) -> (r: GraphPartition)
        ensures
            ts_tree_sitter_outcome(*file, true, r@),
    {
        extract_typescript(file)
    }
}

/// The JavaScript front end.
pub struct JavaScriptAdapter;

impl LanguageAdapter for JavaScriptAdapter {
    open spec fn spec_language(&self) -> Language {
        Language::JavaScript
    }

    open spec fn spec_detects(&self, path: &str, bytes: &[u8]) -> bool {
        spec_detect_javascript(path@)
    }

    open spec fn spec_extracts(&self, file: &SourceFile, partition: &GraphPartition) -> bool {
        ts_tree_sitter_outcome(*file, true, partition@)
    }

    fn language(&self) -> (r: Language)
        ensures
            r == Language::JavaScript,
    {
        Language::JavaScript
    }

    fn path_candidate(&self, path: &str) -> (r: bool)
        ensures
            r == spec_path_might_be_javascript(path@),
    {
        path_might_be_javascript(path)
    }

    fn detect(&self, path: &str, bytes: &[u8]) -> (r: bool)
        ensures
            r == spec_detect_javascript(path@),
    {
        detect_javascript(path, bytes)
    }

    fn extract(&self, file: &SourceFile) -> (r: GraphPartition)
        ensures
            ts_tree_sitter_outcome(*file, true, r@),
    {
        extract_typescript(file)
    }
}

/// One of the front ends that ship with the library.
#[derive(Clone, Copy, Debug, PartialEq, Eq, Structural)]
pub enum BuiltinAdapter {
    ObjectiveC,
    Cpp,
    C,
    Go,
    Java,
    Json,
    Rust,
    JavaScript,
    TypeScript,
    Python,
}

/// The language a front end handles.
pub open spec fn adapter_language(a: BuiltinAdapter) -> Language {
    match a {
        BuiltinAdapter::ObjectiveC => Language::ObjectiveC,
        BuiltinAdapter::Cpp => Language::Cpp,
        BuiltinAdapter::C => Language::C,
        BuiltinAdapter::Go => Language::Go,
        BuiltinAdapter::Java => Language::Java,
        BuiltinAdapter::Json => Language::Json,
        BuiltinAdapter::Rust => Language::Rust,
        BuiltinAdapter::JavaScript => Language::JavaScript,
        BuiltinAdapter::TypeScript => Language::TypeScript,
        BuiltinAdapter::Python => Language::Python,
    }
}

/// Whether a front end takes a path as a candidate.
pub open spec fn adapter_path_candidate(a: BuiltinAdapter, p: Seq<char>) -> bool {
    match a {
        BuiltinAdapter::ObjectiveC => spec_path_might_be_objective_c(p),
        BuiltinAdapter::Cpp => spec_path_might_be_cpp(p),
        BuiltinAdapter::C => spec_path_might_be_c(p),
        BuiltinAdapter::Go => spec_path_might_be_go(p),
        BuiltinAdapter::Java => spec_path_might_be_java(p),
        BuiltinAdapter::Json => spec_path_might_be_json(p),
        BuiltinAdapter::Rust => spec_path_might_be_rust(p),
        BuiltinAdapter::JavaScript => spec_path_might_be_javascript(p),
        BuiltinAdapter::TypeScript => spec_path_might_be_typescript(p),
        BuiltinAdapter::Python => spec_path_might_be_python(p),
    }
}

/// Whether a front end recognises a file.
pub open spec fn adapter_detects(a: BuiltinAdapter, p: Seq<char>, bytes: Seq<u8>) -> bool {
    match a {
        BuiltinAdapter::ObjectiveC => spec_detect_objective_c(p, bytes),
        BuiltinAdapter::Cpp => spec_detect_cpp(p, bytes),
        BuiltinAdapter::C => spec_detect_c(p, bytes),
        BuiltinAdapter::Go => spec_detect_go(p),
        BuiltinAdapter::Java => spec_detect_java(p),
        BuiltinAdapter::Json => spec_detect_json(p, bytes),
        BuiltinAdapter::Rust => spec_detect_rust(p, bytes),
        BuiltinAdapter::JavaScript => spec_detect_javascript(p),
        BuiltinAdapter::TypeScript => spec_detect_typescript(p, bytes),
        BuiltinAdapter::Python => spec_detect_python(p, bytes),
    }
}

/// What a front end's extraction of `file` may give.
pub open spec fn adapter_outcome(a: BuiltinAdapter, file: SourceFile, p: PartitionView) -> bool {
    match a {
        BuiltinAdapter::ObjectiveC => brace_tree_sitter_outcome(file, spec_objective_c_config(), crate::syntax::GrammarId::ObjectiveC, true, p),
        BuiltinAdapter::Cpp => brace_tree_sitter_outcome(file, spec_cpp_config(), crate::syntax::GrammarId::Cpp, true, p),
        BuiltinAdapter::C => brace_tree_sitter_outcome(file, spec_c_config(), crate::syntax::GrammarId::C, true, p),
        BuiltinAdapter::Go => brace_tree_sitter_outcome(file, spec_go_config(), crate::syntax::GrammarId::Go, true, p),
        BuiltinAdapter::Java => brace_tree_sitter_outcome(file, spec_java_config(), crate::syntax::GrammarId::Java, true, p),
        BuiltinAdapter::Json => same_but_extraction_time(p, spec_json_partition(file, json_parse_result(file.text@))),
        BuiltinAdapter::Rust => rust_tree_sitter_outcome(file, true, p),
        BuiltinAdapter::JavaScript => ts_tree_sitter_outcome(file, true, p),
        BuiltinAdapter::TypeScript => ts_tree_sitter_outcome(file, true, p),
        BuiltinAdapter::Python => py_tree_sitter_outcome(file, true, p),
    }
}

impl LanguageAdapter for BuiltinAdapter {
    open spec fn spec_language(&self) -> Language {
        adapter_language(*self)
    }

    open spec fn spec_detects(&self, path: &str, bytes: &[u8]) -> bool {
        adapter_detects(*self, path@, bytes@)
    }

    open spec fn spec_extracts(&self, file: &SourceFile, partition: &GraphPartition) -> bool {
        adapter_outcome(*self, *file, partition@)
    }

    fn language(&self) -> (r: Language)
        ensures
            r == adapter_language(*self),
    {
        match self {
            BuiltinAdapter::ObjectiveC => ObjectiveCAdapter.language(),
            BuiltinAdapter::Cpp => CppAdapter.language(),
            BuiltinAdapter::C => CAdapter.language(),
            BuiltinAdapter::Go => GoAdapter.language(),
            BuiltinAdapter::Java => JavaAdapter.language(),
            BuiltinAdapter::Json => JsonAdapter.language(),
            BuiltinAdapter::Rust => RustAdapter.language(),
            BuiltinAdapter::JavaScript => JavaScriptAdapter.language(),
            BuiltinAdapter::TypeScript => TypeScriptAdapter.language(),
            BuiltinAdapter::Python => PythonAdapter.language(),
        }
    }

    fn path_candidate(&self, path: &str) -> (r: bool)
        ensures
            r == adapter_path_candidate(*self, path@),
    {
        match self {
            BuiltinAdapter::ObjectiveC => ObjectiveCAdapter.path_candidate(path),
            BuiltinAdapter::Cpp => CppAdapter.path_candidate(path),
            BuiltinAdapter::C => CAdapter.path_candidate(path),
            BuiltinAdapter::Go => GoAdapter.path_candidate(path),
            BuiltinAdapter::Java => JavaAdapter.path_candidate(path),
            BuiltinAdapter::Json => JsonAdapter.path_candidate(path),
            BuiltinAdapter::Rust => RustAdapter.path_candidate(path),
            BuiltinAdapter::JavaScript => JavaScriptAdapter.path_candidate(path),
            BuiltinAdapter::TypeScript => TypeScriptAdapter.path_candidate(path),
            BuiltinAdapter::Python => PythonAdapter.path_candidate(path),
        }
    }

    fn detect(&self, path: &str, bytes: &[u8]) -> (r: bool)
        ensures
            r == adapter_detects(*self, path@, bytes@),
    {
        match self {
            BuiltinAdapter::ObjectiveC => ObjectiveCAdapter.detect(path, bytes),
            BuiltinAdapter::Cpp => CppAdapter.detect(path, bytes),
            BuiltinAdapter::C => CAdapter.detect(path, bytes),
            BuiltinAdapter::Go => GoAdapter.detect(path, bytes),
            BuiltinAdapter::Java => JavaAdapter.detect(path, bytes),
            BuiltinAdapter::Json => JsonAdapter.detect(path, bytes),
            BuiltinAdapter::Rust => RustAdapter.detect(path, bytes),
            BuiltinAdapter::JavaScript => JavaScriptAdapter.detect(path, bytes),
            BuiltinAdapter::TypeScript => TypeScriptAdapter.detect(path, bytes),
            BuiltinAdapter::Python => PythonAdapter.detect(path, bytes),
        }
    }

    fn extract(&self, file: &SourceFile) -> (r: GraphPartition)
        ensures
            adapter_outcome(*self, *file, r@),
    {
        match self {
            BuiltinAdapter::ObjectiveC => ObjectiveCAdapter.extract(file),
            BuiltinAdapter::Cpp => CppAdapter.extract(file),
            BuiltinAdapter::C => CAdapter.extract(file),
            BuiltinAdapter::Go => GoAdapter.extract(file),
            BuiltinAdapter::Java => JavaAdapter.extract(file),
            BuiltinAdapter::Json => JsonAdapter.extract(file),
            BuiltinAdapter::Rust => RustAdapter.extract(file),
            BuiltinAdapter::JavaScript => JavaScriptAdapter.extract(file),
            BuiltinAdapter::TypeScript => TypeScriptAdapter.extract(file),
            BuiltinAdapter::Python => PythonAdapter.extract(file),
        }
    }
}

/// What a front end's extraction of `file` may give in `mode` under the size
/// limit `limit`: the line scanner alone, tree-sitter alone, or tree-sitter
/// falling back to the scanner. JSON has no modes.
pub open spec fn adapter_outcome_in_mode(a: BuiltinAdapter, file: SourceFile, limit: usize, timeout: u64, mode: ExtractionMode, p: PartitionView) -> bool {
    match a {
        BuiltinAdapter::Json => same_but_extraction_time(p, spec_json_partition(file, json_parse_result(file.text@))),
        BuiltinAdapter::ObjectiveC => brace_mode_outcome(file, spec_objective_c_config(), crate::syntax::GrammarId::ObjectiveC, limit, timeout, mode, p),
        BuiltinAdapter::Cpp => brace_mode_outcome(file, spec_cpp_config(), crate::syntax::GrammarId::Cpp, limit, timeout, mode, p),
        BuiltinAdapter::C => brace_mode_outcome(file, spec_c_config(), crate::syntax::GrammarId::C, limit, timeout, mode, p),
        BuiltinAdapter::Go => brace_mode_outcome(file, spec_go_config(), crate::syntax::GrammarId::Go, limit, timeout, mode, p),
        BuiltinAdapter::Java => brace_mode_outcome(file, spec_java_config(), crate::syntax::GrammarId::Java, limit, timeout, mode, p),
        BuiltinAdapter::Rust => match mode {
            ExtractionMode::ScannerOnly => p == spec_scanner_extract_rust(file),
            ExtractionMode::TreeSitterOnly => rust_tree_sitter_outcome_within(file, limit, timeout, false, p),
            _ => rust_tree_sitter_outcome_within(file, limit, timeout, true, p),
        },
        BuiltinAdapter::JavaScript | BuiltinAdapter::TypeScript => match mode {
            ExtractionMode::ScannerOnly => p == spec_scanner_extract_typescript(file),
            ExtractionMode::TreeSitterOnly => ts_tree_sitter_outcome_within(file, limit, timeout, false, p),
            _ => ts_tree_sitter_outcome_within(file, limit, timeout, true, p),
        },
        BuiltinAdapter::Python => match mode {
            ExtractionMode::ScannerOnly => p == spec_scanner_extract_python(file),
            ExtractionMode::TreeSitterOnly => py_tree_sitter_outcome_within(file, limit, timeout, false, p),
            _ => py_tree_sitter_outcome_within(file, limit, timeout, true, p),
        },
    }
}

pub open spec fn brace_mode_outcome(file: SourceFile, cfg: crate::brace_tree::BraceView, grammar: crate::syntax::GrammarId, limit: usize, timeout: u64, mode: ExtractionMode, p: PartitionView) -> bool {
    match mode {
        ExtractionMode::ScannerOnly => p == crate::brace::spec_brace_scanner_extract(file),
        ExtractionMode::TreeSitterOnly => brace_tree_sitter_outcome_within(file, cfg, grammar, limit, timeout, false, p),
        _ => brace_tree_sitter_outcome_within(file, cfg, grammar, limit, timeout, true, p),
    }
}

impl BuiltinAdapter {
    /// Extracts `file` in `mode` under the guardrails of `options`.
    pub fn extract_with_options(&self, file: &SourceFile, options: ExtractionOptions, mode: ExtractionMode) -> (r: GraphPartition)
        requires
            text_fits(file.text@),
        ensures
            adapter_outcome_in_mode(*self, *file, options.parse_limits.max_file_bytes, options.parse_limits.parse_timeout_micros, mode, r@),
    {
        match self {
            BuiltinAdapter::Json => extract_json(file),
            BuiltinAdapter::ObjectiveC => {
                let pool = crate::syntax::ParserPool::new(crate::syntax::GrammarId::ObjectiveC);
                crate::brace_tree::extract(file, &pool, &crate::brace_tree::objective_c_config(), options, mode)
            },
            BuiltinAdapter::Cpp => {
                let pool = crate::syntax::ParserPool::new(crate::syntax::GrammarId::Cpp);
                crate::brace_tree::extract(file, &pool, &crate::brace_tree::cpp_config(), options, mode)
            },
            BuiltinAdapter::C => {
                let pool = crate::syntax::ParserPool::new(crate::syntax::GrammarId::C);
                crate::brace_tree::extract(file, &pool, &crate::brace_tree::c_config(), options, mode)
            },
            BuiltinAdapter::Go => {
                let pool = crate::syntax::ParserPool::new(crate::syntax::GrammarId::Go);
                crate::brace_tree::extract(file, &pool, &crate::brace_tree::go_config(), options, mode)
            },
            BuiltinAdapter::Java => {
                let pool = crate::syntax::ParserPool::new(crate::syntax::GrammarId::Java);
                crate::brace_tree::extract(file, &pool, &crate::brace_tree::java_config(), options, mode)
            },
            BuiltinAdapter::Rust => crate::rust_lang::extract_rust_with_options(file, options, mode),
            BuiltinAdapter::JavaScript | BuiltinAdapter::TypeScript => crate::ts_tree::extract_typescript_with_options(file, options, mode),
            BuiltinAdapter::Python => crate::py_tree::extract_python_with_options(file, options, mode),
        }
    }
}

/// A registered front end: a built-in one, or one of the user's own.
pub enum RegisteredAdapter {
    Builtin(BuiltinAdapter),
    Custom(Box<dyn LanguageAdapter>),
}

/// The language a registered front end answers.
pub open spec fn slot_language(s: RegisteredAdapter) -> Language {
    match s {
        RegisteredAdapter::Builtin(a) => adapter_language(a),
        RegisteredAdapter::Custom(c) => c.spec_language(),
    }
}

/// Whether a registered front end recognises the file at `path` with `bytes`.
pub open spec fn slot_detects(s: RegisteredAdapter, path: &str, bytes: &[u8]) -> bool {
    match s {
        RegisteredAdapter::Builtin(a) => adapter_detects(a, path@, bytes@),
        RegisteredAdapter::Custom(c) => c.spec_detects(path, bytes),
    }
}

/// Whether `p` is a partition a registered front end's `extract` may give for `file`.
pub open spec fn slot_extracts(s: RegisteredAdapter, file: &SourceFile, p: &GraphPartition) -> bool {
    match s {
        RegisteredAdapter::Builtin(a) => adapter_outcome(a, *file, p@),
        RegisteredAdapter::Custom(c) => c.spec_extracts(file, p),
    }
}

/// Whether a built-in front end takes `path` as a candidate; a user's front end
/// is not counted.
pub open spec fn slot_takes_path(s: RegisteredAdapter, p: Seq<char>) -> bool {
    match s {
        RegisteredAdapter::Builtin(a) => adapter_path_candidate(a, p),
        RegisteredAdapter::Custom(_) => false,
    }
}

/// The front ends a default registry holds, in the order they are asked.
pub open spec fn default_adapters() -> Seq<RegisteredAdapter> {
    seq![
        RegisteredAdapter::Builtin(BuiltinAdapter::ObjectiveC),
        RegisteredAdapter::Builtin(BuiltinAdapter::Cpp),
        RegisteredAdapter::Builtin(BuiltinAdapter::C),
        RegisteredAdapter::Builtin(BuiltinAdapter::Go),
        RegisteredAdapter::Builtin(BuiltinAdapter::Java),
        RegisteredAdapter::Builtin(BuiltinAdapter::Json),
        RegisteredAdapter::Builtin(BuiltinAdapter::Rust),
        RegisteredAdapter::Builtin(BuiltinAdapter::JavaScript),
        RegisteredAdapter::Builtin(BuiltinAdapter::TypeScript),
        RegisteredAdapter::Builtin(BuiltinAdapter::Python),
    ]
}

/// The language of the first front end, from the `i`-th on, that recognises the
/// file, or `Unknown` when none does.
pub open spec fn detect_from(adapters: Seq<RegisteredAdapter>, path: &str, bytes: &[u8], i: int) -> Language
    decreases adapters.len() - i,
{
    if i < 0 || i >= adapters.len() {
        Language::Unknown
    } else if slot_detects(adapters[i], path, bytes) {
        slot_language(adapters[i])
    } else {
        detect_from(adapters, path, bytes, i + 1)
    }
}

/// The language of the first front end that recognises the file, or `Unknown`.
pub open spec fn spec_detect_language(adapters: Seq<RegisteredAdapter>, path: &str, bytes: &[u8]) -> Language {
    detect_from(adapters, path, bytes, 0)
}

/// Whether some front end among `adapters`, from the `i`-th on, recognises the file.
pub open spec fn detected_from(adapters: Seq<RegisteredAdapter>, path: &str, bytes: &[u8], i: int) -> bool {
    exists|j: int| i <= j < adapters.len() && #[trigger] slot_detects(adapters[j], path, bytes)
}

/// The first front end, from the `i`-th on, for `language`.
pub open spec fn adapter_for_from(adapters: Seq<RegisteredAdapter>, language: Language, i: int) -> Option<RegisteredAdapter>
    decreases adapters.len() - i,
{
    if i < 0 || i >= adapters.len() {
        None
    } else if slot_language(adapters[i]) == language {
        Some(adapters[i])
    } else {
        adapter_for_from(adapters, language, i + 1)
    }
}

/// The first front end for `language`.
pub open spec fn spec_adapter_for(adapters: Seq<RegisteredAdapter>, language: Language) -> Option<RegisteredAdapter> {
    adapter_for_from(adapters, language, 0)
}

/// An ordered list of front ends: detection asks them in turn, and extraction
/// goes to the first one for the file's language.
pub struct AdapterRegistry {
    adapters: Vec<RegisteredAdapter>,
}

impl View for AdapterRegistry {
    type V = Seq<RegisteredAdapter>;

    closed spec fn view(&self) -> Seq<RegisteredAdapter> {
        self.adapters@
    }
}

impl Default for AdapterRegistry {
    fn default() -> (r: Self)
        ensures
            r@ == Seq::<RegisteredAdapter>::empty(),
    {
        AdapterRegistry::new()
    }
}

impl AdapterRegistry {
    /// A registry with no front ends.
    pub fn new() -> (r: Self)
        ensures
            r@ == Seq::<RegisteredAdapter>::empty(),
    {
        AdapterRegistry { adapters: Vec::new() }
    }

    /// A registry with every built-in front end, Objective-C and C++ ahead of C,
    /// JSON ahead of JavaScript and TypeScript, and Python last.
    pub fn with_defaults() -> (r: Self)
        ensures
            r@ == default_adapters(),
    {
        let r = Self::new()
            .register(BuiltinAdapter::ObjectiveC)
            .register(BuiltinAdapter::Cpp)
            .register(BuiltinAdapter::C)
            .register(BuiltinAdapter::Go)
            .register(BuiltinAdapter::Java)
            .register(BuiltinAdapter::Json)
            .register(BuiltinAdapter::Rust)
            .register(BuiltinAdapter::JavaScript)
            .register(BuiltinAdapter::TypeScript)
            .register(BuiltinAdapter::Python);
        assert(r@ =~= default_adapters());
        r
    }

    /// The registry with the built-in `adapter` asked after those already there.
    pub fn register(self, adapter: BuiltinAdapter) -> (r: Self)
        ensures
            r@ == self@.push(RegisteredAdapter::Builtin(adapter)),
    {
        let mut adapters = self.adapters;
        adapters.push(RegisteredAdapter::Builtin(adapter));
        AdapterRegistry { adapters }
    }

    /// The registry with a user's own front end asked after those already there.
    pub fn register_custom(self, adapter: Box<dyn LanguageAdapter>) -> (r: Self)
        ensures
            r@ == self@.push(RegisteredAdapter::Custom(adapter)),
    {
        let mut adapters = self.adapters;
        adapters.push(RegisteredAdapter::Custom(adapter));
        AdapterRegistry { adapters }
    }

    /// The language of the first front end that recognises the file, or `Unknown`.
    pub fn detect_language(&self, path: &str, bytes: &[u8]) -> (r: Language)
        ensures
            r == spec_detect_language(self@, path, bytes),
    {
        let mut i: usize = 0;
        while i < self.adapters.len()
            invariant
                i <= self.adapters@.len(),
                detect_from(self@, path, bytes, 0) == detect_from(self@, path, bytes, i as int),
            decreases self.adapters@.len() - i,
        {
            match &self.adapters[i] {
                RegisteredAdapter::Builtin(a) => {
                    if a.detect(path, bytes) {
                        return a.language();
                    }
                },
                RegisteredAdapter::Custom(c) => {
                    if c.detect(path, bytes) {
                        return c.language();
                    }
                },
            }
            i += 1;
        }
        Language::Unknown
    }

    /// Whether some front end takes `path` as a candidate.
    pub fn path_candidate(&self, path: &str) -> (r: bool)
        ensures
            (exists|i: int| 0 <= i < self@.len() && #[trigger] slot_takes_path(self@[i], path@)) ==> r,
            r ==> exists|i: int| #![trigger self@[i]] 0 <= i < self@.len() && (slot_takes_path(self@[i], path@) || self@[i] is Custom),
    {
        let mut i: usize = 0;
        while i < self.adapters.len()
            invariant
                i <= self.adapters@.len(),
                forall|j: int| 0 <= j < i ==> !#[trigger] slot_takes_path(self@[j], path@),
            decreases self.adapters@.len() - i,
        {
            match &self.adapters[i] {
                RegisteredAdapter::Builtin(a) => {
                    if a.path_candidate(path) {
                        assert(slot_takes_path(self@[i as int], path@));
                        return true;
                    }
                },
                RegisteredAdapter::Custom(c) => {
                    if c.path_candidate(path) {
                        assert(self@[i as int] is Custom);
                        return true;
                    }
                },
            }
            i += 1;
        }
        false
    }

    /// The partition of `file` from the first front end for its language, or an
    /// empty partition when none handles it.
    pub fn extract(&self, file: &SourceFile) -> (r: GraphPartition)
        requires
            spec_adapter_for(self@, file.language) is Some ==> text_fits(file.text@),
        ensures
            match spec_adapter_for(self@, file.language) {
                Some(s) => slot_extracts(s, file, &r),
                None => r@ == empty_partition_view(*file),
            },
    {
        let mut i: usize = 0;
        while i < self.adapters.len()
            invariant
                i <= self.adapters@.len(),
                adapter_for_from(self@, file.language, 0) is Some ==> text_fits(file.text@),
                adapter_for_from(self@, file.language, i as int) == adapter_for_from(self@, file.language, 0),
            decreases self.adapters@.len() - i,
        {
            match &self.adapters[i] {
                RegisteredAdapter::Builtin(a) => {
                    if a.language() == file.language {
                        return a.extract(file);
                    }
                },
                RegisteredAdapter::Custom(c) => {
                    if c.language() == file.language {
                        return c.extract(file);
                    }
                },
            }
            i += 1;
        }
        let r = GraphPartition::empty(file);
        assert(r@.nodes =~= Seq::<crate::model::NodeView>::empty());
        assert(r@.edges =~= Seq::<crate::model::EdgeView>::empty());
        assert(r@.diagnostics =~= Seq::<crate::diagnostics::DiagnosticView>::empty());
        r
    }

    /// The partition of `file` in `mode`, under the guardrails of `options`, from
    /// the first front end for its language, or an empty partition when none
    /// handles it. A user's front end extracts as it always does.
    pub fn extract_with_options(&self, file: &SourceFile, options: ExtractionOptions, mode: ExtractionMode) -> (r: GraphPartition)
        requires
            spec_adapter_for(self@, file.language) is Some ==> text_fits(file.text@),
        ensures
            match spec_adapter_for(self@, file.language) {
                Some(RegisteredAdapter::Builtin(a)) => adapter_outcome_in_mode(a, *file, options.parse_limits.max_file_bytes, options.parse_limits.parse_timeout_micros, mode, r@),
                Some(RegisteredAdapter::Custom(c)) => c.spec_extracts(file, &r),
                None => r@ == empty_partition_view(*file),
            },
    {
        let mut i: usize = 0;
        while i < self.adapters.len()
            invariant
                i <= self.adapters@.len(),
                adapter_for_from(self@, file.language, 0) is Some ==> text_fits(file.text@),
                adapter_for_from(self@, file.language, i as int) == adapter_for_from(self@, file.language, 0),
            decreases self.adapters@.len() - i,
        {
            match &self.adapters[i] {
                RegisteredAdapter::Builtin(a) => {
                    if a.language() == file.language {
                        return a.extract_with_options(file, options, mode);
                    }
                },
                RegisteredAdapter::Custom(c) => {
                    if c.language() == file.language {
                        return c.extract(file);
                    }
                },
            }
            i += 1;
        }
        let r = GraphPartition::empty(file);
        assert(r@.nodes =~= Seq::<crate::model::NodeView>::empty());
        assert(r@.edges =~= Seq::<crate::model::EdgeView>::empty());
        assert(r@.diagnostics =~= Seq::<crate::diagnostics::DiagnosticView>::empty());
        r
    }
}

/// A registry with every built-in front end.
pub fn default_registry() -> (r: AdapterRegistry)
    ensures
        r@ == default_adapters(),
{
    AdapterRegistry::with_defaults()
}

/// A registry with no front end recognises nothing: it detects no language,
/// offers no path to any front end and has no extractor for any language, so its
/// `extract`, which then asks nothing of the file, gives the file's empty
/// partition.
pub proof fn empty_registry_handles_nothing(path: &str, bytes: &[u8], language: Language)
    ensures
        spec_detect_language(Seq::empty(), path, bytes) == Language::Unknown,
        !(exists|i: int| 0 <= i < Seq::<RegisteredAdapter>::empty().len() && #[trigger] slot_takes_path(Seq::<RegisteredAdapter>::empty()[i], path@)),
        !(exists|i: int| 0 <= i < Seq::<RegisteredAdapter>::empty().len() && Seq::<RegisteredAdapter>::empty()[i] is Custom),
        spec_adapter_for(Seq::empty(), language) is None,
{
}

/// Registering a front end never changes what the registry already recognises:
/// a file some earlier front end detects keeps the language the first of them
/// gives; otherwise the new front end's answer decides, and a file none
/// recognises stays `Unknown`.
pub proof fn registering_keeps_detection(adapters: Seq<RegisteredAdapter>, extra: RegisteredAdapter, path: &str, bytes: &[u8])
    ensures
        spec_detect_language(adapters.push(extra), path, bytes) == if detected_from(adapters, path, bytes, 0) {
            spec_detect_language(adapters, path, bytes)
        } else if slot_detects(extra, path, bytes) {
            slot_language(extra)
        } else {
            Language::Unknown
        },
{
    lemma_detect_push(adapters, extra, path, bytes, 0);
}

proof fn lemma_detect_push(adapters: Seq<RegisteredAdapter>, extra: RegisteredAdapter, path: &str, bytes: &[u8], i: int)
    requires
        0 <= i <= adapters.len(),
    ensures
        detect_from(adapters.push(extra), path, bytes, i) == if detected_from(adapters, path, bytes, i) {
            detect_from(adapters, path, bytes, i)
        } else if slot_detects(extra, path, bytes) {
            slot_language(extra)
        } else {
            Language::Unknown
        },
    decreases adapters.len() - i,
{
    if i < adapters.len() {
        assert(adapters.push(extra)[i] == adapters[i]);
        lemma_detect_push(adapters, extra, path, bytes, i + 1);
        if !slot_detects(adapters[i], path, bytes) {
            if detected_from(adapters, path, bytes, i) {
                let j = choose|j: int| i <= j < adapters.len() && #[trigger] slot_detects(adapters[j], path, bytes);
                assert(j != i);
                assert(detected_from(adapters, path, bytes, i + 1));
            } else {
                assert(!detected_from(adapters, path, bytes, i + 1));
            }
        } else {
            assert(detected_from(adapters, path, bytes, i));
        }
    } else {
        assert(adapters.push(extra)[i] == extra);
        assert(!detected_from(adapters, path, bytes, i));
        assert(detect_from(adapters.push(extra), path, bytes, i + 1) == Language::Unknown);
    }
}

/// A registry extracts a file with the first front end registered for its
/// language: registering another front end changes nothing for a language
/// already served, and serves a language that had no front end with the new one
/// when it is for that language.
pub proof fn registering_keeps_extractor(adapters: Seq<RegisteredAdapter>, extra: RegisteredAdapter, language: Language)
    ensures
        spec_adapter_for(adapters.push(extra), language) == if spec_adapter_for(adapters, language) is Some {
            spec_adapter_for(adapters, language)
        } else if slot_language(extra) == language {
            Some(extra)
        } else {
            None
        },
{
    lemma_adapter_for_push(adapters, extra, language, 0);
}

proof fn lemma_adapter_for_push(adapters: Seq<RegisteredAdapter>, extra: RegisteredAdapter, language: Language, i: int)
    requires
        0 <= i <= adapters.len(),
    ensures
        adapter_for_from(adapters.push(extra), language, i) == if adapter_for_from(adapters, language, i) is Some {
            adapter_for_from(adapters, language, i)
        } else if slot_language(extra) == language {
            Some(extra)
        } else {
            None
        },
    decreases adapters.len() - i,
{
    if i < adapters.len() {
        assert(adapters.push(extra)[i] == adapters[i]);
        lemma_adapter_for_push(adapters, extra, language, i + 1);
    } else {
        assert(adapters.push(extra)[i] == extra);
        assert(adapter_for_from(adapters.push(extra), language, i + 1) is None);
        assert(adapter_for_from(adapters, language, i) is None);
    }
}

impl AdapterRegistry {
    /// Prepares one file read from disk for the index. Its language is what the
    /// front ends detect from its path and bytes. A file of no known language,
    /// whose bytes are not UTF-8, or whose text is too long to address is left
    /// out; any other comes back as a source file of `repo` under `root`, with
    /// its partition in `mode` under the guardrails of `options`.
    pub fn index_file(&self, repo: &RepositoryId, root: &str, path: &str, bytes: &[u8], options: ExtractionOptions, mode: ExtractionMode) -> (r: Option<(SourceFile, GraphPartition)>)
        ensures
            match r {
                None => {
                    ||| spec_detect_language(self@, path, bytes) == Language::Unknown
                    ||| !valid_utf8(bytes@)
                    ||| !text_fits(decode_utf8(bytes@))
                },
                Some((file, p)) => {
                    &&& file.language != Language::Unknown
                    &&& file.language == spec_detect_language(self@, path, bytes)
                    &&& valid_utf8(bytes@)
                    &&& file.text@ == decode_utf8(bytes@)
                    &&& text_fits(file.text@)
                    &&& file.repo_id == *repo
                    &&& file.path@ == path@
                    &&& file.file_id@ == file_id_text(repo@, path@, root@, file.language)
                    &&& file.fingerprint@ == crate::ids::blake3_hex(encode_utf8(file.text@))
                    &&& match spec_adapter_for(self@, file.language) {
                        Some(RegisteredAdapter::Builtin(a)) => adapter_outcome_in_mode(a, file, options.parse_limits.max_file_bytes, options.parse_limits.parse_timeout_micros, mode, p@),
                        Some(RegisteredAdapter::Custom(c)) => c.spec_extracts(&file, &p),
                        None => p@ == empty_partition_view(file),
                    }
                },
            },
    {
        let language = self.detect_language(path, bytes);
        if language == Language::Unknown {
            return None;
        }
        let text = match crate::detect::str_from_utf8(bytes) {
            Some(t) => t,
            None => return None,
        };
        if !fits_text(text.as_str()) {
            return None;
        }
        let file = SourceFile::new(repo.clone(), root, String::from_str(path), language, text);
        let p = self.extract_with_options(&file, options, mode);
        Some((file, p))
    }
}

/// A header (a path with extension `h`) whose bytes are UTF-8 text containing
/// `namespace `, `template <` or `class ` is recognised by the C++ front end.
pub proof fn cpp_headers_are_detected(path: Seq<char>, bytes: Seq<u8>)
    requires
        crate::paths::spec_extension(path) == Some("h"@),
        valid_utf8(bytes),
        crate::text::contains_seq(decode_utf8(bytes), "namespace "@)
            || crate::text::contains_seq(decode_utf8(bytes), "template <"@)
            || crate::text::contains_seq(decode_utf8(bytes), "class "@),
    ensures
        adapter_detects(BuiltinAdapter::Cpp, path, bytes),
{
    assert(crate::detect::ext(path) == "h"@);
}

/// With the default front ends, a header (extension `h`) whose bytes are UTF-8
/// text containing `namespace `, `template <` or `class `, and none of the
/// Objective-C markers `@interface`, `@implementation` and `@protocol`, is C++.
pub proof fn default_registry_detects_cpp_headers(path: &str, bytes: &[u8])
    requires
        crate::paths::spec_extension(path@) == Some("h"@),
        valid_utf8(bytes@),
        crate::text::contains_seq(decode_utf8(bytes@), "namespace "@)
            || crate::text::contains_seq(decode_utf8(bytes@), "template <"@)
            || crate::text::contains_seq(decode_utf8(bytes@), "class "@),
        !crate::text::contains_seq(decode_utf8(bytes@), "@interface"@),
        !crate::text::contains_seq(decode_utf8(bytes@), "@implementation"@),
        !crate::text::contains_seq(decode_utf8(bytes@), "@protocol"@),
    ensures
        spec_detect_language(default_adapters(), path, bytes) == Language::Cpp,
{
    reveal_strlit("h");
    reveal_strlit("m");
    reveal_strlit("mm");
    cpp_headers_are_detected(path@, bytes@);
    let a = default_adapters();
    assert(a[0] == RegisteredAdapter::Builtin(BuiltinAdapter::ObjectiveC));
    assert(a[1] == RegisteredAdapter::Builtin(BuiltinAdapter::Cpp));
    assert(crate::detect::ext(path@) == "h"@);
    assert("h"@ != "m"@) by {
        assert("h"@[0] != "m"@[0]);
    }
    assert("h"@ != "mm"@) by {
        assert("h"@.len() != "mm"@.len());
    }
    assert(!crate::detect::spec_looks_like_objective_c(bytes@));
    assert(!slot_detects(a[0], path, bytes));
    assert(slot_detects(a[1], path, bytes));
    assert(detect_from(a, path, bytes, 1) == Language::Cpp);
}

} // verus!
