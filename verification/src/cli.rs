use crate::syntax::ExtractionMode;
use vstd::prelude::*;

verus! {

/// When to colour terminal output.
#[derive(Clone, Copy, Debug, PartialEq, Eq, Structural)]
pub enum ColorChoice {
    Auto,
    Always,
    Never,
}

impl ColorChoice {
    /// Whether to colour output: always, never, or when standard output is a
    /// terminal (`stdout_is_terminal`).
    pub fn enabled(self, stdout_is_terminal: bool) -> (r: bool)
        ensures
            r == match self {
                ColorChoice::Auto => stdout_is_terminal,
                ColorChoice::Always => true,
                ColorChoice::Never => false,
            },
    {
        match self {
            ColorChoice::Auto => stdout_is_terminal,
            ColorChoice::Always => true,
            ColorChoice::Never => false,
        }
    }
}

/// How query and diff results are written.
#[derive(Clone, Copy, Debug, PartialEq, Eq, Structural)]
pub enum QueryFormat {
    Text,
    Json,
}

/// The extraction mode a cold benchmark runs under.
#[derive(Clone, Copy, Debug, PartialEq, Eq, Structural)]
pub enum BenchExtractionVariant {
    ScannerOnly,
    TreeSitterOnly,
    TreeSitterFallback,
    TreeSitterEnrichment,
}

impl BenchExtractionVariant {
    /// The extraction mode of this variant.
    pub fn mode(self) -> (r: ExtractionMode)
        ensures
            r == match self {
                BenchExtractionVariant::ScannerOnly => ExtractionMode::ScannerOnly,
                BenchExtractionVariant::TreeSitterOnly => ExtractionMode::TreeSitterOnly,
                BenchExtractionVariant::TreeSitterFallback => ExtractionMode::TreeSitterWithFallback,
                BenchExtractionVariant::TreeSitterEnrichment => ExtractionMode::TreeSitterWithEnrichment,
            },
    {
        match self {
            BenchExtractionVariant::ScannerOnly => ExtractionMode::ScannerOnly,
            BenchExtractionVariant::TreeSitterOnly => ExtractionMode::TreeSitterOnly,
            BenchExtractionVariant::TreeSitterFallback => ExtractionMode::TreeSitterWithFallback,
            BenchExtractionVariant::TreeSitterEnrichment => ExtractionMode::TreeSitterWithEnrichment,
        }
    }
}

/// Arguments of `index`: the tree to index, the store, the worker count, the
/// files that changed, and colour.
#[derive(Debug)]
pub struct IndexArgs {
    pub path: String,
    pub store: String,
    pub workers: Option<usize>,
    pub changed: Vec<String>,
    pub color: ColorChoice,
}

/// Arguments of `diff`: the two references, the repository, workers, the parse
/// size limit, and how to write the report.
#[derive(Debug)]
pub struct DiffArgs {
    pub base: String,
    pub head: String,
    pub repo: String,
    pub workers: Option<usize>,
    pub max_parse_bytes: Option<usize>,
    pub agent: bool,
    pub pretty: bool,
    pub color: ColorChoice,
    pub format: QueryFormat,
}

/// What a query asks.
#[derive(Debug)]
pub enum QueryCommand {
    Symbols { name: Option<String> },
    Deps { file: String },
    Callers { symbol: String },
    Callees { symbol: String },
    Refs { symbol: String },
    Packages,
    DepsTree { symbol: String, depth: usize },
    Impact { files: Vec<String> },
}

/// Arguments of `query`.
#[derive(Debug)]
pub struct QueryArgs {
    pub store: String,
    pub pretty: bool,
    pub color: ColorChoice,
    pub format: QueryFormat,
    pub command: QueryCommand,
}

/// What a benchmark measures.
#[derive(Debug)]
pub enum BenchCommand {
    Cold { path: String, workers: Option<usize>, variant: BenchExtractionVariant },
    Query { store: String, name: String, iterations: usize },
    QueryPath { path: String, name: String, iterations: usize, workers: Option<usize> },
    Semantic { iterations: usize },
}

/// Arguments of `bench`.
#[derive(Debug)]
pub struct BenchArgs {
    pub command: BenchCommand,
}

/// Arguments of `watch`.
#[derive(Debug)]
pub struct WatchArgs {
    pub path: String,
    pub store: String,
    pub workers: Option<usize>,
    pub max_parse_bytes: Option<usize>,
    pub debounce_ms: u64,
    pub max_wait_ms: u64,
    pub once: bool,
    pub no_initial: bool,
    pub color: ColorChoice,
}

/// Options for comparing two Git references.
#[derive(Debug)]
pub struct DiffOptions {
    pub repo_root: String,
    pub base_ref: String,
    pub head_ref: String,
    pub workers: usize,
    pub max_parse_bytes: Option<usize>,
}

impl DiffOptions {
    /// Options rooted at the current directory, with as many workers as the
    /// machine offers (`available_workers`) and no parse size limit.
    pub fn new(base_ref: String, head_ref: String, available_workers: usize) -> (r: Self)
        ensures
            r.repo_root@ == "."@,
            r.base_ref == base_ref,
            r.head_ref == head_ref,
            r.workers == available_workers,
            r.max_parse_bytes is None,
    {
        DiffOptions {
            repo_root: String::from_str("."),
            base_ref,
            head_ref,
            workers: available_workers,
            max_parse_bytes: None,
        }
    }

    /// Sets the repository root used for Git operations.
    pub fn with_repo_root(self, repo_root: String) -> (r: Self)
        ensures
            r.repo_root == repo_root,
            r.base_ref == self.base_ref,
            r.head_ref == self.head_ref,
            r.workers == self.workers,
            r.max_parse_bytes == self.max_parse_bytes,
    {
        DiffOptions { repo_root, ..self }
    }

    /// Sets the maximum indexing worker count, at least one.
    pub fn with_workers(self, workers: usize) -> (r: Self)
        ensures
            r.workers == if workers > 1 { workers } else { 1 },
            r.repo_root == self.repo_root,
            r.base_ref == self.base_ref,
            r.head_ref == self.head_ref,
            r.max_parse_bytes == self.max_parse_bytes,
    {
        let workers = if workers > 1 { workers } else { 1 };
        DiffOptions { workers, ..self }
    }

    /// Sets the maximum source bytes a tree-sitter adapter may parse per file.
    pub fn with_max_parse_bytes(self, max_parse_bytes: Option<usize>) -> (r: Self)
        ensures
            r.max_parse_bytes == max_parse_bytes,
            r.repo_root == self.repo_root,
            r.base_ref == self.base_ref,
            r.head_ref == self.head_ref,
            r.workers == self.workers,
    {
        DiffOptions { max_parse_bytes, ..self }
    }
}

} // verus!
