pub mod language;
pub mod quality;
pub mod span;
pub mod text;
pub mod ids;
pub mod paths;
pub mod diagnostics;
pub mod model;
pub mod helpers;
pub mod python;
pub mod ts_scanner;
pub mod resolve;
pub mod brace;
pub mod rust_lang;
pub mod syntax;
pub mod detect;
pub mod brace_tree;
pub mod diff_report;
pub mod symbol_identity;
pub mod order;
pub mod git_status;
pub mod agent;
pub mod output;
pub mod ts_tree;
pub mod json;
pub mod registry;
pub mod compare;
pub mod cli;
pub mod diff_text;
pub mod py_tree;
