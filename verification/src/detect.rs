use crate::paths::{extension_of, file_name_of, spec_extension, spec_file_name};
use crate::text::{
    chars_of, contains_seq, contains_str, lines, lines_of, starts_with, starts_with_str, text_is,
    trim_start, trimmed_start,
};
use vstd::prelude::*;
use vstd::utf8::{decode_utf8, valid_utf8};

verus! {

/// `std::str::from_utf8`: the text the bytes encode, when they are valid UTF-8.
#[verifier::external_body]
pub(crate) fn str_from_utf8(bytes: &[u8]) -> (r: Option<String>)
    ensures
        match r {
            Some(s) => valid_utf8(bytes@) && s@ == decode_utf8(bytes@),
            None => !valid_utf8(bytes@),
        },
{
    std::str::from_utf8(bytes).ok().map(|text| text.to_string())
}

/// The extension of a path, or the empty text when it has none.
pub open spec fn ext(p: Seq<char>) -> Seq<char> {
    match spec_extension(p) {
        Some(e) => e,
        None => Seq::empty(),
    }
}

/// Whether a path has no extension.
pub open spec fn no_ext(p: Seq<char>) -> bool {
    spec_extension(p) is None
}

/// The file name of a path, or the empty text when it has none.
pub open spec fn name(p: Seq<char>) -> Seq<char> {
    match spec_file_name(p) {
        Some(n) => n,
        None => Seq::empty(),
    }
}

/// Whether the bytes are UTF-8 text that holds `word`.
pub open spec fn text_has(bytes: Seq<u8>, word: Seq<char>) -> bool {
    valid_utf8(bytes) && contains_seq(decode_utf8(bytes), word)
}

/// Whether the bytes are UTF-8 text whose first line is a `#!` line naming `word`.
pub open spec fn shebang_names(bytes: Seq<u8>, word: Seq<char>) -> bool {
    valid_utf8(bytes) && lines(decode_utf8(bytes)).len() > 0 && starts_with(lines(decode_utf8(bytes))[0], "#!"@)
        && contains_seq(lines(decode_utf8(bytes))[0], word)
}

pub open spec fn spec_looks_like_cpp_or_objective_c(bytes: Seq<u8>) -> bool {
    text_has(bytes, "@interface"@) || text_has(bytes, "@protocol"@) || text_has(bytes, "namespace "@)
        || text_has(bytes, "template <"@) || text_has(bytes, "class "@)
}

pub open spec fn spec_looks_like_cpp(bytes: Seq<u8>) -> bool {
    text_has(bytes, "namespace "@) || text_has(bytes, "template <"@) || text_has(bytes, "class "@)
}

pub open spec fn spec_looks_like_objective_c(bytes: Seq<u8>) -> bool {
    text_has(bytes, "@interface"@) || text_has(bytes, "@implementation"@) || text_has(bytes, "@protocol"@)
}

pub open spec fn is_cpp_ext(e: Seq<char>) -> bool {
    e == "cc"@ || e == "cpp"@ || e == "cxx"@ || e == "c++"@ || e == "hh"@ || e == "hpp"@ || e == "hxx"@
        || e == "h++"@ || e == "ipp"@
}

pub open spec fn is_ts_ext(e: Seq<char>) -> bool {
    e == "ts"@ || e == "tsx"@ || e == "mts"@ || e == "cts"@
}

pub open spec fn is_js_ext(e: Seq<char>) -> bool {
    e == "js"@ || e == "jsx"@ || e == "mjs"@ || e == "cjs"@
}

pub open spec fn spec_path_might_be_c(p: Seq<char>) -> bool {
    ext(p) == "c"@ || ext(p) == "h"@ || no_ext(p)
}

pub open spec fn spec_detect_c(p: Seq<char>, bytes: Seq<u8>) -> bool {
    ext(p) == "c"@ || (ext(p) == "h"@ && !spec_looks_like_cpp_or_objective_c(bytes))
}

pub open spec fn spec_path_might_be_cpp(p: Seq<char>) -> bool {
    is_cpp_ext(ext(p)) || ext(p) == "h"@ || no_ext(p)
}

pub open spec fn spec_detect_cpp(p: Seq<char>, bytes: Seq<u8>) -> bool {
    is_cpp_ext(ext(p)) || (ext(p) == "h"@ && spec_looks_like_cpp(bytes))
}

pub open spec fn spec_path_might_be_go(p: Seq<char>) -> bool {
    spec_extension(p) == Some("go"@) || no_ext(p)
}

pub open spec fn spec_detect_go(p: Seq<char>) -> bool {
    spec_extension(p) == Some("go"@)
}

pub open spec fn spec_path_might_be_java(p: Seq<char>) -> bool {
    spec_extension(p) == Some("java"@) || no_ext(p)
}

pub open spec fn spec_detect_java(p: Seq<char>) -> bool {
    spec_extension(p) == Some("java"@)
}

pub open spec fn spec_path_might_be_json(p: Seq<char>) -> bool {
    ext(p) == "json"@ || ext(p) == "webmanifest"@ || no_ext(p)
}

pub open spec fn spec_detect_json(p: Seq<char>, bytes: Seq<u8>) -> bool {
    ext(p) == "json"@ || ext(p) == "webmanifest"@ || ((name(p) == "package-lock.json"@ || name(p)
        == "tsconfig"@) && valid_utf8(bytes) && starts_with(trim_start(decode_utf8(bytes)), "{"@))
}

pub open spec fn spec_path_might_be_objective_c(p: Seq<char>) -> bool {
    ext(p) == "m"@ || ext(p) == "mm"@ || ext(p) == "h"@ || no_ext(p)
}

pub open spec fn spec_detect_objective_c(p: Seq<char>, bytes: Seq<u8>) -> bool {
    ext(p) == "m"@ || ext(p) == "mm"@ || (ext(p) == "h"@ && spec_looks_like_objective_c(bytes))
}

pub open spec fn is_scons(n: Seq<char>) -> bool {
    n == "SConstruct"@ || n == "SConscript"@
}

pub open spec fn spec_path_might_be_python(p: Seq<char>) -> bool {
    ext(p) == "py"@ || ext(p) == "pyw"@ || is_scons(name(p)) || no_ext(p)
}

pub open spec fn spec_detect_python(p: Seq<char>, bytes: Seq<u8>) -> bool {
    ext(p) == "py"@ || ext(p) == "pyw"@ || is_scons(name(p)) || shebang_names(bytes, "python"@)
}

pub open spec fn spec_path_might_be_rust(p: Seq<char>) -> bool {
    spec_extension(p) == Some("rs"@) || no_ext(p)
}

pub open spec fn spec_detect_rust(p: Seq<char>, bytes: Seq<u8>) -> bool {
    spec_extension(p) == Some("rs"@) || shebang_names(bytes, "rust-script"@)
}

pub open spec fn is_node_config(n: Seq<char>) -> bool {
    n == "package.json"@ || n == "vite.config.js"@ || n == "vite.config.ts"@
}

pub open spec fn spec_path_might_be_typescript(p: Seq<char>) -> bool {
    is_ts_ext(ext(p)) || is_js_ext(ext(p)) || is_node_config(name(p)) || no_ext(p)
}

pub open spec fn spec_detect_typescript(p: Seq<char>, bytes: Seq<u8>) -> bool {
    is_ts_ext(ext(p)) || is_js_ext(ext(p)) || is_node_config(name(p)) || shebang_names(bytes, "node"@)
}

pub open spec fn spec_path_might_be_javascript(p: Seq<char>) -> bool {
    is_js_ext(ext(p)) || no_ext(p)
}

pub open spec fn spec_detect_javascript(p: Seq<char>) -> bool {
    is_js_ext(ext(p))
}

/// The extension of a path, or nothing.
fn ext_chars(path: &str) -> (r: Vec<char>)
    ensures
        r@ == ext(path@),
{
    match extension_of(&chars_of(path)) {
        Some(e) => e,
        None => Vec::new(),
    }
}

fn has_no_ext(path: &str) -> (r: bool)
    ensures
        r == no_ext(path@),
{
    extension_of(&chars_of(path)).is_none()
}

fn name_chars(path: &str) -> (r: Vec<char>)
    ensures
        r@ == name(path@),
{
    match file_name_of(&chars_of(path)) {
        Some(n) => n,
        None => Vec::new(),
    }
}

fn ext_is(path: &str, e: &str) -> (r: bool)
    ensures
        r == (spec_extension(path@) == Some(e@)),
{
    match extension_of(&chars_of(path)) {
        Some(x) => text_is(&x, e),
        None => false,
    }
}

fn decoded(bytes: &[u8]) -> (r: Option<Vec<char>>)
    ensures
        match r {
            Some(v) => valid_utf8(bytes@) && v@ == decode_utf8(bytes@),
            None => !valid_utf8(bytes@),
        },
{
    match str_from_utf8(bytes) {
        Some(s) => Some(chars_of(s.as_str())),
        None => None,
    }
}

fn shebang(bytes: &[u8], word: &str) -> (r: bool)
    ensures
        r == shebang_names(bytes@, word@),
{
    match decoded(bytes) {
        Some(text) => {
            let ls = lines_of(&text);
            if ls.len() == 0 {
                false
            } else {
                assert(ls.deep_view()[0] =~= ls[0]@);
                starts_with_str(&ls[0], "#!") && contains_str(&ls[0], word)
            }
        },
        None => false,
    }
}

fn looks_like_cpp_or_objective_c(bytes: &[u8]) -> (r: bool)
    ensures
        r == spec_looks_like_cpp_or_objective_c(bytes@),
{
    match decoded(bytes) {
        Some(t) => contains_str(&t, "@interface") || contains_str(&t, "@protocol") || contains_str(&t, "namespace ")
            || contains_str(&t, "template <") || contains_str(&t, "class "),
        None => false,
    }
}

fn looks_like_cpp(bytes: &[u8]) -> (r: bool)
    ensures
        r == spec_looks_like_cpp(bytes@),
{
    match decoded(bytes) {
        Some(t) => contains_str(&t, "namespace ") || contains_str(&t, "template <") || contains_str(&t, "class "),
        None => false,
    }
}

fn looks_like_objective_c(bytes: &[u8]) -> (r: bool)
    ensures
        r == spec_looks_like_objective_c(bytes@),
{
    match decoded(bytes) {
        Some(t) => contains_str(&t, "@interface") || contains_str(&t, "@implementation") || contains_str(&t, "@protocol"),
        None => false,
    }
}

fn cpp_ext(e: &[char]) -> (r: bool)
    ensures
        r == is_cpp_ext(e@),
{
    text_is(e, "cc") || text_is(e, "cpp") || text_is(e, "cxx") || text_is(e, "c++") || text_is(e, "hh")
        || text_is(e, "hpp") || text_is(e, "hxx") || text_is(e, "h++") || text_is(e, "ipp")
}

fn ts_ext(e: &[char]) -> (r: bool)
    ensures
        r == is_ts_ext(e@),
{
    text_is(e, "ts") || text_is(e, "tsx") || text_is(e, "mts") || text_is(e, "cts")
}

fn js_ext(e: &[char]) -> (r: bool)
    ensures
        r == is_js_ext(e@),
{
    text_is(e, "js") || text_is(e, "jsx") || text_is(e, "mjs") || text_is(e, "cjs")
}

/// Whether a path may hold C: a `.c` or `.h` file, or a file without extension.
pub fn path_might_be_c(path: &str) -> (r: bool)
    ensures
        r == spec_path_might_be_c(path@),
{
    let e = ext_chars(path);
    text_is(&e, "c") || text_is(&e, "h") || has_no_ext(path)
}

/// Whether a file is C: a `.c` file, or a header that shows no C++ or
/// Objective-C construct.
pub fn detect_c(path: &str, bytes: &[u8]) -> (r: bool)
    ensures
        r == spec_detect_c(path@, bytes@),
{
    let e = ext_chars(path);
    if text_is(&e, "c") {
        true
    } else if text_is(&e, "h") {
        !looks_like_cpp_or_objective_c(bytes)
    } else {
        false
    }
}

/// Whether a path may hold C++.
pub fn path_might_be_cpp(path: &str) -> (r: bool)
    ensures
        r == spec_path_might_be_cpp(path@),
{
    let e = ext_chars(path);
    cpp_ext(&e) || text_is(&e, "h") || has_no_ext(path)
}

/// Whether a file is C++: a C++ extension, or a header that shows a namespace,
/// a template or a class.
pub fn detect_cpp(path: &str, bytes: &[u8]) -> (r: bool)
    ensures
        r == spec_detect_cpp(path@, bytes@),
{
    let e = ext_chars(path);
    if cpp_ext(&e) {
        return true;
    }
    text_is(&e, "h") && looks_like_cpp(bytes)
}

/// Whether a path may hold Go.
pub fn path_might_be_go(path: &str) -> (r: bool)
    ensures
        r == spec_path_might_be_go(path@),
{
    ext_is(path, "go") || has_no_ext(path)
}

/// Whether a file is Go: a `.go` file.
pub fn detect_go(path: &str, bytes: &[u8]) -> (r: bool)
    ensures
        r == spec_detect_go(path@),
{
    ext_is(path, "go")
}

/// Whether a path may hold Java.
pub fn path_might_be_java(path: &str) -> (r: bool)
    ensures
        r == spec_path_might_be_java(path@),
{
    ext_is(path, "java") || has_no_ext(path)
}

/// Whether a file is Java: a `.java` file.
pub fn detect_java(path: &str, bytes: &[u8]) -> (r: bool)
    ensures
        r == spec_detect_java(path@),
{
    ext_is(path, "java")
}

/// Whether a path may hold JSON.
pub fn path_might_be_json(path: &str) -> (r: bool)
    ensures
        r == spec_path_might_be_json(path@),
{
    let e = ext_chars(path);
    text_is(&e, "json") || text_is(&e, "webmanifest") || has_no_ext(path)
}

/// Whether a file is JSON: a `.json` or `.webmanifest` file, or a lock file or
/// `tsconfig` whose text opens with `{`.
pub fn detect_json(path: &str, bytes: &[u8]) -> (r: bool)
    ensures
        r == spec_detect_json(path@, bytes@),
{
    let e = ext_chars(path);
    if text_is(&e, "json") || text_is(&e, "webmanifest") {
        return true;
    }
    let n = name_chars(path);
    if text_is(&n, "package-lock.json") || text_is(&n, "tsconfig") {
        match decoded(bytes) {
            Some(t) => starts_with_str(&trimmed_start(&t), "{"),
            None => false,
        }
    } else {
        false
    }
}

/// Whether a path may hold Objective-C.
pub fn path_might_be_objective_c(path: &str) -> (r: bool)
    ensures
        r == spec_path_might_be_objective_c(path@),
{
    let e = ext_chars(path);
    text_is(&e, "m") || text_is(&e, "mm") || text_is(&e, "h") || has_no_ext(path)
}

/// Whether a file is Objective-C: a `.m` or `.mm` file, or a header that shows an
/// interface, implementation or protocol.
pub fn detect_objective_c(path: &str, bytes: &[u8]) -> (r: bool)
    ensures
        r == spec_detect_objective_c(path@, bytes@),
{
    let e = ext_chars(path);
    if text_is(&e, "m") || text_is(&e, "mm") {
        return true;
    }
    text_is(&e, "h") && looks_like_objective_c(bytes)
}

/// Whether a path may hold Python.
pub fn path_might_be_python(path: &str) -> (r: bool)
    ensures
        r == spec_path_might_be_python(path@),
{
    let e = ext_chars(path);
    if text_is(&e, "py") || text_is(&e, "pyw") {
        return true;
    }
    let n = name_chars(path);
    text_is(&n, "SConstruct") || text_is(&n, "SConscript") || has_no_ext(path)
}

/// Whether a file is Python: a `.py` or `.pyw` file, an SCons file, or a script
/// whose `#!` line names python.
pub fn detect_python(path: &str, bytes: &[u8]) -> (r: bool)
    ensures
        r == spec_detect_python(path@, bytes@),
{
    let e = ext_chars(path);
    if text_is(&e, "py") || text_is(&e, "pyw") {
        return true;
    }
    let n = name_chars(path);
    if text_is(&n, "SConstruct") || text_is(&n, "SConscript") {
        return true;
    }
    shebang(bytes, "python")
}

/// Whether a path may hold Rust.
pub fn path_might_be_rust(path: &str) -> (r: bool)
    ensures
        r == spec_path_might_be_rust(path@),
{
    ext_is(path, "rs") || has_no_ext(path)
}

/// Whether a file is Rust: a `.rs` file, or a script whose `#!` line names
/// rust-script.
pub fn detect_rust(path: &str, bytes: &[u8]) -> (r: bool)
    ensures
        r == spec_detect_rust(path@, bytes@),
{
    if ext_is(path, "rs") {
        return true;
    }
    shebang(bytes, "rust-script")
}

/// Whether a path may hold TypeScript or JavaScript.
pub fn path_might_be_typescript(path: &str) -> (r: bool)
    ensures
        r == spec_path_might_be_typescript(path@),
{
    let e = ext_chars(path);
    if ts_ext(&e) || js_ext(&e) {
        return true;
    }
    let n = name_chars(path);
    text_is(&n, "package.json") || text_is(&n, "vite.config.js") || text_is(&n, "vite.config.ts")
        || has_no_ext(path)
}

/// Whether a file is TypeScript or JavaScript: by extension, by a Node
/// configuration name, or by a `#!` line naming node.
pub fn detect_typescript(path: &str, bytes: &[u8]) -> (r: bool)
    ensures
        r == spec_detect_typescript(path@, bytes@),
{
    let e = ext_chars(path);
    if ts_ext(&e) || js_ext(&e) {
        return true;
    }
    let n = name_chars(path);
    if text_is(&n, "package.json") || text_is(&n, "vite.config.js") || text_is(&n, "vite.config.ts") {
        return true;
    }
    shebang(bytes, "node")
}

/// Whether a path may hold JavaScript.
pub fn path_might_be_javascript(path: &str) -> (r: bool)
    ensures
        r == spec_path_might_be_javascript(path@),
{
    let e = ext_chars(path);
    js_ext(&e) || has_no_ext(path)
}

/// Whether a file is JavaScript: by its extension.
pub fn detect_javascript(path: &str, bytes: &[u8]) -> (r: bool)
    ensures
        r == spec_detect_javascript(path@),
{
    let e = ext_chars(path);
    js_ext(&e)
}

} // verus!
