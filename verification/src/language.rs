use vstd::prelude::*;

verus! {

/// Source language detected for a file.
#[derive(Clone, Copy, Debug, PartialEq, Eq, Structural, Hash)]
pub enum Language {
    C,
    Cpp,
    Go,
    JavaScript,
    Json,
    Java,
    ObjectiveC,
    TypeScript,
    Python,
    Rust,
    Unknown,
}

/// The stable lowercase key of each language.
pub open spec fn language_key(language: Language) -> Seq<char> {
    match language {
        Language::C => "c"@,
        Language::Cpp => "cpp"@,
        Language::Go => "go"@,
        Language::JavaScript => "javascript"@,
        Language::Json => "json"@,
        Language::Java => "java"@,
        Language::ObjectiveC => "objective-c"@,
        Language::TypeScript => "typescript"@,
        Language::Python => "python"@,
        Language::Rust => "rust"@,
        Language::Unknown => "unknown"@,
    }
}

impl Language {
    /// Returns the stable lowercase key for this language.
    pub fn as_str(self) -> (r: &'static str)
        ensures
            r@ == language_key(self),
    {
        match self {
            Language::C => "c",
            Language::Cpp => "cpp",
            Language::Go => "go",
            Language::JavaScript => "javascript",
            Language::Json => "json",
            Language::Java => "java",
            Language::ObjectiveC => "objective-c",
            Language::TypeScript => "typescript",
            Language::Python => "python",
            Language::Rust => "rust",
            Language::Unknown => "unknown",
        }
    }
}

/// Whether every character of `s` is a lowercase ASCII letter or a hyphen.
pub open spec fn is_lowercase_key(s: Seq<char>) -> bool {
    forall|i: int| 0 <= i < s.len() ==> ('a' <= #[trigger] s[i] && s[i] <= 'z') || s[i] == '-'
}

/// Distinct languages have distinct keys, and every key is lowercase ASCII.
pub proof fn language_keys_are_distinct_and_lowercase(a: Language, b: Language)
    ensures
        language_key(a) == language_key(b) <==> a == b,
        is_lowercase_key(language_key(a)),
{
    reveal_strlit("c");
    reveal_strlit("cpp");
    reveal_strlit("go");
    reveal_strlit("javascript");
    reveal_strlit("json");
    reveal_strlit("java");
    reveal_strlit("objective-c");
    reveal_strlit("typescript");
    reveal_strlit("python");
    reveal_strlit("rust");
    reveal_strlit("unknown");
    if a != b && language_key(a) == language_key(b) {
        assert(language_key(a).len() == language_key(b).len());
        assert(language_key(a)[0] == language_key(b)[0]);
        assert(language_key(a).len() > 1 ==> language_key(a)[1] == language_key(b)[1]);
        assert(language_key(a).len() > 2 ==> language_key(a)[2] == language_key(b)[2]);
    }
}

} // verus!
