use aci::language::Language;
use aci::ids::RepositoryId;
use aci::paths::normalize_path;
use aci::quality::{prefer_fact, Confidence, FactProvenance};

#[test]
fn ids_are_deterministic() {
    let left = RepositoryId::new("repo", &["/tmp/project"]);
    let right = RepositoryId::new("repo", &["/tmp/project"]);
    assert_eq!(left, right);
}

#[test]
fn conflict_resolution_prefers_higher_quality_facts() {
    assert!(prefer_fact(
        (FactProvenance::TreeSitter, Confidence::High),
        (FactProvenance::Scip, Confidence::Exact)
    ));
    assert!(!prefer_fact(
        (FactProvenance::Compiler, Confidence::High),
        (FactProvenance::Lsp, Confidence::Exact)
    ));
}

#[test]
fn path_normalization_uses_forward_slashes() {
    assert_eq!(normalize_path("./src/lib.rs"), "src/lib.rs");
}

#[test]
fn fact_quality_defaults_to_scanner_with_medium_confidence() {
    assert_eq!(FactProvenance::default(), FactProvenance::StructuralScanner);
    assert_eq!(Confidence::default(), Confidence::Medium);
    assert!(prefer_fact(
        (FactProvenance::default(), Confidence::default()),
        (FactProvenance::TreeSitter, Confidence::Low)
    ));
}

#[test]
fn ids_are_a_prefix_a_colon_and_lowercase_hex() {
    let id = RepositoryId::new("repo", &["/tmp/project"]);
    let text = id.as_str();
    assert_eq!(text.len(), "repo".len() + 25);
    assert!(text.starts_with("repo:"));
    assert!(text["repo:".len()..].chars().all(|c| c.is_ascii_digit() || ('a'..='f').contains(&c)));
    assert!(id == RepositoryId::new("repo", &["/tmp/project"]));
}

#[test]
fn language_keys_are_distinct_lowercase_words() {
    let all = [
        Language::C,
        Language::Cpp,
        Language::Go,
        Language::JavaScript,
        Language::Json,
        Language::Java,
        Language::ObjectiveC,
        Language::TypeScript,
        Language::Python,
        Language::Rust,
        Language::Unknown,
    ];
    for (i, a) in all.iter().enumerate() {
        assert!(a.as_str().chars().all(|c| c.is_ascii_lowercase() || c == '-'));
        for b in &all[i + 1..] {
            assert_ne!(a.as_str(), b.as_str());
        }
    }
    assert_eq!(Language::ObjectiveC.as_str(), "objective-c");
}
