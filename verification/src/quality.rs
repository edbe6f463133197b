use vstd::prelude::*;

verus! {

/// Source system that produced a graph fact.
#[derive(Clone, Copy, Debug, PartialEq, Eq, Structural, Hash)]
pub enum FactProvenance {
    StructuralScanner,
    TreeSitter,
    Scip,
    Lsp,
    Compiler,
    Manual,
}

/// Confidence assigned to a graph fact.
#[derive(Clone, Copy, Debug, PartialEq, Eq, Structural, Hash)]
pub enum Confidence {
    Low,
    Medium,
    High,
    Exact,
}

/// Relative authority of each provenance when duplicate facts are merged.
pub open spec fn provenance_rank(provenance: FactProvenance) -> u8 {
    match provenance {
        FactProvenance::StructuralScanner => 1,
        FactProvenance::TreeSitter => 2,
        FactProvenance::Lsp => 3,
        FactProvenance::Scip => 4,
        FactProvenance::Compiler => 5,
        FactProvenance::Manual => 6,
    }
}

/// Weight of each confidence level.
pub open spec fn confidence_weight(confidence: Confidence) -> u16 {
    match confidence {
        Confidence::Low => 1,
        Confidence::Medium => 2,
        Confidence::High => 3,
        Confidence::Exact => 4,
    }
}

/// The merge score of a fact: provenance dominates, confidence breaks ties.
pub open spec fn spec_fact_score(fact: (FactProvenance, Confidence)) -> int {
    provenance_rank(fact.0) * 10 + confidence_weight(fact.1)
}

/// Whether `candidate` should replace `existing`.
pub open spec fn spec_prefer(
    existing: (FactProvenance, Confidence),
    candidate: (FactProvenance, Confidence),
) -> bool {
    spec_fact_score(candidate) > spec_fact_score(existing)
}

impl FactProvenance {
    /// Relative authority used when merging duplicate facts.
    pub fn rank(self) -> (r: u8)
        ensures
            r == provenance_rank(self),
    {
        match self {
            FactProvenance::StructuralScanner => 1,
            FactProvenance::TreeSitter => 2,
            FactProvenance::Lsp => 3,
            FactProvenance::Scip => 4,
            FactProvenance::Compiler => 5,
            FactProvenance::Manual => 6,
        }
    }
}

impl Default for FactProvenance {
    /// A fact comes from the structural scanner unless something else is said.
    fn default() -> (r: FactProvenance)
        ensures
            r == FactProvenance::StructuralScanner,
    {
        FactProvenance::StructuralScanner
    }
}

impl Default for Confidence {
    /// A fact has medium confidence unless something else is said.
    fn default() -> (r: Confidence)
        ensures
            r == Confidence::Medium,
    {
        Confidence::Medium
    }
}

fn fact_score(provenance: FactProvenance, confidence: Confidence) -> (r: u16)
    ensures
        r == spec_fact_score((provenance, confidence)),
{
    let confidence_score: u16 = match confidence {
        Confidence::Low => 1,
        Confidence::Medium => 2,
        Confidence::High => 3,
        Confidence::Exact => 4,
    };
    (provenance.rank() as u16) * 10 + confidence_score
}

/// Returns true when `candidate` should replace `existing`.
pub fn prefer_fact(
    existing: (FactProvenance, Confidence),
    candidate: (FactProvenance, Confidence),
) -> (r: bool)
    ensures
        r == spec_prefer(existing, candidate),
{
    let existing_score = fact_score(existing.0, existing.1);
    let candidate_score = fact_score(candidate.0, candidate.1);
    candidate_score > existing_score
}

/// Preference is a strict order on fact qualities: a fact never replaces itself.
pub proof fn prefer_fact_is_irreflexive(fact: (FactProvenance, Confidence))
    ensures
        !spec_prefer(fact, fact),
{
}

/// Preference is a strict order: two facts never each replace the other.
pub proof fn prefer_fact_is_asymmetric(
    a: (FactProvenance, Confidence),
    b: (FactProvenance, Confidence),
)
    ensures
        !(spec_prefer(a, b) && spec_prefer(b, a)),
{
}

/// Preference is a strict order: it is transitive.
pub proof fn prefer_fact_is_transitive(
    a: (FactProvenance, Confidence),
    b: (FactProvenance, Confidence),
    c: (FactProvenance, Confidence),
)
    requires
        spec_prefer(a, b),
        spec_prefer(b, c),
    ensures
        spec_prefer(a, c),
{
}

/// A fact from a more authoritative source always wins, whatever the confidences.
pub proof fn prefer_fact_provenance_dominates(
    existing: (FactProvenance, Confidence),
    candidate: (FactProvenance, Confidence),
)
    requires
        provenance_rank(candidate.0) > provenance_rank(existing.0),
    ensures
        spec_prefer(existing, candidate),
{
}

/// Between facts of equal authority the one with higher confidence wins.
pub proof fn prefer_fact_confidence_breaks_ties(
    existing: (FactProvenance, Confidence),
    candidate: (FactProvenance, Confidence),
)
    requires
        provenance_rank(candidate.0) == provenance_rank(existing.0),
    ensures
        spec_prefer(existing, candidate) <==> confidence_weight(candidate.1) > confidence_weight(
            existing.1,
        ),
{
}

} // verus!
