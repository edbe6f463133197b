use crate::diff_report::{
    change_label, changed_symbol_views, dependency_views, diagnostic_views, file_views,
    spec_change_label, AgentDiffReport, DependencyChange, DependencyChangeView, DiffDiagnostic,
    DiffDiagnosticView,
    AgentDiffStats, AgentReviewFocus, AgentTopChange, ChangeKind, ChangedSymbol,
    ChangedSymbolView, DiffReport, FileChange, FileChangeView, RefSummary, RiskLevel,
    SymbolSummaryView,
};
use crate::order::{seq_lt, set_add, set_insert, strictly_sorted, string_views};
use crate::text::{
    chars_of, concat, contains_seq, decimal, decimal_of, ends_with, find_str, first_occurrence,
    string_from,
};
use vstd::prelude::*;

verus! {

/// Whether a path holds tests.
pub open spec fn spec_is_test_path(p: Seq<char>) -> bool {
    contains_seq(p, "/tests/"@) || ends_with(p, "_test.rs"@) || ends_with(p, "_test.ts"@)
        || ends_with(p, "_test.py"@) || ends_with(p, ".test.ts"@) || ends_with(p, ".spec.ts"@)
}

/// Whether a path holds tests.
pub fn is_test_path(path: &str) -> (r: bool)
    ensures
        r == spec_is_test_path(path@),
{
    let p = chars_of(path);
    crate::text::contains_str(&p, "/tests/") || crate::text::ends_with_str(&p, "_test.rs")
        || crate::text::ends_with_str(&p, "_test.ts") || crate::text::ends_with_str(&p, "_test.py")
        || crate::text::ends_with_str(&p, ".test.ts") || crate::text::ends_with_str(&p, ".spec.ts")
}

pub open spec fn spec_risk_score(risk: RiskLevel) -> u32 {
    match risk {
        RiskLevel::High => 20,
        RiskLevel::Medium => 10,
        RiskLevel::Low => 1,
    }
}

fn risk_score(risk: RiskLevel) -> (r: u32)
    ensures
        r == spec_risk_score(risk),
{
    match risk {
        RiskLevel::High => 20,
        RiskLevel::Medium => 10,
        RiskLevel::Low => 1,
    }
}

/// The riskier of two levels, the left one on a tie.
pub open spec fn spec_max_risk(left: RiskLevel, right: RiskLevel) -> RiskLevel {
    if spec_risk_score(right) > spec_risk_score(left) {
        right
    } else {
        left
    }
}

fn max_risk(left: RiskLevel, right: RiskLevel) -> (r: RiskLevel)
    ensures
        r == spec_max_risk(left, right),
{
    if risk_score(right) > risk_score(left) {
        right
    } else {
        left
    }
}

pub open spec fn spec_symbol_score(s: ChangedSymbolView) -> u32 {
    (spec_risk_score(s.risk) + (if s.public_api { 10u32 } else { 0u32 }) + match s.change {
        ChangeKind::Removed => 8u32,
        ChangeKind::Added => 5u32,
        ChangeKind::Modified | ChangeKind::TypeChanged => 3u32,
        ChangeKind::Renamed | ChangeKind::Copied => 2u32,
    }) as u32
}

fn symbol_score(s: &ChangedSymbol) -> (r: u32)
    ensures
        r == spec_symbol_score(s@),
        r <= 38,
{
    let public: u32 = if s.public_api { 10 } else { 0 };
    let change: u32 = match s.change {
        ChangeKind::Removed => 8,
        ChangeKind::Added => 5,
        ChangeKind::Modified | ChangeKind::TypeChanged => 3,
        ChangeKind::Renamed | ChangeKind::Copied => 2,
    };
    risk_score(s.risk) + public + change
}

pub open spec fn spec_file_score(f: FileChangeView) -> u32 {
    match f.change {
        ChangeKind::Removed => 12,
        ChangeKind::Added | ChangeKind::Renamed => 8,
        ChangeKind::TypeChanged => 6,
        ChangeKind::Modified | ChangeKind::Copied => 2,
    }
}

fn file_score(f: &FileChange) -> (r: u32)
    ensures
        r == spec_file_score(f@),
        r <= 12,
{
    match f.change {
        ChangeKind::Removed => 12,
        ChangeKind::Added | ChangeKind::Renamed => 8,
        ChangeKind::TypeChanged => 6,
        ChangeKind::Modified | ChangeKind::Copied => 2,
    }
}

/// Why a symbol change matters.
pub open spec fn spec_symbol_reason(s: ChangedSymbolView) -> Seq<char> {
    if s.public_api {
        "public API changed"@
    } else {
        match s.change {
            ChangeKind::Removed => "symbol removed"@,
            ChangeKind::Added => "new symbol added"@,
            ChangeKind::Modified | ChangeKind::TypeChanged => "symbol behavior or shape changed"@,
            ChangeKind::Renamed => "symbol renamed"@,
            ChangeKind::Copied => "symbol copied"@,
        }
    }
}

fn symbol_reason(s: &ChangedSymbol) -> (r: String)
    ensures
        r@ == spec_symbol_reason(s@),
{
    if s.public_api {
        return String::from_str("public API changed");
    }
    match s.change {
        ChangeKind::Removed => String::from_str("symbol removed"),
        ChangeKind::Added => String::from_str("new symbol added"),
        ChangeKind::Modified | ChangeKind::TypeChanged => String::from_str("symbol behavior or shape changed"),
        ChangeKind::Renamed => String::from_str("symbol renamed"),
        ChangeKind::Copied => String::from_str("symbol copied"),
    }
}

/// Why a file change matters.
pub open spec fn spec_file_reason(f: FileChangeView) -> Seq<char> {
    if f.change == ChangeKind::Renamed && f.old_path is Some {
        "file renamed from "@ + f.old_path->0
    } else if f.change == ChangeKind::Removed {
        "file removed"@
    } else if f.change == ChangeKind::Added {
        "new file added"@
    } else if spec_is_test_path(f.path) {
        "test coverage changed"@
    } else {
        "file changed"@
    }
}

fn file_reason(f: &FileChange) -> (r: String)
    ensures
        r@ == spec_file_reason(f@),
{
    if f.change == ChangeKind::Renamed {
        if let Some(old) = &f.old_path {
            return string_from(&concat(&chars_of("file renamed from "), &chars_of(old.as_str())));
        }
    }
    if f.change == ChangeKind::Removed {
        String::from_str("file removed")
    } else if f.change == ChangeKind::Added {
        String::from_str("new file added")
    } else if is_test_path(f.path.as_str()) {
        String::from_str("test coverage changed")
    } else {
        String::from_str("file changed")
    }
}

/// How risky a file change is: tests are low, removals high, the rest medium.
pub open spec fn spec_file_risk(f: FileChangeView) -> RiskLevel {
    if spec_is_test_path(f.path) {
        RiskLevel::Low
    } else if f.change == ChangeKind::Removed {
        RiskLevel::High
    } else {
        RiskLevel::Medium
    }
}

fn file_risk(f: &FileChange) -> (r: RiskLevel)
    ensures
        r == spec_file_risk(f@),
{
    if is_test_path(f.path.as_str()) {
        RiskLevel::Low
    } else if f.change == ChangeKind::Removed {
        RiskLevel::High
    } else {
        RiskLevel::Medium
    }
}

/// The side a symbol change is shown by: after, else before.
pub open spec fn shown_side(s: ChangedSymbolView) -> Option<SymbolSummaryView> {
    match s.after {
        Some(a) => Some(a),
        None => s.before,
    }
}

/// The name a symbol change is shown under: qualified, else plain, else nothing.
pub open spec fn spec_symbol_name(s: ChangedSymbolView) -> Seq<char> {
    match shown_side(s) {
        Some(x) => match x.qualified_name {
            Some(q) => q,
            None => x.name,
        },
        None => Seq::empty(),
    }
}

fn symbol_name(s: &ChangedSymbol) -> (r: String)
    ensures
        r@ == spec_symbol_name(s@),
{
    let side = match &s.after {
        Some(a) => Some(a),
        None => match &s.before {
            Some(b) => Some(b),
            None => None,
        },
    };
    match side {
        Some(x) => match &x.qualified_name {
            Some(q) => q.clone(),
            None => x.name.clone(),
        },
        None => String::new(),
    }
}

/// The file a symbol change is in.
pub open spec fn spec_symbol_path(s: ChangedSymbolView) -> Option<Seq<char>> {
    match shown_side(s) {
        Some(x) => Some(x.file),
        None => None,
    }
}

fn symbol_path(s: &ChangedSymbol) -> (r: Option<String>)
    ensures
        match r {
            Some(p) => spec_symbol_path(s@) == Some(p@),
            None => spec_symbol_path(s@) is None,
        },
{
    match &s.after {
        Some(a) => Some(a.file.clone()),
        None => match &s.before {
            Some(b) => Some(b.file.clone()),
            None => None,
        },
    }
}

/// The texts of `s` joined by `sep`.
pub open spec fn join(s: Seq<Seq<char>>, sep: Seq<char>) -> Seq<char>
    decreases s.len(),
{
    if s.len() == 0 {
        Seq::empty()
    } else if s.len() == 1 {
        s[0]
    } else {
        join(s.drop_last(), sep) + sep + s.last()
    }
}

fn join_exec(v: &Vec<String>, sep: &str) -> (r: String)
    ensures
        r@ == join(string_views(v@), sep@),
{
    let ghost sv = string_views(v@);
    let mut out: Vec<char> = Vec::new();
    let mut i: usize = 0;
    assert(sv.take(0) =~= Seq::<Seq<char>>::empty());
    while i < v.len()
        invariant
            i <= v.len(),
            sv == string_views(v@),
            out@ == join(sv.take(i as int), sep@),
        decreases v.len() - i,
    {
        assert(sv.take(i + 1).drop_last() =~= sv.take(i as int));
        assert(sv.take(i + 1).last() == v@[i as int]@);
        if i > 0 {
            out = concat(&out, &chars_of(sep));
        }
        out = concat(&out, &chars_of(v[i].as_str()));
        if i == 0 {
            assert(out@ =~= sv.take(1)[0]);
        }
        i += 1;
    }
    assert(sv.take(v.len() as int) =~= sv);
    string_from(&out)
}

/// The pieces of `s` between the separators `sep`, left to right.
#[verifier::opaque]
pub open spec fn split_by(s: Seq<char>, sep: Seq<char>) -> Seq<Seq<char>>
    decreases s.len(),
{
    if sep.len() == 0 {
        seq![s]
    } else {
        match first_occurrence(s, sep) {
            Some(k) => if 0 <= k && k + sep.len() <= s.len() {
                seq![s.take(k)] + split_by(s.skip(k + sep.len()), sep)
            } else {
                seq![s]
            },
            None => seq![s],
        }
    }
}

/// The first symbol of a set, with how many more there are.
pub open spec fn spec_symbol_summary(symbols: Seq<Seq<char>>) -> Option<Seq<char>> {
    if symbols.len() == 0 {
        None
    } else if symbols.len() == 1 {
        Some(symbols[0])
    } else {
        Some(symbols[0] + " (+"@ + decimal((symbols.len() - 1) as nat) + " more)"@)
    }
}

fn symbol_summary(symbols: &Vec<String>) -> (r: Option<String>)
    ensures
        match r {
            Some(x) => spec_symbol_summary(string_views(symbols@)) == Some(x@),
            None => spec_symbol_summary(string_views(symbols@)) is None,
        },
{
    let n = symbols.len();
    if n == 0 {
        None
    } else if n == 1 {
        Some(symbols[0].clone())
    } else {
        let a = concat(&chars_of(symbols[0].as_str()), &chars_of(" (+"));
        let b = concat(&a, &decimal_of((n - 1) as u64));
        Some(string_from(&concat(&b, &chars_of(" more)"))))
    }
}

/// What the agent summary gathers about one path.
pub struct PathSignal {
    pub path: String,
    pub score: u128,
    pub kind: String,
    pub risk: RiskLevel,
    pub symbols: Vec<String>,
    pub reasons: Vec<String>,
}

/// What a path signal holds, as plain values.
pub struct SignalView {
    pub path: Seq<char>,
    pub score: u128,
    pub kind: Seq<char>,
    pub risk: RiskLevel,
    pub symbols: Seq<Seq<char>>,
    pub reasons: Seq<Seq<char>>,
}

impl View for PathSignal {
    type V = SignalView;

    open spec fn view(&self) -> SignalView {
        SignalView {
            path: self.path@,
            score: self.score,
            kind: self.kind@,
            risk: self.risk,
            symbols: string_views(self.symbols@),
            reasons: string_views(self.reasons@),
        }
    }
}

pub open spec fn signal_views(v: Seq<PathSignal>) -> Seq<SignalView> {
    v.map_values(|s: PathSignal| s@)
}

/// The position of the path `p` among the signals, if it is there.
pub open spec fn signal_index(m: Seq<SignalView>, p: Seq<char>) -> Option<int>
    decreases m.len(),
{
    if m.len() == 0 {
        None
    } else if m[0].path == p {
        Some(0)
    } else {
        match signal_index(m.drop_first(), p) {
            Some(k) => Some(k + 1),
            None => None,
        }
    }
}

/// The signal a path starts with.
pub open spec fn default_signal(p: Seq<char>) -> SignalView {
    SignalView {
        path: p,
        score: 0,
        kind: "changed-file"@,
        risk: RiskLevel::Low,
        symbols: Seq::empty(),
        reasons: Seq::empty(),
    }
}

/// The signals with an entry for `p`, added at the end when missing.
pub open spec fn with_entry(m: Seq<SignalView>, p: Seq<char>) -> Seq<SignalView> {
    if signal_index(m, p) is Some {
        m
    } else {
        m.push(default_signal(p))
    }
}

/// Where the entry for `p` is once there is one.
pub open spec fn entry_index(m: Seq<SignalView>, p: Seq<char>) -> int {
    match signal_index(m, p) {
        Some(k) => k,
        None => m.len() as int,
    }
}

/// Every signal's sets are sorted and its score is at most `bound`.
pub open spec fn signals_ok(m: Seq<SignalView>, bound: int) -> bool {
    forall|k: int|
        0 <= k < m.len() ==> strictly_sorted((#[trigger] m[k]).symbols) && strictly_sorted(m[k].reasons)
            && m[k].score <= bound
}

proof fn lemma_signal_index(m: Seq<SignalView>, p: Seq<char>)
    ensures
        match signal_index(m, p) {
            Some(k) => 0 <= k < m.len() && m[k].path == p,
            None => forall|j: int| 0 <= j < m.len() ==> m[j].path != p,
        },
    decreases m.len(),
{
    if m.len() > 0 && m[0].path != p {
        lemma_signal_index(m.drop_first(), p);
        assert forall|j: int| 0 < j < m.len() implies m[j].path == m.drop_first()[j - 1].path by {}
    }
}

fn entry(m: &mut Vec<PathSignal>, path: &String, Ghost(bound): Ghost<int>) -> (r: usize)
    requires
        signals_ok(signal_views(old(m)@), bound),
        bound >= 0,
    ensures
        signal_views(final(m)@) == with_entry(signal_views(old(m)@), path@),
        r == entry_index(signal_views(old(m)@), path@),
        r < final(m)@.len(),
        signals_ok(signal_views(final(m)@), bound),
{
    let ghost mv = signal_views(m@);
    proof {
        lemma_signal_index(mv, path@);
    }
    let mut k: usize = 0;
    while k < m.len()
        invariant
            k <= m.len(),
            mv == signal_views(m@),
            signals_ok(mv, bound),
            forall|j: int| 0 <= j < k ==> mv[j].path != path@,
            match signal_index(mv, path@) {
                Some(x) => 0 <= x < mv.len() && mv[x].path == path@,
                None => forall|j: int| 0 <= j < mv.len() ==> mv[j].path != path@,
            },
        decreases m.len() - k,
    {
        assert(mv[k as int] == m@[k as int]@);
        if m[k].path == *path {
            proof {
                lemma_first_index(mv, path@, k as int);
            }
            return k;
        }
        k += 1;
    }
    let d = PathSignal {
        path: path.clone(),
        score: 0,
        kind: String::from_str("changed-file"),
        risk: RiskLevel::Low,
        symbols: Vec::new(),
        reasons: Vec::new(),
    };
    let ghost before = m@;
    m.push(d);
    proof {
        assert(string_views(Seq::<String>::empty()) =~= Seq::<Seq<char>>::empty());
        assert(d@ == default_signal(path@));
        assert(signal_views(m@) =~= signal_views(before).push(d@));
        if signal_index(mv, path@) is Some {
            let x = signal_index(mv, path@)->0;
            assert(mv[x].path != path@);
        }
    }
    k
}

proof fn lemma_first_index(m: Seq<SignalView>, p: Seq<char>, k: int)
    requires
        0 <= k < m.len(),
        m[k].path == p,
        forall|j: int| 0 <= j < k ==> m[j].path != p,
    ensures
        signal_index(m, p) == Some(k),
    decreases k,
{
    if k > 0 {
        lemma_first_index(m.drop_first(), p, k - 1);
    }
}

/// A signal with more score and at least the given risk.
pub open spec fn bump(s: SignalView, add: u32, risk: RiskLevel) -> SignalView {
    SignalView { score: (s.score + add) as u128, risk: spec_max_risk(s.risk, risk), ..s }
}

/// The signals after a changed file: its score and risk, its kind, its reason.
pub open spec fn file_step(m: Seq<SignalView>, f: FileChangeView) -> Seq<SignalView> {
    let m1 = with_entry(m, f.path);
    let i = entry_index(m, f.path);
    let s = m1[i];
    m1.update(i, SignalView {
        kind: spec_change_label(f.change) + "-file"@,
        reasons: set_insert(s.reasons, spec_file_reason(f)),
        ..bump(s, spec_file_score(f), spec_file_risk(f))
    })
}

/// The signals after an important symbol change in a known file.
pub open spec fn symbol_step(m: Seq<SignalView>, sym: ChangedSymbolView) -> Seq<SignalView> {
    match spec_symbol_path(sym) {
        None => m,
        Some(p) => {
            let m1 = with_entry(m, p);
            let i = entry_index(m, p);
            let s = m1[i];
            m1.update(i, SignalView {
                symbols: set_insert(s.symbols, spec_symbol_name(sym)),
                reasons: set_insert(s.reasons, spec_symbol_reason(sym)),
                ..bump(s, spec_symbol_score(sym), sym.risk)
            })
        },
    }
}

/// The signals after a dependency change.
pub open spec fn dependency_step(m: Seq<SignalView>, d: DependencyChangeView) -> Seq<SignalView> {
    let m1 = with_entry(m, d.file);
    let i = entry_index(m, d.file);
    let s = m1[i];
    m1.update(i, SignalView {
        kind: spec_change_label(d.change) + "-dependency"@,
        reasons: set_insert(s.reasons, "dependency surface changed"@),
        ..bump(s, 8, RiskLevel::Medium)
    })
}

/// The signals after a diagnostic: only a path already signalled is raised.
pub open spec fn diagnostic_step(m: Seq<SignalView>, d: DiffDiagnosticView) -> Seq<SignalView> {
    match d.file {
        Some(p) => match signal_index(m, p) {
            Some(i) => {
                let s = m[i];
                m.update(i, SignalView {
                    reasons: set_insert(s.reasons, "changed file has parser or indexing diagnostics"@),
                    ..bump(s, 6, RiskLevel::Medium)
                })
            },
            None => m,
        },
        None => m,
    }
}

pub open spec fn fold_files(m: Seq<SignalView>, v: Seq<FileChangeView>) -> Seq<SignalView>
    decreases v.len(),
{
    if v.len() == 0 {
        m
    } else {
        file_step(fold_files(m, v.drop_last()), v.last())
    }
}

pub open spec fn fold_symbols(m: Seq<SignalView>, v: Seq<ChangedSymbolView>) -> Seq<SignalView>
    decreases v.len(),
{
    if v.len() == 0 {
        m
    } else {
        symbol_step(fold_symbols(m, v.drop_last()), v.last())
    }
}

pub open spec fn fold_dependencies(m: Seq<SignalView>, v: Seq<DependencyChangeView>) -> Seq<SignalView>
    decreases v.len(),
{
    if v.len() == 0 {
        m
    } else {
        dependency_step(fold_dependencies(m, v.drop_last()), v.last())
    }
}

pub open spec fn fold_diagnostics(m: Seq<SignalView>, v: Seq<DiffDiagnosticView>) -> Seq<SignalView>
    decreases v.len(),
{
    if v.len() == 0 {
        m
    } else {
        diagnostic_step(fold_diagnostics(m, v.drop_last()), v.last())
    }
}

fn labelled(label: &str, suffix: &str) -> (r: String)
    ensures
        r@ == label@ + suffix@,
{
    string_from(&concat(&chars_of(label), &chars_of(suffix)))
}

proof fn lemma_sets_kept(m: Seq<SignalView>, i: int, s: SignalView, bound: int)
    requires
        signals_ok(m, bound),
        0 <= i < m.len(),
        strictly_sorted(s.symbols),
        strictly_sorted(s.reasons),
        s.score <= bound,
    ensures
        signals_ok(m.update(i, s), bound),
{
    assert forall|k: int| 0 <= k < m.update(i, s).len() implies strictly_sorted((#[trigger] m.update(i, s)[k]).symbols)
        && strictly_sorted(m.update(i, s)[k].reasons) && m.update(i, s)[k].score <= bound by {
        if k != i {
            assert(m.update(i, s)[k] == m[k]);
        }
    }
}

proof fn lemma_bound_grows(m: Seq<SignalView>, a: int, b: int)
    requires
        signals_ok(m, a),
        a <= b,
    ensures
        signals_ok(m, b),
{
    assert forall|k: int| 0 <= k < m.len() implies strictly_sorted((#[trigger] m[k]).symbols)
        && strictly_sorted(m[k].reasons) && m[k].score <= b by {
        assert(m[k].score <= a);
    }
}

fn file_step_exec(m: &mut Vec<PathSignal>, f: &FileChange, Ghost(bound): Ghost<int>)
    requires
        signals_ok(signal_views(old(m)@), bound),
        0 <= bound,
        bound + 38 <= u128::MAX,
    ensures
        signal_views(final(m)@) == file_step(signal_views(old(m)@), f@),
        signals_ok(signal_views(final(m)@), bound + 38),
{
    let ghost mv = signal_views(m@);
    let i = entry(m, &f.path, Ghost(bound));
    let ghost m1 = signal_views(m@);
    assert(m1[i as int] == m@[i as int]@);
    assert(m1[i as int].score <= bound && strictly_sorted(m1[i as int].reasons) && strictly_sorted(m1[i as int].symbols));
    let mut s = m.remove(i);
    let ghost removed = m@;
    s.score = s.score + file_score(f) as u128;
    s.risk = max_risk(s.risk, file_risk(f));
    s.kind = labelled(change_label(f.change), "-file");
    set_add(&mut s.reasons, file_reason(f));
    m.insert(i, s);
    proof {
        assert(m@ =~= m1_exec_update(removed, i as int, s));
        assert(signal_views(m@) =~= m1.update(i as int, s@));
        lemma_bound_grows(m1, bound, bound + 38);
        lemma_sets_kept(m1, i as int, s@, bound + 38);
    }
}

spec fn m1_exec_update(removed: Seq<PathSignal>, i: int, s: PathSignal) -> Seq<PathSignal> {
    removed.insert(i, s)
}

fn symbol_step_exec(m: &mut Vec<PathSignal>, sym: &ChangedSymbol, Ghost(bound): Ghost<int>)
    requires
        signals_ok(signal_views(old(m)@), bound),
        0 <= bound,
        bound + 38 <= u128::MAX,
    ensures
        signal_views(final(m)@) == symbol_step(signal_views(old(m)@), sym@),
        signals_ok(signal_views(final(m)@), bound + 38),
{
    let ghost mv = signal_views(m@);
    let path = match symbol_path(sym) {
        Some(p) => p,
        None => {
            proof {
                lemma_bound_grows(mv, bound, bound + 38);
            }
            return;
        },
    };
    let i = entry(m, &path, Ghost(bound));
    let ghost m1 = signal_views(m@);
    assert(m1[i as int] == m@[i as int]@);
    assert(m1[i as int].score <= bound && strictly_sorted(m1[i as int].reasons) && strictly_sorted(m1[i as int].symbols));
    let mut s = m.remove(i);
    let ghost removed = m@;
    s.score = s.score + symbol_score(sym) as u128;
    s.risk = max_risk(s.risk, sym.risk);
    set_add(&mut s.symbols, symbol_name(sym));
    set_add(&mut s.reasons, symbol_reason(sym));
    m.insert(i, s);
    proof {
        assert(m@ =~= m1_exec_update(removed, i as int, s));
        assert(signal_views(m@) =~= m1.update(i as int, s@));
        lemma_bound_grows(m1, bound, bound + 38);
        lemma_sets_kept(m1, i as int, s@, bound + 38);
    }
}

fn dependency_step_exec(m: &mut Vec<PathSignal>, d: &DependencyChange, Ghost(bound): Ghost<int>)
    requires
        signals_ok(signal_views(old(m)@), bound),
        0 <= bound,
        bound + 38 <= u128::MAX,
    ensures
        signal_views(final(m)@) == dependency_step(signal_views(old(m)@), d@),
        signals_ok(signal_views(final(m)@), bound + 38),
{
    let i = entry(m, &d.file, Ghost(bound));
    let ghost m1 = signal_views(m@);
    assert(m1[i as int] == m@[i as int]@);
    assert(m1[i as int].score <= bound && strictly_sorted(m1[i as int].reasons) && strictly_sorted(m1[i as int].symbols));
    let mut s = m.remove(i);
    let ghost removed = m@;
    s.score = s.score + 8;
    s.risk = max_risk(s.risk, RiskLevel::Medium);
    s.kind = labelled(change_label(d.change), "-dependency");
    set_add(&mut s.reasons, String::from_str("dependency surface changed"));
    m.insert(i, s);
    proof {
        assert(m@ =~= m1_exec_update(removed, i as int, s));
        assert(signal_views(m@) =~= m1.update(i as int, s@));
        lemma_bound_grows(m1, bound, bound + 38);
        lemma_sets_kept(m1, i as int, s@, bound + 38);
    }
}

fn find_signal(m: &Vec<PathSignal>, path: &String) -> (r: Option<usize>)
    ensures
        match r {
            Some(i) => signal_index(signal_views(m@), path@) == Some(i as int),
            None => signal_index(signal_views(m@), path@) is None,
        },
{
    let ghost mv = signal_views(m@);
    proof {
        lemma_signal_index(mv, path@);
    }
    let mut k: usize = 0;
    while k < m.len()
        invariant
            k <= m.len(),
            mv == signal_views(m@),
            forall|j: int| 0 <= j < k ==> mv[j].path != path@,
            match signal_index(mv, path@) {
                Some(x) => 0 <= x < mv.len() && mv[x].path == path@,
                None => forall|j: int| 0 <= j < mv.len() ==> mv[j].path != path@,
            },
        decreases m.len() - k,
    {
        assert(mv[k as int] == m@[k as int]@);
        if m[k].path == *path {
            proof {
                lemma_first_index(mv, path@, k as int);
            }
            return Some(k);
        }
        k += 1;
    }
    proof {
        if signal_index(mv, path@) is Some {
            let x = signal_index(mv, path@)->0;
            assert(mv[x].path != path@);
        }
    }
    None
}

fn diagnostic_step_exec(m: &mut Vec<PathSignal>, d: &DiffDiagnostic, Ghost(bound): Ghost<int>)
    requires
        signals_ok(signal_views(old(m)@), bound),
        0 <= bound,
        bound + 38 <= u128::MAX,
    ensures
        signal_views(final(m)@) == diagnostic_step(signal_views(old(m)@), d@),
        signals_ok(signal_views(final(m)@), bound + 38),
{
    let ghost m1 = signal_views(m@);
    proof {
        lemma_bound_grows(m1, bound, bound + 38);
    }
    let path = match &d.file {
        Some(p) => p,
        None => return,
    };
    let i = match find_signal(m, path) {
        Some(i) => i,
        None => return,
    };
    proof {
        lemma_signal_index(m1, path@);
    }
    assert(m1[i as int] == m@[i as int]@);
    assert(m1[i as int].score <= bound && strictly_sorted(m1[i as int].reasons) && strictly_sorted(m1[i as int].symbols));
    let mut s = m.remove(i);
    let ghost removed = m@;
    s.score = s.score + 6;
    s.risk = max_risk(s.risk, RiskLevel::Medium);
    set_add(&mut s.reasons, String::from_str("changed file has parser or indexing diagnostics"));
    m.insert(i, s);
    proof {
        assert(m@ =~= m1_exec_update(removed, i as int, s));
        assert(signal_views(m@) =~= m1.update(i as int, s@));
        lemma_sets_kept(m1, i as int, s@, bound + 38);
    }
}

/// Whether a symbol change is important: public API, risky, added or removed.
pub open spec fn is_important(s: ChangedSymbolView) -> bool {
    s.public_api || s.risk != RiskLevel::Low || s.change == ChangeKind::Added || s.change
        == ChangeKind::Removed
}

pub open spec fn important_filter(v: Seq<ChangedSymbolView>) -> Seq<ChangedSymbolView>
    decreases v.len(),
{
    if v.len() == 0 {
        Seq::empty()
    } else {
        important_filter(v.drop_last()) + if is_important(v.last()) {
            seq![v.last()]
        } else {
            Seq::empty()
        }
    }
}

/// Whether symbol change `a` ranks before `b`: higher score, then name.
pub open spec fn symbol_ranks_before(a: ChangedSymbolView, b: ChangedSymbolView) -> bool {
    spec_symbol_score(a) > spec_symbol_score(b) || (spec_symbol_score(a) == spec_symbol_score(b)
        && seq_lt(spec_symbol_name(a), spec_symbol_name(b)))
}

pub open spec fn symbol_insert_point(s: Seq<ChangedSymbolView>, x: ChangedSymbolView) -> nat
    decreases s.len(),
{
    if s.len() == 0 {
        0
    } else if !symbol_ranks_before(x, s[0]) {
        1 + symbol_insert_point(s.drop_first(), x)
    } else {
        0
    }
}

/// The symbol changes sorted stably by rank.
pub open spec fn sort_symbols(s: Seq<ChangedSymbolView>) -> Seq<ChangedSymbolView>
    decreases s.len(),
{
    if s.len() == 0 {
        Seq::empty()
    } else {
        let sorted = sort_symbols(s.drop_last());
        sorted.insert(symbol_insert_point(sorted, s.last()) as int, s.last())
    }
}

/// The order `symbol_ranks_before` as a relation.
pub open spec fn symbol_order() -> spec_fn(ChangedSymbolView, ChangedSymbolView) -> bool {
    |a: ChangedSymbolView, b: ChangedSymbolView| symbol_ranks_before(a, b)
}

proof fn lemma_symbol_order_is_strict()
    ensures
        crate::order::strict_order_by(symbol_order()),
{
    assert forall|a: ChangedSymbolView, b: ChangedSymbolView, c: ChangedSymbolView| #[trigger] symbol_order()(a, b) && #[trigger] symbol_order()(b, c) implies symbol_order()(a, c) by {
        if spec_symbol_score(a) == spec_symbol_score(b) && spec_symbol_score(b) == spec_symbol_score(c) {
            crate::order::seq_lt_transitive(spec_symbol_name(a), spec_symbol_name(b), spec_symbol_name(c));
        }
    }
    assert forall|a: ChangedSymbolView| !#[trigger] symbol_order()(a, a) by {
        crate::order::seq_lt_irreflexive(spec_symbol_name(a));
    }
}

proof fn lemma_symbol_insert_point_by(s: Seq<ChangedSymbolView>, x: ChangedSymbolView)
    ensures
        symbol_insert_point(s, x) == crate::order::insert_point_by(s, x, symbol_order()),
    decreases s.len(),
{
    if s.len() > 0 {
        lemma_symbol_insert_point_by(s.drop_first(), x);
    }
}

proof fn lemma_sort_symbols_by(s: Seq<ChangedSymbolView>)
    ensures
        sort_symbols(s) == crate::order::insertion_sort_by(s, symbol_order()),
    decreases s.len(),
{
    if s.len() > 0 {
        lemma_sort_symbols_by(s.drop_last());
        lemma_symbol_insert_point_by(sort_symbols(s.drop_last()), s.last());
    }
}

/// Ranking the symbol changes puts no change after one it ranks before, and
/// keeps every change, each as often as it came.
pub proof fn ranked_symbols_are_sorted(s: Seq<ChangedSymbolView>)
    ensures
        forall|i: int, j: int| 0 <= i < j < sort_symbols(s).len() ==> !symbol_ranks_before(#[trigger] sort_symbols(s)[j], #[trigger] sort_symbols(s)[i]),
        sort_symbols(s).to_multiset() == s.to_multiset(),
{
    lemma_symbol_order_is_strict();
    lemma_sort_symbols_by(s);
    crate::order::lemma_insertion_sort_by(s, symbol_order());
    let r = sort_symbols(s);
    assert forall|i: int, j: int| 0 <= i < j < r.len() implies !symbol_ranks_before(#[trigger] r[j], #[trigger] r[i]) by {
        assert(!symbol_order()(r[j], r[i]));
    }
}

/// The important symbol changes, most important first.
pub open spec fn spec_important_symbols(v: Seq<ChangedSymbolView>) -> Seq<ChangedSymbolView> {
    sort_symbols(important_filter(v))
}

pub open spec fn pick(v: Seq<ChangedSymbolView>, idx: Seq<usize>) -> Seq<ChangedSymbolView> {
    idx.map_values(|i: usize| v[i as int])
}

fn symbol_ranks_before_exec(a: &ChangedSymbol, b: &ChangedSymbol) -> (r: bool)
    ensures
        r == symbol_ranks_before(a@, b@),
{
    let sa = symbol_score(a);
    let sb = symbol_score(b);
    if sa > sb {
        return true;
    }
    if sa < sb {
        return false;
    }
    crate::order::str_lt(symbol_name(a).as_str(), symbol_name(b).as_str())
}

fn important_symbols(symbols: &Vec<ChangedSymbol>) -> (r: Vec<usize>)
    ensures
        pick(changed_symbol_views(symbols@), r@) == spec_important_symbols(changed_symbol_views(symbols@)),
        forall|j: int| 0 <= j < r@.len() ==> r@[j] < symbols@.len(),
        r@.len() <= symbols@.len(),
{
    let ghost v = changed_symbol_views(symbols@);
    let mut sorted: Vec<usize> = Vec::new();
    let ghost mut filtered: Seq<ChangedSymbolView> = Seq::empty();
    let mut i: usize = 0;
    assert(v.take(0) =~= Seq::<ChangedSymbolView>::empty());
    while i < symbols.len()
        invariant
            i <= symbols.len(),
            v == changed_symbol_views(symbols@),
            filtered == important_filter(v.take(i as int)),
            pick(v, sorted@) == sort_symbols(filtered),
            forall|j: int| 0 <= j < sorted@.len() ==> sorted@[j] < i,
            sorted@.len() <= i,
        decreases symbols.len() - i,
    {
        assert(v.take(i + 1).drop_last() =~= v.take(i as int));
        assert(v.take(i + 1).last() == symbols@[i as int]@);
        let sym = &symbols[i];
        if sym.public_api || sym.risk != RiskLevel::Low || sym.change == ChangeKind::Added || sym.change == ChangeKind::Removed {
            let ghost ps = pick(v, sorted@);
            let mut p: usize = 0;
            assert(ps.skip(0) =~= ps);
            while p < sorted.len() && !symbol_ranks_before_exec(sym, &symbols[sorted[p]])
                invariant
                    p <= sorted@.len(),
                    ps == pick(v, sorted@),
                    v == changed_symbol_views(symbols@),
                    i < symbols@.len(),
                    v[i as int] == sym@,
                    forall|j: int| 0 <= j < sorted@.len() ==> sorted@[j] < i,
                    symbol_insert_point(ps, v[i as int]) == p + symbol_insert_point(ps.skip(p as int), v[i as int]),
                decreases sorted@.len() - p,
            {
                assert(ps.skip(p as int)[0] == v[sorted@[p as int] as int]);
                assert(v[sorted@[p as int] as int] == symbols@[sorted@[p as int] as int]@);
                assert(ps.skip(p as int).drop_first() =~= ps.skip(p + 1));
                p += 1;
            }
            if p < sorted.len() {
                assert(ps.skip(p as int)[0] == v[sorted@[p as int] as int]);
                assert(v[sorted@[p as int] as int] == symbols@[sorted@[p as int] as int]@);
            }
            assert(symbol_insert_point(ps, v[i as int]) == p);
            let ghost before = sorted@;
            sorted.insert(p, i);
            proof {
                assert(pick(v, sorted@) =~= ps.insert(p as int, v[i as int]));
                filtered = filtered + seq![v[i as int]];
                assert(important_filter(v.take(i + 1)) == filtered);
                assert(filtered.drop_last() =~= important_filter(v.take(i as int)));
            }
        } else {
            proof {
                assert(important_filter(v.take(i + 1)) =~= filtered);
            }
        }
        i += 1;
    }
    assert(v.take(symbols.len() as int) =~= v);
    sorted
}

/// Whether signal `a` ranks before `b`: higher score, then path.
pub open spec fn signal_ranks_before(a: SignalView, b: SignalView) -> bool {
    a.score > b.score || (a.score == b.score && seq_lt(a.path, b.path))
}

pub open spec fn signal_insert_point(s: Seq<SignalView>, x: SignalView) -> nat
    decreases s.len(),
{
    if s.len() == 0 {
        0
    } else if !signal_ranks_before(x, s[0]) {
        1 + signal_insert_point(s.drop_first(), x)
    } else {
        0
    }
}

/// The signals sorted stably by rank.
pub open spec fn sort_signals(s: Seq<SignalView>) -> Seq<SignalView>
    decreases s.len(),
{
    if s.len() == 0 {
        Seq::empty()
    } else {
        let sorted = sort_signals(s.drop_last());
        sorted.insert(signal_insert_point(sorted, s.last()) as int, s.last())
    }
}

/// The order `signal_ranks_before` as a relation.
pub open spec fn signal_order() -> spec_fn(SignalView, SignalView) -> bool {
    |a: SignalView, b: SignalView| signal_ranks_before(a, b)
}

proof fn lemma_signal_order_is_strict()
    ensures
        crate::order::strict_order_by(signal_order()),
{
    assert forall|a: SignalView, b: SignalView, c: SignalView| #[trigger] signal_order()(a, b) && #[trigger] signal_order()(b, c) implies signal_order()(a, c) by {
        if a.score == b.score && b.score == c.score {
            crate::order::seq_lt_transitive(a.path, b.path, c.path);
        }
    }
    assert forall|a: SignalView| !#[trigger] signal_order()(a, a) by {
        crate::order::seq_lt_irreflexive(a.path);
    }
}

proof fn lemma_signal_insert_point_by(s: Seq<SignalView>, x: SignalView)
    ensures
        signal_insert_point(s, x) == crate::order::insert_point_by(s, x, signal_order()),
    decreases s.len(),
{
    if s.len() > 0 {
        lemma_signal_insert_point_by(s.drop_first(), x);
    }
}

proof fn lemma_sort_signals_by(s: Seq<SignalView>)
    ensures
        sort_signals(s) == crate::order::insertion_sort_by(s, signal_order()),
    decreases s.len(),
{
    if s.len() > 0 {
        lemma_sort_signals_by(s.drop_last());
        lemma_signal_insert_point_by(sort_signals(s.drop_last()), s.last());
    }
}

/// Ranking the signals puts no signal after one it ranks before, and keeps every
/// signal, each as often as it came.
pub proof fn ranked_signals_are_sorted(s: Seq<SignalView>)
    ensures
        forall|i: int, j: int| 0 <= i < j < sort_signals(s).len() ==> !signal_ranks_before(#[trigger] sort_signals(s)[j], #[trigger] sort_signals(s)[i]),
        sort_signals(s).to_multiset() == s.to_multiset(),
{
    lemma_signal_order_is_strict();
    lemma_sort_signals_by(s);
    crate::order::lemma_insertion_sort_by(s, signal_order());
    let r = sort_signals(s);
    assert forall|i: int, j: int| 0 <= i < j < r.len() implies !signal_ranks_before(#[trigger] r[j], #[trigger] r[i]) by {
        assert(!signal_order()(r[j], r[i]));
    }
}

fn rank_signals(m: Vec<PathSignal>) -> (r: Vec<PathSignal>)
    ensures
        signal_views(r@) == sort_signals(signal_views(m@)),
{
    let ghost cv = signal_views(m@);
    let mut rest = m;
    let mut sorted: Vec<PathSignal> = Vec::new();
    let ghost mut k: int = 0;
    assert(cv.take(0) =~= Seq::<SignalView>::empty());
    assert(cv.skip(0) =~= cv);
    while rest.len() > 0
        invariant
            0 <= k <= cv.len(),
            signal_views(rest@) == cv.skip(k),
            signal_views(sorted@) == sort_signals(cv.take(k)),
        decreases rest.len(),
    {
        let ghost before_rest = rest@;
        assert(signal_views(before_rest).len() == before_rest.len());
        assert(k < cv.len());
        assert(signal_views(before_rest)[0] == before_rest[0]@);
        let x = rest.remove(0);
        assert(x@ == cv[k]);
        assert(signal_views(rest@) =~= cv.skip(k + 1)) by {
            assert(rest@ =~= before_rest.skip(1));
            assert forall|j: int| 0 <= j < rest@.len() implies signal_views(rest@)[j] == cv.skip(k + 1)[j] by {
                assert(signal_views(before_rest)[j + 1] == before_rest[j + 1]@);
            }
        }
        let ghost sv = signal_views(sorted@);
        let mut p: usize = 0;
        assert(sv.skip(0) =~= sv);
        while p < sorted.len() && !(x.score > sorted[p].score || (x.score == sorted[p].score
            && crate::order::str_lt(x.path.as_str(), sorted[p].path.as_str())))
            invariant
                p <= sorted@.len(),
                sv == signal_views(sorted@),
                signal_insert_point(sv, x@) == p + signal_insert_point(sv.skip(p as int), x@),
            decreases sorted@.len() - p,
        {
            assert(sv.skip(p as int)[0] == sorted@[p as int]@);
            assert(sv.skip(p as int).drop_first() =~= sv.skip(p + 1));
            p += 1;
        }
        if p < sorted.len() {
            assert(sv.skip(p as int)[0] == sorted@[p as int]@);
        }
        let ghost before = sorted@;
        sorted.insert(p, x);
        proof {
            assert(cv.take(k + 1).drop_last() =~= cv.take(k));
            assert(cv.take(k + 1).last() == cv[k]);
            assert(signal_views(sorted@) =~= signal_views(before).insert(p as int, x@));
            k = k + 1;
        }
    }
    assert(cv.take(k) =~= cv);
    sorted
}

/// What a top change holds, as plain values.
pub struct TopChangeView {
    pub kind: Seq<char>,
    pub path: Seq<char>,
    pub symbol: Option<Seq<char>>,
    pub risk: RiskLevel,
    pub why_it_matters: Seq<char>,
}

impl View for AgentTopChange {
    type V = TopChangeView;

    open spec fn view(&self) -> TopChangeView {
        TopChangeView {
            kind: self.kind@,
            path: self.path@,
            symbol: match self.symbol {
                Some(x) => Some(x@),
                None => None,
            },
            risk: self.risk,
            why_it_matters: self.why_it_matters@,
        }
    }
}

pub open spec fn top_change_views(v: Seq<AgentTopChange>) -> Seq<TopChangeView> {
    v.map_values(|t: AgentTopChange| t@)
}

/// The top change a signal becomes.
pub open spec fn top_change_of(s: SignalView) -> TopChangeView {
    TopChangeView {
        kind: s.kind,
        path: s.path,
        symbol: spec_symbol_summary(s.symbols),
        risk: s.risk,
        why_it_matters: join(s.reasons, "; "@),
    }
}

/// The signals of a diff: its files, important symbols, dependencies, then
/// diagnostics of signalled paths.
pub open spec fn spec_signals(
    files: Seq<FileChangeView>,
    important: Seq<ChangedSymbolView>,
    deps: Seq<DependencyChangeView>,
    diags: Seq<DiffDiagnosticView>,
) -> Seq<SignalView> {
    fold_diagnostics(fold_dependencies(fold_symbols(fold_files(Seq::empty(), files), important), deps), diags)
}

pub open spec fn at_most(n: int, k: int) -> int {
    if n <= k {
        n
    } else {
        k
    }
}

/// The eight highest-ranked signals as top changes.
pub open spec fn spec_top_changes(
    files: Seq<FileChangeView>,
    important: Seq<ChangedSymbolView>,
    deps: Seq<DependencyChangeView>,
    diags: Seq<DiffDiagnosticView>,
) -> Seq<TopChangeView> {
    let ranked = sort_signals(spec_signals(files, important, deps, diags));
    ranked.take(at_most(ranked.len() as int, 8)).map_values(|s: SignalView| top_change_of(s))
}

fn top_changes(report: &DiffReport, important: &Vec<usize>) -> (r: Vec<AgentTopChange>)
    requires
        important@.len() <= report.changed_symbols@.len(),
        forall|j: int| 0 <= j < important@.len() ==> important@[j] < report.changed_symbols@.len(),
    ensures
        top_change_views(r@) == spec_top_changes(
            file_views(report.changed_files@),
            pick(changed_symbol_views(report.changed_symbols@), important@),
            dependency_views(report.dependency_changes@),
            diagnostic_views(report.diagnostics@),
        ),
        r@.len() <= 8,
{
    let ghost fv = file_views(report.changed_files@);
    let ghost pv = pick(changed_symbol_views(report.changed_symbols@), important@);
    let ghost dv = dependency_views(report.dependency_changes@);
    let ghost gv = diagnostic_views(report.diagnostics@);
    let nf = report.changed_files.len();
    let ns = important.len();
    let nd = report.dependency_changes.len();
    let mut m: Vec<PathSignal> = Vec::new();
    assert(signal_views(m@) =~= Seq::<SignalView>::empty());
    let mut i: usize = 0;
    assert(fv.take(0) =~= Seq::<FileChangeView>::empty());
    while i < report.changed_files.len()
        invariant
            i <= nf,
            nf == report.changed_files@.len(),
            fv == file_views(report.changed_files@),
            signal_views(m@) == fold_files(Seq::empty(), fv.take(i as int)),
            signals_ok(signal_views(m@), 38 * i),
        decreases nf - i,
    {
        assert(fv.take(i + 1).drop_last() =~= fv.take(i as int));
        assert(fv.take(i + 1).last() == report.changed_files@[i as int]@);
        file_step_exec(&mut m, &report.changed_files[i], Ghost(38 * i as int));
        i += 1;
    }
    assert(fv.take(nf as int) =~= fv);
    let mut j: usize = 0;
    assert(pv.take(0) =~= Seq::<ChangedSymbolView>::empty());
    while j < important.len()
        invariant
            j <= ns,
            ns == important@.len(),
            ns <= report.changed_symbols@.len(),
            nf == report.changed_files@.len(),
            forall|x: int| 0 <= x < important@.len() ==> important@[x] < report.changed_symbols@.len(),
            pv == pick(changed_symbol_views(report.changed_symbols@), important@),
            signal_views(m@) == fold_symbols(fold_files(Seq::empty(), fv), pv.take(j as int)),
            signals_ok(signal_views(m@), 38 * (nf + j)),
        decreases ns - j,
    {
        assert(pv.take(j + 1).drop_last() =~= pv.take(j as int));
        assert(pv.take(j + 1).last() == report.changed_symbols@[important@[j as int] as int]@);
        symbol_step_exec(&mut m, &report.changed_symbols[important[j]], Ghost(38 * (nf + j) as int));
        j += 1;
    }
    assert(pv.take(ns as int) =~= pv);
    let mut k: usize = 0;
    assert(dv.take(0) =~= Seq::<DependencyChangeView>::empty());
    while k < report.dependency_changes.len()
        invariant
            k <= nd,
            nd == report.dependency_changes@.len(),
            ns <= report.changed_symbols@.len(),
            nf == report.changed_files@.len(),
            dv == dependency_views(report.dependency_changes@),
            signal_views(m@) == fold_dependencies(fold_symbols(fold_files(Seq::empty(), fv), pv), dv.take(k as int)),
            signals_ok(signal_views(m@), 38 * (nf + ns + k)),
        decreases nd - k,
    {
        assert(dv.take(k + 1).drop_last() =~= dv.take(k as int));
        assert(dv.take(k + 1).last() == report.dependency_changes@[k as int]@);
        dependency_step_exec(&mut m, &report.dependency_changes[k], Ghost(38 * (nf + ns + k) as int));
        k += 1;
    }
    assert(dv.take(nd as int) =~= dv);
    let ng = report.diagnostics.len();
    let mut g: usize = 0;
    assert(gv.take(0) =~= Seq::<DiffDiagnosticView>::empty());
    while g < report.diagnostics.len()
        invariant
            g <= ng,
            ng == report.diagnostics@.len(),
            nd == report.dependency_changes@.len(),
            ns <= report.changed_symbols@.len(),
            nf == report.changed_files@.len(),
            gv == diagnostic_views(report.diagnostics@),
            signal_views(m@) == fold_diagnostics(fold_dependencies(fold_symbols(fold_files(Seq::empty(), fv), pv), dv), gv.take(g as int)),
            signals_ok(signal_views(m@), 38 * (nf + ns + nd + g)),
        decreases ng - g,
    {
        assert(gv.take(g + 1).drop_last() =~= gv.take(g as int));
        assert(gv.take(g + 1).last() == report.diagnostics@[g as int]@);
        diagnostic_step_exec(&mut m, &report.diagnostics[g], Ghost(38 * (nf + ns + nd + g) as int));
        g += 1;
    }
    assert(gv.take(ng as int) =~= gv);
    let ranked = rank_signals(m);
    let ghost rv = signal_views(ranked@);
    let n = if ranked.len() <= 8 { ranked.len() } else { 8 };
    let mut out: Vec<AgentTopChange> = Vec::new();
    let mut t: usize = 0;
    while t < n
        invariant
            t <= n,
            n <= ranked@.len(),
            n == at_most(rv.len() as int, 8),
            rv == signal_views(ranked@),
            top_change_views(out@) =~= rv.take(t as int).map_values(|s: SignalView| top_change_of(s)),
        decreases n - t,
    {
        let s = &ranked[t];
        assert(rv[t as int] == s@);
        let c = AgentTopChange {
            kind: s.kind.clone(),
            path: s.path.clone(),
            symbol: symbol_summary(&s.symbols),
            risk: s.risk,
            why_it_matters: join_exec(&s.reasons, "; "),
        };
        let ghost before = out@;
        out.push(c);
        proof {
            assert(top_change_views(out@) =~= top_change_views(before).push(c@));
            assert(rv.take(t + 1).map_values(|s: SignalView| top_change_of(s)) =~= rv.take(t as int).map_values(|s: SignalView| top_change_of(s)).push(top_change_of(rv[t as int])));
        }
        t += 1;
    }
    out
}

/// A sorted set with each of `items` added, in order.
pub open spec fn insert_all(set: Seq<Seq<char>>, items: Seq<Seq<char>>) -> Seq<Seq<char>>
    decreases items.len(),
{
    if items.len() == 0 {
        set
    } else {
        set_insert(insert_all(set, items.drop_last()), items.last())
    }
}

/// Whether some changed file has the path `p`.
pub open spec fn path_changed(files: Seq<FileChangeView>, p: Seq<char>) -> bool {
    exists|i: int| 0 <= i < files.len() && files[i].path == p
}

/// The review scores after a top change: its risk and its reasons.
pub open spec fn focus_top_step(m: Seq<SignalView>, t: TopChangeView) -> Seq<SignalView> {
    let m1 = with_entry(m, t.path);
    let i = entry_index(m, t.path);
    let s = m1[i];
    m1.update(i, SignalView {
        score: (s.score + spec_risk_score(t.risk) + 3) as u128,
        reasons: insert_all(s.reasons, split_by(t.why_it_matters, "; "@)),
        ..s
    })
}

/// The review scores after a changed file.
pub open spec fn focus_file_step(m: Seq<SignalView>, f: FileChangeView) -> Seq<SignalView> {
    let m1 = with_entry(m, f.path);
    let i = entry_index(m, f.path);
    let s = m1[i];
    m1.update(i, SignalView {
        score: (s.score + spec_file_score(f)) as u128,
        reasons: set_insert(s.reasons, spec_file_reason(f)),
        ..s
    })
}

/// The review scores after an impacted file: only a changed path counts.
pub open spec fn focus_impact_step(m: Seq<SignalView>, p: Seq<char>, files: Seq<FileChangeView>) -> Seq<SignalView> {
    if path_changed(files, p) {
        let m1 = with_entry(m, p);
        let i = entry_index(m, p);
        let s = m1[i];
        m1.update(i, SignalView {
            score: (s.score + 1) as u128,
            reasons: set_insert(s.reasons, "impacted by changed graph facts"@),
            ..s
        })
    } else {
        m
    }
}

pub open spec fn fold_focus_top(m: Seq<SignalView>, v: Seq<TopChangeView>) -> Seq<SignalView>
    decreases v.len(),
{
    if v.len() == 0 {
        m
    } else {
        focus_top_step(fold_focus_top(m, v.drop_last()), v.last())
    }
}

pub open spec fn fold_focus_files(m: Seq<SignalView>, v: Seq<FileChangeView>) -> Seq<SignalView>
    decreases v.len(),
{
    if v.len() == 0 {
        m
    } else {
        focus_file_step(fold_focus_files(m, v.drop_last()), v.last())
    }
}

pub open spec fn fold_focus_impacts(m: Seq<SignalView>, v: Seq<Seq<char>>, files: Seq<FileChangeView>) -> Seq<SignalView>
    decreases v.len(),
{
    if v.len() == 0 {
        m
    } else {
        focus_impact_step(fold_focus_impacts(m, v.drop_last(), files), v.last(), files)
    }
}

/// What a review focus holds, as plain values.
pub struct FocusView {
    pub path: Seq<char>,
    pub reason: Seq<char>,
}

impl View for AgentReviewFocus {
    type V = FocusView;

    open spec fn view(&self) -> FocusView {
        FocusView { path: self.path@, reason: self.reason@ }
    }
}

pub open spec fn focus_views(v: Seq<AgentReviewFocus>) -> Seq<FocusView> {
    v.map_values(|f: AgentReviewFocus| f@)
}

pub open spec fn focus_of(s: SignalView) -> FocusView {
    FocusView { path: s.path, reason: join(s.reasons, "; "@) }
}

pub open spec fn impacted_paths(v: Seq<crate::diff_report::ImpactedFileView>) -> Seq<Seq<char>> {
    v.map_values(|i: crate::diff_report::ImpactedFileView| i.path)
}

/// The eight files most worth reviewing: scored by the top changes, the changed
/// files and the impacted changed files, then ranked.
pub open spec fn spec_review_focus(
    top: Seq<TopChangeView>,
    files: Seq<FileChangeView>,
    impacted: Seq<Seq<char>>,
) -> Seq<FocusView> {
    let m = fold_focus_impacts(fold_focus_files(fold_focus_top(Seq::empty(), top), files), impacted, files);
    let ranked = sort_signals(m);
    ranked.take(at_most(ranked.len() as int, 8)).map_values(|s: SignalView| focus_of(s))
}

pub open spec fn char_seqs(v: Seq<Vec<char>>) -> Seq<Seq<char>> {
    v.map_values(|x: Vec<char>| x@)
}

proof fn lemma_split_found(s: Seq<char>, sep: Seq<char>, k: int)
    requires
        sep.len() > 0,
        first_occurrence(s, sep) == Some(k),
        0 <= k,
        k + sep.len() <= s.len(),
    ensures
        split_by(s, sep) == seq![s.take(k)] + split_by(s.skip(k + sep.len()), sep),
{
    reveal(split_by);
}

proof fn lemma_split_none(s: Seq<char>, sep: Seq<char>)
    requires
        sep.len() > 0,
        first_occurrence(s, sep) is None,
    ensures
        split_by(s, sep) == seq![s],
{
    reveal(split_by);
}

fn split_exec(s: &[char], sep: &str) -> (r: Vec<Vec<char>>)
    requires
        sep@.len() > 0,
    ensures
        char_seqs(r@) == split_by(s@, sep@),
{
    let mut rest = crate::text::slice(s, 0, s.len());
    assert(s@.subrange(0, s@.len() as int) =~= s@);
    let sep_len = chars_of(sep).len();
    let mut out: Vec<Vec<char>> = Vec::new();
    assert(char_seqs(out@) + split_by(rest@, sep@) =~= split_by(s@, sep@));
    loop
        invariant
            sep@.len() > 0,
            sep_len == sep@.len(),
            char_seqs(out@) + split_by(rest@, sep@) == split_by(s@, sep@),
        decreases rest@.len(),
    {
        match find_str(&rest, sep) {
            Some(k) => {
                let n = rest.len();
                assert(k + sep_len <= n);
                let piece = crate::text::slice(&rest, 0, k);
                let next = crate::text::slice(&rest, k + sep_len, n);
                proof {
                    assert(piece@ =~= rest@.take(k as int));
                    assert(next@ =~= rest@.skip(k + sep@.len()));
                }
                let ghost before = out@;
                out.push(piece);
                proof {
                    assert(char_seqs(out@) =~= char_seqs(before).push(piece@));
                    lemma_split_found(rest@, sep@, k as int);
                    assert(split_by(rest@, sep@) == seq![piece@] + split_by(next@, sep@));
                    assert(char_seqs(out@) + split_by(next@, sep@) =~= char_seqs(before) + (seq![piece@] + split_by(next@, sep@)));
                }
                rest = next;
            },
            None => {
                let ghost before = out@;
                let ghost last = rest@;
                out.push(rest);
                proof {
                    assert(char_seqs(out@) =~= char_seqs(before).push(last));
                    lemma_split_none(last, sep@);
                    assert(char_seqs(out@) =~= char_seqs(before) + split_by(last, sep@));
                }
                return out;
            },
        }
    }
}

fn add_all(set: &mut Vec<String>, items: &Vec<Vec<char>>)
    requires
        strictly_sorted(string_views(old(set)@)),
    ensures
        string_views(final(set)@) == insert_all(string_views(old(set)@), char_seqs(items@)),
        strictly_sorted(string_views(final(set)@)),
{
    let ghost start = string_views(set@);
    let ghost iv = char_seqs(items@);
    let mut j: usize = 0;
    assert(iv.take(0) =~= Seq::<Seq<char>>::empty());
    while j < items.len()
        invariant
            j <= items.len(),
            iv == char_seqs(items@),
            string_views(set@) == insert_all(start, iv.take(j as int)),
            strictly_sorted(string_views(set@)),
        decreases items.len() - j,
    {
        assert(iv.take(j + 1).drop_last() =~= iv.take(j as int));
        assert(iv.take(j + 1).last() == items@[j as int]@);
        set_add(set, string_from(&items[j]));
        j += 1;
    }
    assert(iv.take(items.len() as int) =~= iv);
}

fn focus_top_step_exec(m: &mut Vec<PathSignal>, t: &AgentTopChange, Ghost(bound): Ghost<int>)
    requires
        signals_ok(signal_views(old(m)@), bound),
        0 <= bound,
        bound + 38 <= u128::MAX,
    ensures
        signal_views(final(m)@) == focus_top_step(signal_views(old(m)@), t@),
        signals_ok(signal_views(final(m)@), bound + 38),
{
    let i = entry(m, &t.path, Ghost(bound));
    let ghost m1 = signal_views(m@);
    assert(m1[i as int] == m@[i as int]@);
    assert(m1[i as int].score <= bound && strictly_sorted(m1[i as int].reasons) && strictly_sorted(m1[i as int].symbols));
    let mut s = m.remove(i);
    let ghost removed = m@;
    s.score = s.score + risk_score(t.risk) as u128 + 3;
    proof {
        reveal_strlit("; ");
    }
    let pieces = split_exec(&chars_of(t.why_it_matters.as_str()), "; ");
    add_all(&mut s.reasons, &pieces);
    m.insert(i, s);
    proof {
        assert(m@ =~= m1_exec_update(removed, i as int, s));
        assert(signal_views(m@) =~= m1.update(i as int, s@));
        lemma_bound_grows(m1, bound, bound + 38);
        lemma_sets_kept(m1, i as int, s@, bound + 38);
    }
}

fn focus_file_step_exec(m: &mut Vec<PathSignal>, f: &FileChange, Ghost(bound): Ghost<int>)
    requires
        signals_ok(signal_views(old(m)@), bound),
        0 <= bound,
        bound + 38 <= u128::MAX,
    ensures
        signal_views(final(m)@) == focus_file_step(signal_views(old(m)@), f@),
        signals_ok(signal_views(final(m)@), bound + 38),
{
    let i = entry(m, &f.path, Ghost(bound));
    let ghost m1 = signal_views(m@);
    assert(m1[i as int] == m@[i as int]@);
    assert(m1[i as int].score <= bound && strictly_sorted(m1[i as int].reasons) && strictly_sorted(m1[i as int].symbols));
    let mut s = m.remove(i);
    let ghost removed = m@;
    s.score = s.score + file_score(f) as u128;
    set_add(&mut s.reasons, file_reason(f));
    m.insert(i, s);
    proof {
        assert(m@ =~= m1_exec_update(removed, i as int, s));
        assert(signal_views(m@) =~= m1.update(i as int, s@));
        lemma_bound_grows(m1, bound, bound + 38);
        lemma_sets_kept(m1, i as int, s@, bound + 38);
    }
}

fn is_changed_path(files: &Vec<FileChange>, p: &String) -> (r: bool)
    ensures
        r == path_changed(file_views(files@), p@),
{
    let ghost fv = file_views(files@);
    let mut i: usize = 0;
    while i < files.len()
        invariant
            i <= files.len(),
            fv == file_views(files@),
            forall|j: int| 0 <= j < i ==> fv[j].path != p@,
        decreases files.len() - i,
    {
        assert(fv[i as int] == files@[i as int]@);
        if files[i].path == *p {
            return true;
        }
        i += 1;
    }
    false
}

fn focus_impact_step_exec(m: &mut Vec<PathSignal>, p: &String, files: &Vec<FileChange>, Ghost(bound): Ghost<int>)
    requires
        signals_ok(signal_views(old(m)@), bound),
        0 <= bound,
        bound + 38 <= u128::MAX,
    ensures
        signal_views(final(m)@) == focus_impact_step(signal_views(old(m)@), p@, file_views(files@)),
        signals_ok(signal_views(final(m)@), bound + 38),
{
    let ghost m0 = signal_views(m@);
    if !is_changed_path(files, p) {
        proof {
            lemma_bound_grows(m0, bound, bound + 38);
        }
        return;
    }
    let i = entry(m, p, Ghost(bound));
    let ghost m1 = signal_views(m@);
    assert(m1[i as int] == m@[i as int]@);
    assert(m1[i as int].score <= bound && strictly_sorted(m1[i as int].reasons) && strictly_sorted(m1[i as int].symbols));
    let mut s = m.remove(i);
    let ghost removed = m@;
    s.score = s.score + 1;
    set_add(&mut s.reasons, String::from_str("impacted by changed graph facts"));
    m.insert(i, s);
    proof {
        assert(m@ =~= m1_exec_update(removed, i as int, s));
        assert(signal_views(m@) =~= m1.update(i as int, s@));
        lemma_bound_grows(m1, bound, bound + 38);
        lemma_sets_kept(m1, i as int, s@, bound + 38);
    }
}

fn review_focus(report: &DiffReport, top: &Vec<AgentTopChange>) -> (r: Vec<AgentReviewFocus>)
    requires
        top@.len() <= 8,
    ensures
        focus_views(r@) == spec_review_focus(
            top_change_views(top@),
            file_views(report.changed_files@),
            impacted_paths(crate::diff_report::impacted_views(report.impacted_files@)),
        ),
{
    let ghost tv = top_change_views(top@);
    let ghost fv = file_views(report.changed_files@);
    let ghost iv = impacted_paths(crate::diff_report::impacted_views(report.impacted_files@));
    let nt = top.len();
    let nf = report.changed_files.len();
    let ni = report.impacted_files.len();
    let mut m: Vec<PathSignal> = Vec::new();
    assert(signal_views(m@) =~= Seq::<SignalView>::empty());
    let mut i: usize = 0;
    assert(tv.take(0) =~= Seq::<TopChangeView>::empty());
    while i < top.len()
        invariant
            i <= nt,
            nt == top@.len(),
            nt <= 8,
            tv == top_change_views(top@),
            signal_views(m@) == fold_focus_top(Seq::empty(), tv.take(i as int)),
            signals_ok(signal_views(m@), 38 * i),
        decreases nt - i,
    {
        assert(tv.take(i + 1).drop_last() =~= tv.take(i as int));
        assert(tv.take(i + 1).last() == top@[i as int]@);
        focus_top_step_exec(&mut m, &top[i], Ghost(38 * i as int));
        i += 1;
    }
    assert(tv.take(nt as int) =~= tv);
    let mut j: usize = 0;
    assert(fv.take(0) =~= Seq::<FileChangeView>::empty());
    while j < report.changed_files.len()
        invariant
            j <= nf,
            nf == report.changed_files@.len(),
            nt <= 8,
            fv == file_views(report.changed_files@),
            signal_views(m@) == fold_focus_files(fold_focus_top(Seq::empty(), tv), fv.take(j as int)),
            signals_ok(signal_views(m@), 38 * (nt + j)),
        decreases nf - j,
    {
        assert(fv.take(j + 1).drop_last() =~= fv.take(j as int));
        assert(fv.take(j + 1).last() == report.changed_files@[j as int]@);
        focus_file_step_exec(&mut m, &report.changed_files[j], Ghost(38 * (nt + j) as int));
        j += 1;
    }
    assert(fv.take(nf as int) =~= fv);
    let mut k: usize = 0;
    assert(iv.take(0) =~= Seq::<Seq<char>>::empty());
    while k < report.impacted_files.len()
        invariant
            k <= ni,
            ni == report.impacted_files@.len(),
            nf == report.changed_files@.len(),
            nt <= 8,
            fv == file_views(report.changed_files@),
            iv == impacted_paths(crate::diff_report::impacted_views(report.impacted_files@)),
            signal_views(m@) == fold_focus_impacts(fold_focus_files(fold_focus_top(Seq::empty(), tv), fv), iv.take(k as int), fv),
            signals_ok(signal_views(m@), 38 * (nt + nf + k)),
        decreases ni - k,
    {
        assert(iv.take(k + 1).drop_last() =~= iv.take(k as int));
        assert(iv.take(k + 1).last() == report.impacted_files@[k as int].path@);
        focus_impact_step_exec(&mut m, &report.impacted_files[k].path, &report.changed_files, Ghost(38 * (nt + nf + k) as int));
        k += 1;
    }
    assert(iv.take(ni as int) =~= iv);
    let ranked = rank_signals(m);
    let ghost rv = signal_views(ranked@);
    let n = if ranked.len() <= 8 { ranked.len() } else { 8 };
    let mut out: Vec<AgentReviewFocus> = Vec::new();
    let mut t: usize = 0;
    while t < n
        invariant
            t <= n,
            n <= ranked@.len(),
            n == at_most(rv.len() as int, 8),
            rv == signal_views(ranked@),
            focus_views(out@) =~= rv.take(t as int).map_values(|s: SignalView| focus_of(s)),
        decreases n - t,
    {
        let s = &ranked[t];
        assert(rv[t as int] == s@);
        let c = AgentReviewFocus { path: s.path.clone(), reason: join_exec(&s.reasons, "; ") };
        let ghost before = out@;
        out.push(c);
        proof {
            assert(focus_views(out@) =~= focus_views(before).push(c@));
            assert(rv.take(t + 1).map_values(|s: SignalView| focus_of(s)) =~= rv.take(t as int).map_values(|s: SignalView| focus_of(s)).push(focus_of(rv[t as int])));
        }
        t += 1;
    }
    out
}

/// Whether some changed file holds tests.
pub open spec fn tests_changed_spec(files: Seq<FileChangeView>) -> bool {
    exists|i: int| 0 <= i < files.len() && spec_is_test_path(files[i].path)
}

/// Whether a diagnostic belongs to a changed file.
pub open spec fn is_relevant(d: DiffDiagnosticView, files: Seq<FileChangeView>) -> bool {
    match d.file {
        Some(p) => path_changed(files, p),
        None => false,
    }
}

/// The number of diagnostics of changed files.
pub open spec fn count_relevant(diags: Seq<DiffDiagnosticView>, files: Seq<FileChangeView>) -> nat
    decreases diags.len(),
{
    if diags.len() == 0 {
        0
    } else {
        count_relevant(diags.drop_last(), files) + if is_relevant(diags.last(), files) {
            1nat
        } else {
            0nat
        }
    }
}

/// The risk of the whole diff: high when a public API change is high risk or a
/// non-test file is removed; medium when public API or dependencies change, a
/// changed file has diagnostics, no test changed, or more than eight important
/// symbols changed; low otherwise.
pub open spec fn spec_overall_risk(
    public_changes: Seq<ChangedSymbolView>,
    files: Seq<FileChangeView>,
    dependency_changes: nat,
    relevant: nat,
    tests_changed: bool,
    important: nat,
) -> RiskLevel {
    if (exists|i: int| 0 <= i < public_changes.len() && public_changes[i].risk == RiskLevel::High)
        || (exists|i: int| 0 <= i < files.len() && files[i].change == ChangeKind::Removed && !spec_is_test_path(files[i].path)) {
        RiskLevel::High
    } else if public_changes.len() > 0 || dependency_changes > 0 || relevant > 0 || !tests_changed || important > 8 {
        RiskLevel::Medium
    } else {
        RiskLevel::Low
    }
}

/// The notes for an agent: missing test changes, a broad raw symbol diff, and
/// diagnostics of changed files.
pub open spec fn spec_notes(tests_changed: bool, changed_symbols: nat, public_changes: nat, relevant: nat) -> Seq<Seq<char>> {
    (if !tests_changed {
        seq!["No test files changed; verify existing coverage exercises this diff."@]
    } else {
        Seq::empty()
    }) + (if changed_symbols > public_changes + 20 {
        seq!["Raw symbol diff is broad; prefer top_changes and review_focus for agent triage."@]
    } else {
        Seq::empty()
    }) + (if relevant > 0 {
        seq!["Changed files have parser or indexing diagnostics; inspect diagnostics before trusting impact."@]
    } else {
        Seq::empty()
    })
}

fn tests_changed(files: &Vec<FileChange>) -> (r: bool)
    ensures
        r == tests_changed_spec(file_views(files@)),
{
    let ghost fv = file_views(files@);
    let mut i: usize = 0;
    while i < files.len()
        invariant
            i <= files.len(),
            fv == file_views(files@),
            forall|j: int| 0 <= j < i ==> !spec_is_test_path(fv[j].path),
        decreases files.len() - i,
    {
        assert(fv[i as int] == files@[i as int]@);
        if is_test_path(files[i].path.as_str()) {
            return true;
        }
        i += 1;
    }
    false
}

fn relevant_diagnostics(report: &DiffReport) -> (r: usize)
    ensures
        r == count_relevant(diagnostic_views(report.diagnostics@), file_views(report.changed_files@)),
{
    let ghost gv = diagnostic_views(report.diagnostics@);
    let ghost fv = file_views(report.changed_files@);
    let mut n: usize = 0;
    let mut i: usize = 0;
    assert(gv.take(0) =~= Seq::<DiffDiagnosticView>::empty());
    while i < report.diagnostics.len()
        invariant
            i <= report.diagnostics@.len(),
            gv == diagnostic_views(report.diagnostics@),
            fv == file_views(report.changed_files@),
            n == count_relevant(gv.take(i as int), fv),
            n <= i,
        decreases report.diagnostics@.len() - i,
    {
        assert(gv.take(i + 1).drop_last() =~= gv.take(i as int));
        assert(gv.take(i + 1).last() == report.diagnostics@[i as int]@);
        let hit = match &report.diagnostics[i].file {
            Some(p) => is_changed_path(&report.changed_files, p),
            None => false,
        };
        if hit {
            n += 1;
        }
        i += 1;
    }
    assert(gv.take(report.diagnostics@.len() as int) =~= gv);
    n
}

fn overall_risk(report: &DiffReport, tests: bool, important: usize, relevant: usize) -> (r: RiskLevel)
    ensures
        r == spec_overall_risk(
            changed_symbol_views(report.public_api_changes@),
            file_views(report.changed_files@),
            report.dependency_changes@.len(),
            relevant as nat,
            tests,
            important as nat,
        ),
{
    let ghost pv = changed_symbol_views(report.public_api_changes@);
    let ghost fv = file_views(report.changed_files@);
    let mut i: usize = 0;
    while i < report.public_api_changes.len()
        invariant
            i <= report.public_api_changes@.len(),
            pv == changed_symbol_views(report.public_api_changes@),
            forall|j: int| 0 <= j < i ==> pv[j].risk != RiskLevel::High,
        decreases report.public_api_changes@.len() - i,
    {
        assert(pv[i as int] == report.public_api_changes@[i as int]@);
        if report.public_api_changes[i].risk == RiskLevel::High {
            return RiskLevel::High;
        }
        i += 1;
    }
    let mut j: usize = 0;
    while j < report.changed_files.len()
        invariant
            j <= report.changed_files@.len(),
            fv == file_views(report.changed_files@),
            forall|k: int| 0 <= k < j ==> !(fv[k].change == ChangeKind::Removed && !spec_is_test_path(fv[k].path)),
        decreases report.changed_files@.len() - j,
    {
        assert(fv[j as int] == report.changed_files@[j as int]@);
        if report.changed_files[j].change == ChangeKind::Removed && !is_test_path(report.changed_files[j].path.as_str()) {
            return RiskLevel::High;
        }
        j += 1;
    }
    if report.public_api_changes.len() > 0 || report.dependency_changes.len() > 0 || relevant > 0 || !tests || important > 8 {
        RiskLevel::Medium
    } else {
        RiskLevel::Low
    }
}

fn notes(report: &DiffReport, tests: bool, relevant: usize) -> (r: Vec<String>)
    ensures
        string_views(r@) == spec_notes(tests, report.changed_symbols@.len(), report.public_api_changes@.len(), relevant as nat),
{
    let mut out: Vec<String> = Vec::new();
    let ghost mut expect: Seq<Seq<char>> = Seq::empty();
    if !tests {
        out.push(String::from_str("No test files changed; verify existing coverage exercises this diff."));
    }
    assert(string_views(out@) =~= (if !tests {
        seq!["No test files changed; verify existing coverage exercises this diff."@]
    } else {
        Seq::<Seq<char>>::empty()
    }));
    let ghost a = string_views(out@);
    let broad = report.changed_symbols.len() > report.public_api_changes.len() && report.changed_symbols.len() - report.public_api_changes.len() > 20;
    if broad {
        let ghost before = out@;
        out.push(String::from_str("Raw symbol diff is broad; prefer top_changes and review_focus for agent triage."));
        assert(string_views(out@) =~= string_views(before).push("Raw symbol diff is broad; prefer top_changes and review_focus for agent triage."@));
    }
    let ghost b = string_views(out@);
    assert(b =~= a + (if report.changed_symbols@.len() > report.public_api_changes@.len() + 20 {
        seq!["Raw symbol diff is broad; prefer top_changes and review_focus for agent triage."@]
    } else {
        Seq::<Seq<char>>::empty()
    }));
    if relevant > 0 {
        let ghost before = out@;
        out.push(String::from_str("Changed files have parser or indexing diagnostics; inspect diagnostics before trusting impact."));
        assert(string_views(out@) =~= string_views(before).push("Changed files have parser or indexing diagnostics; inspect diagnostics before trusting impact."@));
    }
    assert(string_views(out@) =~= b + (if relevant > 0 {
        seq!["Changed files have parser or indexing diagnostics; inspect diagnostics before trusting impact."@]
    } else {
        Seq::<Seq<char>>::empty()
    }));
    out
}

impl Clone for RefSummary {
    fn clone(&self) -> (r: Self)
        ensures
            r.name@ == self.name@,
            r.commit@ == self.commit@,
    {
        RefSummary { name: self.name.clone(), commit: self.commit.clone() }
    }
}

/// What an agent summary holds, as plain values.
pub struct AgentReportView {
    pub base: (Seq<char>, Seq<char>),
    pub head: (Seq<char>, Seq<char>),
    pub risk: RiskLevel,
    pub files_changed: nat,
    pub public_api_changes: nat,
    pub important_symbol_changes: nat,
    pub dependency_changes: nat,
    pub diagnostics: nat,
    pub tests_changed: bool,
    pub top_changes: Seq<TopChangeView>,
    pub review_focus: Seq<FocusView>,
    pub notes: Seq<Seq<char>>,
}

impl View for AgentDiffReport {
    type V = AgentReportView;

    open spec fn view(&self) -> AgentReportView {
        AgentReportView {
            base: (self.base.name@, self.base.commit@),
            head: (self.head.name@, self.head.commit@),
            risk: self.risk,
            files_changed: self.summary.files_changed as nat,
            public_api_changes: self.summary.public_api_changes as nat,
            important_symbol_changes: self.summary.important_symbol_changes as nat,
            dependency_changes: self.summary.dependency_changes as nat,
            diagnostics: self.summary.diagnostics as nat,
            tests_changed: self.summary.tests_changed,
            top_changes: top_change_views(self.top_changes@),
            review_focus: focus_views(self.review_focus@),
            notes: string_views(self.notes@),
        }
    }
}

/// The agent summary of a diff report.
pub open spec fn spec_summarize(report: DiffReport) -> AgentReportView {
    let files = file_views(report.changed_files@);
    let tests = tests_changed_spec(files);
    let relevant = count_relevant(diagnostic_views(report.diagnostics@), files);
    let important = spec_important_symbols(changed_symbol_views(report.changed_symbols@));
    let top = spec_top_changes(files, important, dependency_views(report.dependency_changes@), diagnostic_views(report.diagnostics@));
    AgentReportView {
        base: (report.base.name@, report.base.commit@),
        head: (report.head.name@, report.head.commit@),
        risk: spec_overall_risk(
            changed_symbol_views(report.public_api_changes@),
            files,
            report.dependency_changes@.len(),
            relevant,
            tests,
            important.len(),
        ),
        files_changed: report.changed_files@.len(),
        public_api_changes: report.public_api_changes@.len(),
        important_symbol_changes: important.len(),
        dependency_changes: report.dependency_changes@.len(),
        diagnostics: relevant,
        tests_changed: tests,
        top_changes: top,
        review_focus: spec_review_focus(top, files, impacted_paths(crate::diff_report::impacted_views(report.impacted_files@))),
        notes: spec_notes(tests, report.changed_symbols@.len(), report.public_api_changes@.len(), relevant),
    }
}

/// Condenses a diff report for an agent: the overall risk, headline counts, the
/// eight most important changed paths, the eight files most worth reviewing, and
/// notes.
pub fn summarize_for_agent(report: &DiffReport) -> (r: AgentDiffReport)
    ensures
        r@ == spec_summarize(*report),
{
    let tests = tests_changed(&report.changed_files);
    let relevant = relevant_diagnostics(report);
    let important = important_symbols(&report.changed_symbols);
    let ghost iv = pick(changed_symbol_views(report.changed_symbols@), important@);
    assert(iv.len() == important@.len());
    let risk = overall_risk(report, tests, important.len(), relevant);
    let top = top_changes(report, &important);
    let focus = review_focus(report, &top);
    let notes = notes(report, tests, relevant);
    AgentDiffReport {
        base: report.base.clone(),
        head: report.head.clone(),
        risk,
        summary: AgentDiffStats {
            files_changed: report.changed_files.len(),
            public_api_changes: report.public_api_changes.len(),
            important_symbol_changes: important.len(),
            dependency_changes: report.dependency_changes.len(),
            diagnostics: relevant,
            tests_changed: tests,
        },
        top_changes: top,
        review_focus: focus,
        notes,
    }
}

/// Removing a file that is not a test file makes the agent summary high risk,
/// whatever else the report holds.
pub proof fn removed_source_files_make_high_risk(report: DiffReport, i: int)
    requires
        0 <= i < report.changed_files@.len(),
        report.changed_files@[i].change == ChangeKind::Removed,
        !spec_is_test_path(report.changed_files@[i].path@),
    ensures
        spec_summarize(report).risk == RiskLevel::High,
{
    let files = file_views(report.changed_files@);
    assert(files[i] == report.changed_files@[i]@);
    assert(0 <= i < files.len() && files[i].change == ChangeKind::Removed && !spec_is_test_path(files[i].path));
}

} // verus!
