use vstd::prelude::*;

verus! {

/// Lexicographic order of texts by character code, the order of `str`.
pub open spec fn seq_lt(a: Seq<char>, b: Seq<char>) -> bool
    decreases a.len(),
{
    if a.len() == 0 {
        b.len() > 0
    } else if b.len() == 0 {
        false
    } else if a[0] != b[0] {
        (a[0] as int) < (b[0] as int)
    } else {
        seq_lt(a.drop_first(), b.drop_first())
    }
}

/// No text comes before itself.
pub proof fn seq_lt_irreflexive(a: Seq<char>)
    ensures
        !seq_lt(a, a),
    decreases a.len(),
{
    if a.len() > 0 {
        seq_lt_irreflexive(a.drop_first());
    }
}

/// The order is transitive.
pub proof fn seq_lt_transitive(a: Seq<char>, b: Seq<char>, c: Seq<char>)
    requires
        seq_lt(a, b),
        seq_lt(b, c),
    ensures
        seq_lt(a, c),
    decreases a.len(),
{
    if a.len() > 0 && b.len() > 0 && c.len() > 0 && a[0] == b[0] && b[0] == c[0] {
        seq_lt_transitive(a.drop_first(), b.drop_first(), c.drop_first());
    }
}

/// Of two different texts, one comes before the other.
pub proof fn seq_lt_total(a: Seq<char>, b: Seq<char>)
    requires
        a != b,
    ensures
        seq_lt(a, b) || seq_lt(b, a),
    decreases a.len(),
{
    if a.len() > 0 && b.len() > 0 && a[0] == b[0] {
        if a.drop_first() == b.drop_first() {
            assert(a =~= seq![a[0]] + a.drop_first());
            assert(b =~= seq![b[0]] + b.drop_first());
        }
        seq_lt_total(a.drop_first(), b.drop_first());
    } else if a.len() > 0 && b.len() > 0 {
        assert((a[0] as int) != (b[0] as int));
    } else if a.len() == 0 && b.len() == 0 {
        assert(a =~= b);
    }
}

/// Whether `a` comes before `b` in the order of `str`.
pub fn chars_lt(a: &[char], b: &[char]) -> (r: bool)
    ensures
        r == seq_lt(a@, b@),
{
    let mut i: usize = 0;
    assert(a@.skip(0) =~= a@);
    assert(b@.skip(0) =~= b@);
    while i < a.len() && i < b.len() && a[i] == b[i]
        invariant
            i <= a.len(),
            i <= b.len(),
            seq_lt(a@.skip(i as int), b@.skip(i as int)) == seq_lt(a@, b@),
        decreases a.len() - i,
    {
        assert(a@.skip(i as int).drop_first() =~= a@.skip(i + 1));
        assert(b@.skip(i as int).drop_first() =~= b@.skip(i + 1));
        i += 1;
    }
    if i == a.len() {
        i < b.len()
    } else if i == b.len() {
        false
    } else {
        assert(a@.skip(i as int)[0] == a[i as int]);
        assert(b@.skip(i as int)[0] == b[i as int]);
        a[i] < b[i]
    }
}

/// Whether `a` comes before `b` in the order of `str`.
pub fn str_lt(a: &str, b: &str) -> (r: bool)
    ensures
        r == seq_lt(a@, b@),
{
    chars_lt(&crate::text::chars_of(a), &crate::text::chars_of(b))
}

/// A sorted set of texts: each before the next.
pub open spec fn strictly_sorted(s: Seq<Seq<char>>) -> bool {
    forall|i: int| 0 <= i < s.len() - 1 ==> seq_lt(#[trigger] s[i], s[i + 1])
}

/// The number of texts of `s` that come before `x`.
pub open spec fn count_before(s: Seq<Seq<char>>, x: Seq<char>) -> nat
    decreases s.len(),
{
    if s.len() == 0 {
        0
    } else if seq_lt(s[0], x) {
        1 + count_before(s.drop_first(), x)
    } else {
        0
    }
}

/// A sorted set with `x` added in its place.
pub open spec fn set_insert(s: Seq<Seq<char>>, x: Seq<char>) -> Seq<Seq<char>> {
    if s.contains(x) {
        s
    } else {
        s.insert(count_before(s, x) as int, x)
    }
}

/// The sorted set of the texts of `s`.
pub open spec fn sorted_set(s: Seq<Seq<char>>) -> Seq<Seq<char>>
    decreases s.len(),
{
    if s.len() == 0 {
        Seq::empty()
    } else {
        set_insert(sorted_set(s.drop_last()), s.last())
    }
}

pub open spec fn string_views(v: Seq<String>) -> Seq<Seq<char>> {
    v.map_values(|s: String| s@)
}

/// In a sorted set, a text after `k` comes after `s[k]`.
pub proof fn lemma_sorted_after(s: Seq<Seq<char>>, k: int, j: int)
    requires
        strictly_sorted(s),
        0 <= k < j < s.len(),
    ensures
        seq_lt(s[k], s[j]),
    decreases j - k,
{
    if j == k + 1 {
        assert(seq_lt(s[k], s[k + 1]));
    } else {
        lemma_sorted_after(s, k, j - 1);
        assert(seq_lt(s[j - 1], s[j]));
        seq_lt_transitive(s[k], s[j - 1], s[j]);
    }
}

/// Adds `x` to the sorted set `set`, in its place.
pub fn set_add(set: &mut Vec<String>, x: String)
    requires
        strictly_sorted(string_views(old(set)@)),
    ensures
        string_views(final(set)@) == set_insert(string_views(old(set)@), x@),
        strictly_sorted(string_views(final(set)@)),
{
    let ghost s = string_views(set@);
    let mut i: usize = 0;
    assert(s.skip(0) =~= s);
    while i < set.len() && str_lt(set[i].as_str(), x.as_str())
        invariant
            i <= set.len(),
            s == string_views(set@),
            strictly_sorted(s),
            count_before(s, x@) == i + count_before(s.skip(i as int), x@),
            forall|j: int| 0 <= j < i ==> seq_lt(#[trigger] s[j], x@),
        decreases set.len() - i,
    {
        assert(s.skip(i as int)[0] == set@[i as int]@);
        assert(s.skip(i as int).drop_first() =~= s.skip(i + 1));
        i += 1;
    }
    proof {
        seq_lt_irreflexive(x@);
    }
    if i < set.len() {
        assert(s.skip(i as int)[0] == set@[i as int]@);
        if set[i] == x {
            assert(s[i as int] == x@);
            assert(s.contains(x@));
            return;
        }
    }
    assert(count_before(s, x@) == i);
    proof {
        if i < s.len() {
            assert(s[i as int] != x@);
            seq_lt_total(s[i as int], x@);
            assert(seq_lt(x@, s[i as int]));
        }
        assert forall|j: int| 0 <= j < s.len() implies s[j] != x@ by {
            if j < i {
                assert(seq_lt(s[j], x@));
            } else if j > i {
                lemma_sorted_after(s, i as int, j);
                seq_lt_transitive(x@, s[i as int], s[j]);
                seq_lt_irreflexive(s[j]);
            } else {
                assert(s[j] != x@);
            }
        }
        assert(!s.contains(x@));
    }
    set.insert(i, x);
    let ghost r = string_views(set@);
    assert(r =~= s.insert(i as int, x@));
    proof {
        assert forall|k: int| 0 <= k < r.len() - 1 implies seq_lt(#[trigger] r[k], r[k + 1]) by {
            if k + 1 < i {
                assert(r[k] == s[k] && r[k + 1] == s[k + 1]);
            } else if k + 1 == i {
                assert(r[k] == s[k] && r[k + 1] == x@);
            } else if k == i {
                assert(r[k] == x@ && r[k + 1] == s[k]);
            } else {
                assert(r[k] == s[k - 1] && r[k + 1] == s[k]);
            }
        }
    }
}

/// The number of leading items of `s` that `x` does not come before under `lt`.
pub open spec fn insert_point_by<T>(s: Seq<T>, x: T, lt: spec_fn(T, T) -> bool) -> nat
    decreases s.len(),
{
    if s.len() == 0 {
        0
    } else if !lt(x, s[0]) {
        1 + insert_point_by(s.drop_first(), x, lt)
    } else {
        0
    }
}

/// `s` sorted stably under `lt` by inserting each item, in order, after the
/// items it does not come before.
pub open spec fn insertion_sort_by<T>(s: Seq<T>, lt: spec_fn(T, T) -> bool) -> Seq<T>
    decreases s.len(),
{
    if s.len() == 0 {
        Seq::empty()
    } else {
        let sorted = insertion_sort_by(s.drop_last(), lt);
        sorted.insert(insert_point_by(sorted, s.last(), lt) as int, s.last())
    }
}

/// Whether `lt` is a strict order: transitive, and nothing comes before itself.
pub open spec fn strict_order_by<T>(lt: spec_fn(T, T) -> bool) -> bool {
    &&& forall|a: T, b: T, c: T| #[trigger] lt(a, b) && #[trigger] lt(b, c) ==> lt(a, c)
    &&& forall|a: T| !#[trigger] lt(a, a)
}

/// Whether no item of `s` comes, under `lt`, before an item ahead of it.
pub open spec fn sorted_by<T>(s: Seq<T>, lt: spec_fn(T, T) -> bool) -> bool {
    forall|i: int, j: int| 0 <= i < j < s.len() ==> !lt(#[trigger] s[j], #[trigger] s[i])
}

proof fn lemma_insert_point_by<T>(s: Seq<T>, x: T, lt: spec_fn(T, T) -> bool)
    ensures
        insert_point_by(s, x, lt) <= s.len(),
        forall|i: int| 0 <= i < insert_point_by(s, x, lt) ==> !lt(x, #[trigger] s[i]),
        insert_point_by(s, x, lt) < s.len() ==> lt(x, s[insert_point_by(s, x, lt) as int]),
    decreases s.len(),
{
    if s.len() > 0 && !lt(x, s[0]) {
        lemma_insert_point_by(s.drop_first(), x, lt);
        assert forall|i: int| 0 <= i < insert_point_by(s, x, lt) implies !lt(x, #[trigger] s[i]) by {
            if i > 0 {
                assert(s[i] == s.drop_first()[i - 1]);
            }
        }
    }
}

/// Sorting by insertion under a strict order `lt` gives a sequence in which no item
/// comes before an item ahead of it, with the same items as `s`.
pub proof fn lemma_insertion_sort_by<T>(s: Seq<T>, lt: spec_fn(T, T) -> bool)
    requires
        strict_order_by(lt),
    ensures
        sorted_by(insertion_sort_by(s, lt), lt),
        insertion_sort_by(s, lt).to_multiset() == s.to_multiset(),
    decreases s.len(),
{
    broadcast use vstd::seq_lib::to_multiset_insert, vstd::seq_lib::to_multiset_build;
    if s.len() > 0 {
        let x = s.last();
        let sorted = insertion_sort_by(s.drop_last(), lt);
        lemma_insertion_sort_by(s.drop_last(), lt);
        let k = insert_point_by(sorted, x, lt) as int;
        lemma_insert_point_by(sorted, x, lt);
        assert(0 <= k <= sorted.len());
        let r = sorted.insert(k, x);
        assert(r.len() == sorted.len() + 1);
        assert forall|i: int, j: int| 0 <= i < j < r.len() implies !lt(#[trigger] r[j], #[trigger] r[i]) by {
            if j < k {
                assert(r[i] == sorted[i] && r[j] == sorted[j]);
            } else if j == k {
                assert(r[i] == sorted[i] && r[j] == x);
            } else if i < k {
                assert(r[i] == sorted[i] && r[j] == sorted[j - 1]);
            } else if i == k {
                assert(r[i] == x && r[j] == sorted[j - 1]);
                assert(lt(x, sorted[k]));
                if lt(sorted[j - 1], x) {
                    assert(lt(sorted[j - 1], sorted[k]));
                    if j - 1 > k {
                        assert(!lt(sorted[j - 1], sorted[k]));
                    } else {
                        assert(lt(x, x));
                    }
                }
            } else {
                assert(r[i] == sorted[i - 1] && r[j] == sorted[j - 1]);
            }
        }
        assert(s.drop_last().push(x) =~= s);
        assert(s.to_multiset() == s.drop_last().to_multiset().insert(x));
        assert(r.to_multiset() == sorted.to_multiset().insert(x));
        assert(insertion_sort_by(s, lt) == r);
    } else {
        assert(s =~= Seq::<T>::empty());
        assert(insertion_sort_by(s, lt) =~= s);
    }
}

} // verus!
