use vstd::prelude::*;
use vstd::utf8::{encode_scalar, encode_utf8};

verus! {

/// The Unicode `White_Space` property, which `char::is_whitespace` tests.
pub open spec fn is_ws(c: char) -> bool {
    ||| ('\u{9}' <= c && c <= '\u{d}')
    ||| c == ' '
    ||| c == '\u{85}'
    ||| c == '\u{a0}'
    ||| c == '\u{1680}'
    ||| ('\u{2000}' <= c && c <= '\u{200a}')
    ||| c == '\u{2028}'
    ||| c == '\u{2029}'
    ||| c == '\u{202f}'
    ||| c == '\u{205f}'
    ||| c == '\u{3000}'
}

/// ASCII letters and digits.
pub open spec fn is_ascii_alnum(c: char) -> bool {
    ('a' <= c && c <= 'z') || ('A' <= c && c <= 'Z') || ('0' <= c && c <= '9')
}

/// Characters that may appear in an identifier read by the line scanners.
pub open spec fn is_ident_char(c: char) -> bool {
    is_ascii_alnum(c) || c == '_' || c == '$'
}

pub open spec fn starts_with(s: Seq<char>, p: Seq<char>) -> bool {
    p.len() <= s.len() && s.subrange(0, p.len() as int) == p
}

pub open spec fn ends_with(s: Seq<char>, p: Seq<char>) -> bool {
    p.len() <= s.len() && s.subrange(s.len() - p.len(), s.len() as int) == p
}

pub open spec fn occurs_at(s: Seq<char>, p: Seq<char>, i: int) -> bool {
    0 <= i && i + p.len() <= s.len() && s.subrange(i, i + p.len()) == p
}

pub open spec fn contains_seq(s: Seq<char>, p: Seq<char>) -> bool {
    exists|i: int| occurs_at(s, p, i)
}

/// `s` without its leading whitespace.
pub open spec fn trim_start(s: Seq<char>) -> Seq<char>
    decreases s.len(),
{
    if s.len() > 0 && is_ws(s[0]) {
        trim_start(s.drop_first())
    } else {
        s
    }
}

/// `s` without its trailing whitespace.
pub open spec fn trim_end(s: Seq<char>) -> Seq<char>
    decreases s.len(),
{
    if s.len() > 0 && is_ws(s.last()) {
        trim_end(s.drop_last())
    } else {
        s
    }
}

/// `s` without leading and trailing whitespace.
pub open spec fn trim(s: Seq<char>) -> Seq<char> {
    trim_end(trim_start(s))
}

/// `s` without any trailing copies of `c`.
pub open spec fn trim_end_char(s: Seq<char>, c: char) -> Seq<char>
    decreases s.len(),
{
    if s.len() > 0 && s.last() == c {
        trim_end_char(s.drop_last(), c)
    } else {
        s
    }
}

/// `s` without any leading copies of `c`.
pub open spec fn trim_start_char(s: Seq<char>, c: char) -> Seq<char>
    decreases s.len(),
{
    if s.len() > 0 && s[0] == c {
        trim_start_char(s.drop_first(), c)
    } else {
        s
    }
}

/// `s` without leading and trailing copies of `c`.
pub open spec fn trim_char(s: Seq<char>, c: char) -> Seq<char> {
    trim_end_char(trim_start_char(s, c), c)
}

/// `s` without any leading copies of the non-empty pattern `p`.
pub open spec fn trim_start_seq(s: Seq<char>, p: Seq<char>) -> Seq<char>
    decreases s.len(),
{
    if p.len() > 0 && starts_with(s, p) {
        trim_start_seq(s.skip(p.len() as int), p)
    } else {
        s
    }
}

/// Index of the first occurrence of `c` in `s`, if any.
pub open spec fn index_of(s: Seq<char>, c: char) -> Option<int>
    decreases s.len(),
{
    if s.len() == 0 {
        None
    } else if s[0] == c {
        Some(0)
    } else {
        match index_of(s.drop_first(), c) {
            Some(i) => Some(i + 1),
            None => None,
        }
    }
}

/// Whether `c` is a Unicode whitespace character.
pub fn is_whitespace(c: char) -> (r: bool)
    ensures
        r == is_ws(c),
{
    ('\u{9}' <= c && c <= '\u{d}') || c == ' ' || c == '\u{85}' || c == '\u{a0}' || c
        == '\u{1680}' || ('\u{2000}' <= c && c <= '\u{200a}') || c == '\u{2028}' || c
        == '\u{2029}' || c == '\u{202f}' || c == '\u{205f}' || c == '\u{3000}'
}

/// Whether `c` is an ASCII letter or digit.
pub fn is_alnum(c: char) -> (r: bool)
    ensures
        r == is_ascii_alnum(c),
{
    ('a' <= c && c <= 'z') || ('A' <= c && c <= 'Z') || ('0' <= c && c <= '9')
}

/// Whether `c` may appear in an identifier read by the line scanners.
pub fn is_identifier_char(c: char) -> (r: bool)
    ensures
        r == is_ident_char(c),
{
    is_alnum(c) || c == '_' || c == '$'
}

/// The characters of `s`, in order.
pub fn chars_of(s: &str) -> (v: Vec<char>)
    ensures
        v@ == s@,
{
    broadcast use vstd::string::axiom_spec_iter;

    let mut v: Vec<char> = Vec::new();
    for c in it: s.chars()
        invariant
            v@ == it.seq().take(it.index() as int),
            it.seq() == s@,
    {
        v.push(c);
    }
    v
}

#[verifier::external_body]
fn push_char(s: &mut String, c: char)
    ensures
        final(s)@ == old(s)@.push(c),
{
    s.push(c);
}

/// A `String` holding exactly the characters of `chars`.
pub fn string_from(chars: &[char]) -> (s: String)
    ensures
        s@ == chars@,
{
    let mut s = String::new();
    let mut i: usize = 0;
    while i < chars.len()
        invariant
            i <= chars.len(),
            s@ == chars@.take(i as int),
        decreases chars.len() - i,
    {
        push_char(&mut s, chars[i]);
        i += 1;
        assert(s@ =~= chars@.take(i as int));
    }
    assert(chars@.take(chars.len() as int) =~= chars@);
    s
}

/// The characters of `s` from index `start` up to `end`.
pub fn slice(s: &[char], start: usize, end: usize) -> (r: Vec<char>)
    requires
        start <= end <= s.len(),
    ensures
        r@ == s@.subrange(start as int, end as int),
{
    let mut r: Vec<char> = Vec::new();
    let mut i = start;
    while i < end
        invariant
            start <= i <= end <= s.len(),
            r@ == s@.subrange(start as int, i as int),
        decreases end - i,
    {
        r.push(s[i]);
        i += 1;
        assert(r@ =~= s@.subrange(start as int, i as int));
    }
    r
}

/// `a` followed by `b`.
pub fn concat(a: &[char], b: &[char]) -> (r: Vec<char>)
    ensures
        r@ == a@ + b@,
{
    let mut r = slice(a, 0, a.len());
    let mut i: usize = 0;
    while i < b.len()
        invariant
            i <= b.len(),
            r@ == a@ + b@.take(i as int),
        decreases b.len() - i,
    {
        r.push(b[i]);
        i += 1;
        assert(r@ =~= a@ + b@.take(i as int));
    }
    assert(b@.take(b.len() as int) =~= b@);
    assert(a@.subrange(0, a@.len() as int) =~= a@);
    r
}

/// Whether the characters at `start..start + p.len()` of `s` are exactly `p`.
pub fn matches_at(s: &[char], p: &[char], start: usize) -> (r: bool)
    ensures
        r == occurs_at(s@, p@, start as int),
{
    if start > s.len() || p.len() > s.len() - start {
        return false;
    }
    let mut i: usize = 0;
    while i < p.len()
        invariant
            i <= p.len(),
            start + p.len() <= s.len(),
            forall|j: int| 0 <= j < i ==> s@[start + j] == p@[j],
        decreases p.len() - i,
    {
        if s[start + i] != p[i] {
            assert(s@.subrange(start as int, start + p.len())[i as int] != p@[i as int]);
            return false;
        }
        i += 1;
    }
    assert(s@.subrange(start as int, start + p.len()) =~= p@);
    true
}

/// Whether `s` begins with `p`.
pub fn has_prefix(s: &[char], p: &[char]) -> (r: bool)
    ensures
        r == starts_with(s@, p@),
{
    matches_at(s, p, 0)
}

/// Whether `s` ends with `p`.
pub fn has_suffix(s: &[char], p: &[char]) -> (r: bool)
    ensures
        r == ends_with(s@, p@),
{
    if p.len() > s.len() {
        false
    } else {
        matches_at(s, p, s.len() - p.len())
    }
}

/// The first position at which `p` occurs in `s`, if any.
pub fn find(s: &[char], p: &[char]) -> (r: Option<usize>)
    ensures
        match r {
            Some(i) => occurs_at(s@, p@, i as int) && forall|j: int|
                0 <= j < i ==> !occurs_at(s@, p@, j),
            None => !contains_seq(s@, p@),
        },
{
    if p.len() > s.len() {
        return None;
    }
    let mut i: usize = 0;
    loop
        invariant
            p.len() <= s.len(),
            i <= s.len() - p.len(),
            forall|j: int| 0 <= j < i ==> !occurs_at(s@, p@, j),
        decreases s.len() - p.len() - i,
    {
        if matches_at(s, p, i) {
            return Some(i);
        }
        if i == s.len() - p.len() {
            assert forall|j: int| !occurs_at(s@, p@, j) by {
                if 0 <= j && j + p@.len() <= s@.len() {
                    assert(j <= i);
                }
            }
            return None;
        }
        i += 1;
    }
}

/// Whether `p` occurs anywhere in `s`.
pub fn contains(s: &[char], p: &[char]) -> (r: bool)
    ensures
        r == contains_seq(s@, p@),
{
    match find(s, p) {
        Some(_) => true,
        None => false,
    }
}

/// Whether `c` occurs in `s`.
pub fn contains_char(s: &[char], c: char) -> (r: bool)
    ensures
        r == s@.contains(c),
{
    let mut i: usize = 0;
    while i < s.len()
        invariant
            i <= s.len(),
            forall|j: int| 0 <= j < i ==> s@[j] != c,
        decreases s.len() - i,
    {
        if s[i] == c {
            return true;
        }
        i += 1;
    }
    false
}

/// Index of the first occurrence of `c` in `s`.
pub fn position(s: &[char], c: char) -> (r: Option<usize>)
    ensures
        match r {
            Some(i) => index_of(s@, c) == Some(i as int),
            None => index_of(s@, c) is None,
        },
{
    let mut i: usize = 0;
    assert(s@.skip(0) =~= s@);
    while i < s.len()
        invariant
            i <= s.len(),
            index_of(s@, c) == match index_of(s@.skip(i as int), c) {
                Some(k) => Some(k + i),
                None => None::<int>,
            },
        decreases s.len() - i,
    {
        assert(s@.skip(i as int).drop_first() =~= s@.skip(i + 1));
        if s[i] == c {
            return Some(i);
        }
        i += 1;
    }
    assert(s@.skip(i as int).len() == 0);
    None
}

proof fn lemma_trim_start_step(s: Seq<char>, i: int)
    requires
        0 <= i < s.len(),
        is_ws(s[i]),
    ensures
        trim_start(s.skip(i)) == trim_start(s.skip(i + 1)),
{
    assert(s.skip(i).drop_first() =~= s.skip(i + 1));
}

proof fn lemma_trim_end_step(s: Seq<char>, i: int)
    requires
        0 < i <= s.len(),
        is_ws(s[i - 1]),
    ensures
        trim_end(s.take(i)) == trim_end(s.take(i - 1)),
{
    assert(s.take(i).drop_last() =~= s.take(i - 1));
}

/// `s` without its leading whitespace.
pub fn trimmed_start(s: &[char]) -> (r: Vec<char>)
    ensures
        r@ == trim_start(s@),
{
    let mut i: usize = 0;
    assert(s@.skip(0) =~= s@);
    while i < s.len() && is_whitespace(s[i])
        invariant
            i <= s.len(),
            trim_start(s@.skip(i as int)) == trim_start(s@),
        decreases s.len() - i,
    {
        proof {
            lemma_trim_start_step(s@, i as int);
        }
        i += 1;
    }
    assert(s@.skip(i as int) =~= s@.subrange(i as int, s.len() as int));
    slice(s, i, s.len())
}

/// `s` without its trailing whitespace.
pub fn trimmed_end(s: &[char]) -> (r: Vec<char>)
    ensures
        r@ == trim_end(s@),
{
    let mut i: usize = s.len();
    assert(s@.take(s.len() as int) =~= s@);
    while i > 0 && is_whitespace(s[i - 1])
        invariant
            i <= s.len(),
            trim_end(s@.take(i as int)) == trim_end(s@),
        decreases i,
    {
        proof {
            lemma_trim_end_step(s@, i as int);
        }
        i -= 1;
    }
    assert(s@.take(i as int) =~= s@.subrange(0, i as int));
    slice(s, 0, i)
}

/// `s` without leading and trailing whitespace.
pub fn trimmed(s: &[char]) -> (r: Vec<char>)
    ensures
        r@ == trim(s@),
{
    let a = trimmed_start(s);
    trimmed_end(&a)
}

/// `s` without any trailing copies of `c`.
pub fn trimmed_end_char(s: &[char], c: char) -> (r: Vec<char>)
    ensures
        r@ == trim_end_char(s@, c),
{
    let mut i: usize = s.len();
    assert(s@.take(s.len() as int) =~= s@);
    while i > 0 && s[i - 1] == c
        invariant
            i <= s.len(),
            trim_end_char(s@.take(i as int), c) == trim_end_char(s@, c),
        decreases i,
    {
        assert(s@.take(i as int).drop_last() =~= s@.take(i - 1));
        i -= 1;
    }
    assert(s@.take(i as int) =~= s@.subrange(0, i as int));
    slice(s, 0, i)
}

/// `s` without any leading copies of `c`.
pub fn trimmed_start_char(s: &[char], c: char) -> (r: Vec<char>)
    ensures
        r@ == trim_start_char(s@, c),
{
    let mut i: usize = 0;
    assert(s@.skip(0) =~= s@);
    while i < s.len() && s[i] == c
        invariant
            i <= s.len(),
            trim_start_char(s@.skip(i as int), c) == trim_start_char(s@, c),
        decreases s.len() - i,
    {
        assert(s@.skip(i as int).drop_first() =~= s@.skip(i + 1));
        i += 1;
    }
    assert(s@.skip(i as int) =~= s@.subrange(i as int, s.len() as int));
    slice(s, i, s.len())
}

/// `s` without leading and trailing copies of `c`.
pub fn trimmed_char(s: &[char], c: char) -> (r: Vec<char>)
    ensures
        r@ == trim_char(s@, c),
{
    let a = trimmed_start_char(s, c);
    trimmed_end_char(&a, c)
}

/// `s` without any leading copies of the pattern `p`.
pub fn trimmed_start_seq(s: &[char], p: &[char]) -> (r: Vec<char>)
    ensures
        r@ == trim_start_seq(s@, p@),
{
    if p.len() == 0 {
        return slice(s, 0, s.len());
    }
    let mut i: usize = 0;
    assert(s@.skip(0) =~= s@);
    while matches_at(s, p, i)
        invariant
            i <= s.len(),
            p.len() > 0,
            trim_start_seq(s@.skip(i as int), p@) == trim_start_seq(s@, p@),
        decreases s.len() - i,
    {
        assert(s@.skip(i as int).subrange(0, p@.len() as int) =~= s@.subrange(
            i as int,
            i + p@.len(),
        ));
        assert(s@.skip(i as int).skip(p@.len() as int) =~= s@.skip(i + p@.len()));
        i += p.len();
    }
    if i < s.len() || i == s.len() {
        assert(s@.skip(i as int).subrange(0, p@.len() as int) =~= s@.subrange(
            i as int,
            i + p@.len(),
        ) || p@.len() > s@.skip(i as int).len());
    }
    assert(s@.skip(i as int) =~= s@.subrange(i as int, s.len() as int));
    slice(s, i, s.len())
}

/// What `index_of` finds.
pub proof fn lemma_index_of(s: Seq<char>, c: char)
    ensures
        match index_of(s, c) {
            Some(k) => 0 <= k < s.len() && s[k] == c && forall|j: int| 0 <= j < k ==> s[j] != c,
            None => !s.contains(c),
        },
    decreases s.len(),
{
    if s.len() > 0 && s[0] != c {
        lemma_index_of(s.drop_first(), c);
        if index_of(s, c) is None {
            assert forall|j: int| 0 <= j < s.len() implies s[j] != c by {
                if j > 0 {
                    assert(s[j] == s.drop_first()[j - 1]);
                }
            }
        } else {
            let k = index_of(s, c)->0;
            assert forall|j: int| 0 <= j < k implies s[j] != c by {
                if j > 0 {
                    assert(s[j] == s.drop_first()[j - 1]);
                }
            }
        }
    }
}

/// `s` with the prefix `p` removed, when `s` begins with `p`.
pub fn strip_prefix(s: &[char], p: &[char]) -> (r: Option<Vec<char>>)
    ensures
        match r {
            Some(rest) => starts_with(s@, p@) && rest@ == s@.skip(p@.len() as int),
            None => !starts_with(s@, p@),
        },
{
    if has_prefix(s, p) {
        let rest = slice(s, p.len(), s.len());
        assert(rest@ =~= s@.skip(p@.len() as int));
        Some(rest)
    } else {
        None
    }
}

/// The parts of `s` before and after the first `c`, when `c` occurs.
pub fn split_once(s: &[char], c: char) -> (r: Option<(Vec<char>, Vec<char>)>)
    ensures
        match r {
            Some((a, b)) => index_of(s@, c) matches Some(k) && a@ == s@.take(k) && b@ == s@.skip(
                k + 1,
            ),
            None => index_of(s@, c) is None,
        },
{
    proof {
        lemma_index_of(s@, c);
    }
    match position(s, c) {
        Some(k) => {
            assert(index_of(s@, c) == Some(k as int));
            assert(k < s.len());
            let a = slice(s, 0, k);
            let b = slice(s, k + 1, s.len());
            assert(a@ =~= s@.take(k as int));
            assert(b@ =~= s@.skip(k + 1));
            Some((a, b))
        },
        None => None,
    }
}

/// The decimal digit for `d < 10`.
pub open spec fn digit_char(d: nat) -> char {
    if d == 0 {
        '0'
    } else if d == 1 {
        '1'
    } else if d == 2 {
        '2'
    } else if d == 3 {
        '3'
    } else if d == 4 {
        '4'
    } else if d == 5 {
        '5'
    } else if d == 6 {
        '6'
    } else if d == 7 {
        '7'
    } else if d == 8 {
        '8'
    } else {
        '9'
    }
}

/// The decimal text of `n`, as `Display` writes integers.
pub open spec fn decimal(n: nat) -> Seq<char>
    decreases n,
{
    if n < 10 {
        seq![digit_char(n)]
    } else {
        decimal(n / 10) + seq![digit_char(n % 10)]
    }
}

fn digit(d: u64) -> (c: char)
    requires
        d < 10,
    ensures
        c == digit_char(d as nat),
{
    if d == 0 {
        '0'
    } else if d == 1 {
        '1'
    } else if d == 2 {
        '2'
    } else if d == 3 {
        '3'
    } else if d == 4 {
        '4'
    } else if d == 5 {
        '5'
    } else if d == 6 {
        '6'
    } else if d == 7 {
        '7'
    } else if d == 8 {
        '8'
    } else {
        '9'
    }
}

/// The decimal text of `n`.
pub fn decimal_of(n: u64) -> (r: Vec<char>)
    ensures
        r@ == decimal(n as nat),
    decreases n,
{
    if n < 10 {
        let mut r: Vec<char> = Vec::new();
        r.push(digit(n));
        assert(r@ =~= seq![digit_char(n as nat)]);
        r
    } else {
        let mut r = decimal_of(n / 10);
        r.push(digit(n % 10));
        r
    }
}


/// UTF-8 encoding distributes over concatenation.
pub proof fn lemma_encode_concat(a: Seq<char>, b: Seq<char>)
    ensures
        encode_utf8(a + b) == encode_utf8(a) + encode_utf8(b),
    decreases a.len(),
{
    if a.len() > 0 {
        assert((a + b).drop_first() =~= a.drop_first() + b);
        lemma_encode_concat(a.drop_first(), b);
        assert(encode_utf8(a + b) =~= encode_utf8(a) + encode_utf8(b));
    } else {
        assert(a + b =~= b);
        assert(encode_utf8(a) =~= Seq::<u8>::empty());
        assert(encode_utf8(a) + encode_utf8(b) =~= encode_utf8(b));
    }
}

/// The UTF-8 length of `s` grows by the width of each added character.
pub proof fn lemma_encode_push(s: Seq<char>, c: char)
    ensures
        encode_utf8(s.push(c)).len() == encode_utf8(s).len() + encode_scalar(c as u32).len(),
{
    lemma_encode_concat(s, seq![c]);
    assert(s.push(c) =~= s + seq![c]);
    assert(seq![c].drop_first() =~= Seq::<char>::empty());
    assert(encode_utf8(seq![c]) =~= encode_scalar(c as u32) + encode_utf8(Seq::<char>::empty()));
}

/// The UTF-8 width of a character is between one and four bytes.
pub proof fn lemma_scalar_width(c: char)
    ensures
        1 <= encode_scalar(c as u32).len() <= 4,
{
    vstd::utf8::char_is_scalar(c);
}

/// The number of bytes in the UTF-8 encoding of `c`.
pub fn char_utf8_len(c: char) -> (r: usize)
    ensures
        r == encode_scalar(c as u32).len(),
        1 <= r <= 4,
{
    proof {
        vstd::utf8::char_is_scalar(c);
    }
    let x = c as u32;
    if x < 0x80 {
        1
    } else if x < 0x800 {
        2
    } else if x < 0x10000 {
        3
    } else {
        4
    }
}

/// The UTF-8 length of a character sequence is at most four bytes per character.
pub proof fn lemma_encode_len_bound(s: Seq<char>)
    ensures
        s.len() <= encode_utf8(s).len() <= 4 * s.len(),
    decreases s.len(),
{
    if s.len() > 0 {
        lemma_encode_len_bound(s.drop_last());
        lemma_encode_push(s.drop_last(), s.last());
        lemma_scalar_width(s.last());
        assert(s.drop_last().push(s.last()) =~= s);
    }
}

/// The number of bytes in the UTF-8 encoding of `s`.
pub fn utf8_len(s: &[char]) -> (r: usize)
    requires
        4 * s@.len() <= usize::MAX,
    ensures
        r == encode_utf8(s@).len(),
{
    let mut n: usize = 0;
    let mut i: usize = 0;
    while i < s.len()
        invariant
            i <= s.len(),
            4 * s@.len() <= usize::MAX,
            n == encode_utf8(s@.take(i as int)).len(),
        decreases s.len() - i,
    {
        proof {
            lemma_encode_push(s@.take(i as int), s@[i as int]);
            assert(s@.take(i as int).push(s@[i as int]) =~= s@.take(i + 1));
            lemma_encode_len_bound(s@.take(i as int));
        }
        n = n + char_utf8_len(s[i]);
        i += 1;
    }
    assert(s@.take(s.len() as int) =~= s@);
    n
}

/// `s` without one trailing carriage return.
pub open spec fn strip_cr(s: Seq<char>) -> Seq<char> {
    if s.len() > 0 && s.last() == '\r' {
        s.drop_last()
    } else {
        s
    }
}

/// Reading `s` from the left: the lines ended so far and the text after the last
/// line feed.
pub open spec fn scan_lines(s: Seq<char>) -> (Seq<Seq<char>>, Seq<char>)
    decreases s.len(),
{
    if s.len() == 0 {
        (Seq::empty(), Seq::empty())
    } else {
        let prev = scan_lines(s.drop_last());
        if s.last() == '\n' {
            (prev.0.push(strip_cr(prev.1)), Seq::empty())
        } else {
            (prev.0, prev.1.push(s.last()))
        }
    }
}

/// The lines of `s` as `str::lines` yields them: split at each line feed, a carriage
/// return before a line feed dropped, and no empty line after a final line feed.
pub open spec fn lines(s: Seq<char>) -> Seq<Seq<char>> {
    let sc = scan_lines(s);
    if sc.1.len() > 0 {
        sc.0.push(sc.1)
    } else {
        sc.0
    }
}

/// The lines of `s`.
pub fn lines_of(s: &[char]) -> (r: Vec<Vec<char>>)
    ensures
        r.deep_view() == lines(s@),
{
    let mut done: Vec<Vec<char>> = Vec::new();
    let mut cur: Vec<char> = Vec::new();
    let mut i: usize = 0;
    while i < s.len()
        invariant
            i <= s.len(),
            done.deep_view() == scan_lines(s@.take(i as int)).0,
            cur@ == scan_lines(s@.take(i as int)).1,
        decreases s.len() - i,
    {
        assert(s@.take(i + 1).drop_last() =~= s@.take(i as int));
        if s[i] == '\n' {
            let line = if cur.len() > 0 && cur[cur.len() - 1] == '\r' {
                slice(&cur, 0, cur.len() - 1)
            } else {
                slice(&cur, 0, cur.len())
            };
            assert(line@ =~= strip_cr(cur@));
            assert(line.deep_view() =~= line@);
            let ghost before = done.deep_view();
            done.push(line);
            assert(done.deep_view() =~= before.push(strip_cr(cur@)));
            cur = Vec::new();
            assert(cur@ =~= Seq::<char>::empty());
        } else {
            cur.push(s[i]);
        }
        i += 1;
    }
    assert(s@.take(s.len() as int) =~= s@);
    if cur.len() > 0 {
        assert(cur.deep_view() =~= cur@);
        let ghost before = done.deep_view();
        done.push(cur);
        assert(done.deep_view() =~= before.push(scan_lines(s@).1));
    }
    done
}

/// Reading `s` from the left: the pieces ended by `sep` so far and the text after
/// the last `sep`.
pub open spec fn scan_split(s: Seq<char>, sep: char) -> (Seq<Seq<char>>, Seq<char>)
    decreases s.len(),
{
    if s.len() == 0 {
        (Seq::empty(), Seq::empty())
    } else {
        let prev = scan_split(s.drop_last(), sep);
        if s.last() == sep {
            (prev.0.push(prev.1), Seq::empty())
        } else {
            (prev.0, prev.1.push(s.last()))
        }
    }
}

/// The pieces of `s` between occurrences of `sep`, as `str::split` yields them.
pub open spec fn split_all(s: Seq<char>, sep: char) -> Seq<Seq<char>> {
    scan_split(s, sep).0.push(scan_split(s, sep).1)
}

/// The pieces of `s` between occurrences of `sep`.
pub fn split_on(s: &[char], sep: char) -> (r: Vec<Vec<char>>)
    ensures
        r.deep_view() == split_all(s@, sep),
{
    let mut done: Vec<Vec<char>> = Vec::new();
    let mut cur: Vec<char> = Vec::new();
    let mut i: usize = 0;
    while i < s.len()
        invariant
            i <= s.len(),
            done.deep_view() == scan_split(s@.take(i as int), sep).0,
            cur@ == scan_split(s@.take(i as int), sep).1,
        decreases s.len() - i,
    {
        assert(s@.take(i + 1).drop_last() =~= s@.take(i as int));
        if s[i] == sep {
            assert(cur.deep_view() =~= cur@);
            let ghost before = done.deep_view();
            done.push(cur);
            assert(done.deep_view() =~= before.push(scan_split(s@.take(i as int), sep).1));
            cur = Vec::new();
            assert(cur@ =~= Seq::<char>::empty());
        } else {
            cur.push(s[i]);
        }
        i += 1;
    }
    assert(s@.take(s.len() as int) =~= s@);
    assert(cur.deep_view() =~= cur@);
    let ghost before = done.deep_view();
    done.push(cur);
    assert(done.deep_view() =~= before.push(scan_split(s@, sep).1));
    done
}

/// Number of identifier characters at the start of `s`.
pub open spec fn ident_prefix_len(s: Seq<char>) -> nat
    decreases s.len(),
{
    if s.len() > 0 && is_ident_char(s[0]) {
        1 + ident_prefix_len(s.drop_first())
    } else {
        0
    }
}

/// The identifier at the start of `s`, if there is one.
pub open spec fn spec_read_identifier(s: Seq<char>) -> Option<Seq<char>> {
    if ident_prefix_len(s) > 0 {
        Some(s.take(ident_prefix_len(s) as int))
    } else {
        None
    }
}

proof fn lemma_ident_prefix_skip(s: Seq<char>, i: int)
    requires
        0 <= i <= s.len(),
        forall|j: int| 0 <= j < i ==> is_ident_char(s[j]),
    ensures
        ident_prefix_len(s) == i + ident_prefix_len(s.skip(i)),
    decreases i,
{
    if i > 0 {
        lemma_ident_prefix_skip(s.drop_first(), i - 1);
        assert(s.drop_first().skip(i - 1) =~= s.skip(i));
    } else {
        assert(s.skip(0) =~= s);
    }
}

/// Number of identifier characters at the start of `s`.
pub fn identifier_prefix_len(s: &[char]) -> (r: usize)
    ensures
        r == ident_prefix_len(s@),
        r <= s.len(),
{
    let mut i: usize = 0;
    while i < s.len() && is_identifier_char(s[i])
        invariant
            i <= s.len(),
            forall|j: int| 0 <= j < i ==> is_ident_char(s@[j]),
        decreases s.len() - i,
    {
        i += 1;
    }
    proof {
        lemma_ident_prefix_skip(s@, i as int);
        if i < s.len() {
            assert(s@.skip(i as int)[0] == s@[i as int]);
        }
    }
    i
}

/// The identifier at the start of `s`.
pub fn read_identifier_chars(s: &[char]) -> (r: Option<Vec<char>>)
    ensures
        match r {
            Some(v) => spec_read_identifier(s@) == Some(v@),
            None => spec_read_identifier(s@) is None,
        },
{
    let n = identifier_prefix_len(s);
    if n > 0 {
        let v = slice(s, 0, n);
        assert(v@ =~= s@.take(n as int));
        Some(v)
    } else {
        None
    }
}


/// Whether the characters of `a` are exactly those of `b`.
pub fn text_is(a: &[char], b: &str) -> (r: bool)
    ensures
        r == (a@ == b@),
{
    let bv = chars_of(b);
    if a.len() != bv.len() {
        return false;
    }
    let mut i: usize = 0;
    while i < a.len()
        invariant
            i <= a.len() == bv.len(),
            bv@ == b@,
            forall|j: int| 0 <= j < i ==> a@[j] == bv@[j],
        decreases a.len() - i,
    {
        if a[i] != bv[i] {
            assert(a@[i as int] != bv@[i as int]);
            assert(a@ != bv@);
            return false;
        }
        i += 1;
    }
    assert(a@ =~= bv@);
    true
}

/// The texts of a sequence of strings.
pub open spec fn string_views(v: Seq<String>) -> Seq<Seq<char>> {
    v.map_values(|s: String| s@)
}

/// Owned strings holding the given character vectors, in order.
pub fn strings_from(names: &Vec<Vec<char>>) -> (r: Vec<String>)
    ensures
        string_views(r@) == names.deep_view(),
{
    let mut r: Vec<String> = Vec::new();
    let mut i: usize = 0;
    while i < names.len()
        invariant
            i <= names.len(),
            r@.len() == i,
            string_views(r@) == names.deep_view().take(i as int),
        decreases names.len() - i,
    {
        assert(names.deep_view()[i as int] =~= names[i as int]@);
        let ghost before = r@;
        let item = string_from(&names[i]);
        r.push(item);
        assert(r@ == before.push(item));
        assert forall|j: int| 0 <= j < r@.len() implies #[trigger] string_views(r@)[j]
            == names.deep_view().take(i + 1)[j] by {
            if j < i {
                assert(r@[j] == before[j]);
                assert(string_views(before)[j] == names.deep_view().take(i as int)[j]);
            }
        }
        i += 1;
        assert(string_views(r@) =~= names.deep_view().take(i as int));
    }
    assert(names.deep_view().take(names.len() as int) =~= names.deep_view());
    r
}

/// Whether `s` begins with the text `p`.
pub fn starts_with_str(s: &[char], p: &str) -> (r: bool)
    ensures
        r == starts_with(s@, p@),
{
    let pv = chars_of(p);
    has_prefix(s, &pv)
}

/// Whether `s` ends with the text `p`.
pub fn ends_with_str(s: &[char], p: &str) -> (r: bool)
    ensures
        r == ends_with(s@, p@),
{
    let pv = chars_of(p);
    has_suffix(s, &pv)
}

/// Whether the text `p` occurs in `s`.
pub fn contains_str(s: &[char], p: &str) -> (r: bool)
    ensures
        r == contains_seq(s@, p@),
{
    let pv = chars_of(p);
    contains(s, &pv)
}

/// `s` with the text `p` removed from its start, when it begins with `p`.
pub fn strip_prefix_str(s: &[char], p: &str) -> (r: Option<Vec<char>>)
    ensures
        match r {
            Some(rest) => starts_with(s@, p@) && rest@ == s@.skip(p@.len() as int),
            None => !starts_with(s@, p@),
        },
{
    let pv = chars_of(p);
    strip_prefix(s, &pv)
}


/// The first position at which `p` occurs in `s`, if any.
pub open spec fn first_occurrence(s: Seq<char>, p: Seq<char>) -> Option<int> {
    if contains_seq(s, p) {
        Some(
            choose|i: int|
                occurs_at(s, p, i) && forall|j: int| 0 <= j < i ==> !occurs_at(s, p, j),
        )
    } else {
        None
    }
}

/// `first_occurrence` is the least position where `p` occurs.
pub proof fn lemma_first_occurrence(s: Seq<char>, p: Seq<char>, i: int)
    requires
        occurs_at(s, p, i),
        forall|j: int| 0 <= j < i ==> !occurs_at(s, p, j),
    ensures
        first_occurrence(s, p) == Some(i),
{
    assert(contains_seq(s, p));
    let k = choose|k: int| occurs_at(s, p, k) && forall|j: int| 0 <= j < k ==> !occurs_at(s, p, j);
    assert(occurs_at(s, p, k) && forall|j: int| 0 <= j < k ==> !occurs_at(s, p, j));
    if k < i {
    } else if k > i {
    }
}

/// The first position of the text `p` in `s`.
pub fn find_str(s: &[char], p: &str) -> (r: Option<usize>)
    ensures
        match r {
            Some(i) => first_occurrence(s@, p@) == Some(i as int) && i + p@.len() <= s@.len(),
            None => first_occurrence(s@, p@) is None,
        },
{
    let pv = chars_of(p);
    match find(s, &pv) {
        Some(i) => {
            proof {
                lemma_first_occurrence(s@, p@, i as int);
            }
            Some(i)
        },
        None => None,
    }
}

/// `a` if it holds a value, else `b`.
pub open spec fn or_opt<T>(a: Option<T>, b: Option<T>) -> Option<T> {
    if a is Some {
        a
    } else {
        b
    }
}

} // verus!
