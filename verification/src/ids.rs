use std::marker::PhantomData;
use vstd::prelude::*;
use vstd::utf8::encode_utf8;

verus! {

/// The lowercase hexadecimal BLAKE3 digest of `data`.
pub uninterp spec fn blake3_hex(data: Seq<u8>) -> Seq<char>;

/// A lowercase hexadecimal digit: `0`-`9` or `a`-`f`.
pub open spec fn is_lower_hex(c: char) -> bool {
    ('0' <= c && c <= '9') || ('a' <= c && c <= 'f')
}

/// Calls `blake3::hash` and `Hash::to_hex`: the result is the named digest text of
/// `data`; `to_hex` writes each of the 32 digest bytes as two characters of the
/// table `0123456789abcdef`, so it is 64 lowercase hexadecimal characters.
#[verifier::external_body]
pub(crate) fn blake3_hex_of(data: &[u8]) -> (r: String)
    ensures
        r@ == blake3_hex(data@),
        r@.len() == 64,
        forall|i: int| 0 <= i < 64 ==> #[trigger] is_lower_hex(r@[i]),
{
    blake3::hash(data).to_hex().to_string()
}

/// The bytes hashed for an id: each part in UTF-8, each followed by a zero byte.
pub open spec fn id_hash_input(parts: Seq<Seq<char>>) -> Seq<u8>
    decreases parts.len(),
{
    if parts.len() == 0 {
        Seq::empty()
    } else {
        id_hash_input(parts.drop_last()) + encode_utf8(parts.last()) + seq![0u8]
    }
}

/// The text of the id made from `prefix` and `parts`: the prefix, a colon, and the
/// first 24 hexadecimal characters of the digest of the parts.
pub open spec fn id_text(prefix: Seq<char>, parts: Seq<Seq<char>>) -> Seq<char> {
    prefix + seq![':'] + blake3_hex(id_hash_input(parts)).take(24)
}

/// The texts of a sequence of string slices.
pub open spec fn str_views(parts: Seq<&str>) -> Seq<Seq<char>> {
    parts.map_values(|p: &str| p@)
}

/// Marker type for repository ids.
#[derive(Clone, Copy, Debug)]
pub struct RepositoryTag;

/// Marker type for file ids.
#[derive(Clone, Copy, Debug)]
pub struct FileTag;

/// Marker type for symbol ids.
#[derive(Clone, Copy, Debug)]
pub struct SymbolTag;

/// Marker type for graph node ids.
#[derive(Clone, Copy, Debug)]
pub struct NodeTag;

/// Marker type for graph edge ids.
#[derive(Clone, Copy, Debug)]
pub struct EdgeTag;

/// Marker type for package ids.
#[derive(Clone, Copy, Debug)]
pub struct PackageTag;

/// Stable typed identifier stored as a prefixed hash string.
#[derive(Debug)]
pub struct Id<T> {
    value: String,
    marker: PhantomData<T>,
}

impl<T> View for Id<T> {
    type V = Seq<char>;

    closed spec fn view(&self) -> Seq<char> {
        self.value@
    }
}

impl<T> Clone for Id<T> {
    fn clone(&self) -> (r: Self)
        ensures
            r == *self,
    {
        Id { value: self.value.clone(), marker: PhantomData }
    }
}

impl<T> PartialEq for Id<T> {
    fn eq(&self, other: &Self) -> (r: bool) {
        self.value == other.value
    }
}

impl<T> vstd::std_specs::cmp::PartialEqSpecImpl for Id<T> {
    open spec fn obeys_eq_spec() -> bool {
        true
    }

    open spec fn eq_spec(&self, other: &Self) -> bool {
        self@ == other@
    }
}

impl<T> Eq for Id<T> {}

fn append_utf8(bytes: &mut Vec<u8>, s: &str)
    ensures
        final(bytes)@ == old(bytes)@ + encode_utf8(s@),
{
    let b = s.as_bytes();
    let ghost start = bytes@;
    let mut i: usize = 0;
    while i < b.len()
        invariant
            i <= b.len(),
            b@ == encode_utf8(s@),
            bytes@ == start + b@.take(i as int),
        decreases b.len() - i,
    {
        bytes.push(b[i]);
        i += 1;
        assert(bytes@ =~= start + b@.take(i as int));
    }
    assert(b@.take(b.len() as int) =~= b@);
}

impl<T> Id<T> {
    /// Builds a deterministic id from ordered string parts.
    pub fn new(prefix: &str, parts: &[&str]) -> (r: Self)
        ensures
            r@ == id_text(prefix@, str_views(parts@)),
            r@.len() == prefix@.len() + 25,
            r@.take(prefix@.len() as int) == prefix@,
            r@[prefix@.len() as int] == ':',
            forall|i: int| prefix@.len() < i < r@.len() ==> #[trigger] is_lower_hex(r@[i]),
    {
        let ghost views = str_views(parts@);
        let mut data: Vec<u8> = Vec::new();
        let mut i: usize = 0;
        while i < parts.len()
            invariant
                i <= parts.len(),
                views == str_views(parts@),
                data@ == id_hash_input(views.take(i as int)),
            decreases parts.len() - i,
        {
            append_utf8(&mut data, parts[i]);
            data.push(0u8);
            i += 1;
            assert(views.take(i as int).drop_last() =~= views.take(i - 1));
            assert(views.take(i as int).last() == parts@[i - 1]@);
        }
        assert(views.take(parts.len() as int) =~= views);
        let digest = crate::text::chars_of(blake3_hex_of(&data).as_str());
        let mut text = crate::text::chars_of(prefix);
        text.push(':');
        let head = crate::text::slice(&digest, 0, 24);
        let joined = crate::text::concat(&text, &head);
        assert(head@ =~= blake3_hex(id_hash_input(views)).take(24));
        let r = Id { value: crate::text::string_from(&joined), marker: PhantomData };
        proof {
            let n = prefix@.len() as int;
            assert(r@ =~= prefix@ + seq![':'] + head@);
            assert(r@.take(n) =~= prefix@);
            assert forall|i: int| n < i < r@.len() implies #[trigger] is_lower_hex(r@[i]) by {
                assert(r@[i] == digest@[i - n - 1]);
            }
        }
        r
    }

    /// Wraps a serialized id value without rehashing it.
    pub fn from_raw(value: String) -> (r: Self)
        ensures
            r@ == value@,
    {
        Id { value, marker: PhantomData }
    }

    /// Returns the serialized id value.
    pub fn as_str(&self) -> (r: &str)
        ensures
            r@ == self@,
    {
        self.value.as_str()
    }
}

/// Repository identifier.
pub type RepositoryId = Id<RepositoryTag>;

/// Source file identifier.
pub type FileId = Id<FileTag>;

/// Symbol identifier.
pub type SymbolId = Id<SymbolTag>;

/// Graph node identifier.
pub type NodeId = Id<NodeTag>;

/// Graph edge identifier.
pub type EdgeId = Id<EdgeTag>;

/// Package identifier.
pub type PackageId = Id<PackageTag>;

/// Ids are deterministic: the same prefix and parts always give the same id.
pub proof fn ids_are_deterministic(
    prefix1: Seq<char>,
    parts1: Seq<Seq<char>>,
    prefix2: Seq<char>,
    parts2: Seq<Seq<char>>,
)
    requires
        prefix1 == prefix2,
        parts1 == parts2,
    ensures
        id_text(prefix1, parts1) == id_text(prefix2, parts2),
{
}

} // verus!
