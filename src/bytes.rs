//! Small byte-sequence helpers shared by the wire formats.
use vstd::bytes::*;
use vstd::prelude::*;

verus! {

/// Little-endian bytes of a 32-bit count.
pub open spec fn le32(v: u32) -> Seq<u8> {
    spec_u32_to_le_bytes(v)
}

/// Little-endian bytes of a 64-bit word.
pub open spec fn le64(v: u64) -> Seq<u8> {
    spec_u64_to_le_bytes(v)
}

/// Big-endian bytes of a 32-bit count: the little-endian bytes reversed.
pub open spec fn be32(v: u32) -> Seq<u8> {
    spec_u32_to_le_bytes(v).reverse()
}

/// The 32-bit count whose big-endian bytes are `s` (four bytes).
pub open spec fn be32_value(s: Seq<u8>) -> u32 {
    spec_u32_from_le_bytes(s.reverse())
}

/// Lengths and round trips of the word encodings.
pub proof fn lemma_le_words()
    ensures
        forall|v: u32| #[trigger] le32(v).len() == 4 && spec_u32_from_le_bytes(le32(v)) == v,
        forall|v: u64| #[trigger] le64(v).len() == 8 && spec_u64_from_le_bytes(le64(v)) == v,
        forall|v: u32| #[trigger] be32(v).len() == 4 && be32_value(be32(v)) == v,
        forall|s: Seq<u8>| s.len() == 4 ==> #[trigger] be32(be32_value(s)) == s,
{
    lemma_auto_spec_u32_to_from_le_bytes();
    lemma_auto_spec_u64_to_from_le_bytes();
    assert forall|v: u32| #[trigger] be32(v).len() == 4 && be32_value(be32(v)) == v by {
        assert(be32(v).reverse() =~= le32(v));
    }
    assert forall|s: Seq<u8>| s.len() == 4 implies #[trigger] be32(be32_value(s)) == s by {
        let r = s.reverse();
        assert(spec_u32_to_le_bytes(spec_u32_from_le_bytes(r)) == r);
        assert(r.reverse() =~= s);
    }
}

/// Appends every byte of `src` to `out`.
pub fn push_all(out: &mut Vec<u8>, src: &[u8])
    ensures
        final(out)@ == old(out)@ + src@,
{
    let mut i: usize = 0;
    while i < src.len()
        invariant
            i <= src@.len(),
            out@ == old(out)@ + src@.subrange(0, i as int),
        decreases src@.len() - i,
    {
        out.push(src[i]);
        i = i + 1;
        assert(src@.subrange(0, i as int) =~= src@.subrange(0, (i - 1) as int).push(src@[i - 1]));
    }
    assert(src@.subrange(0, src@.len() as int) =~= src@);
}

/// A fresh vector holding `src[start..end]`.
pub fn copy_range(src: &[u8], start: usize, end: usize) -> (r: Vec<u8>)
    requires
        start <= end <= src@.len(),
    ensures
        r@ == src@.subrange(start as int, end as int),
{
    let mut r: Vec<u8> = Vec::new();
    push_all(&mut r, &src[start..end]);
    assert(r@ =~= src@.subrange(start as int, end as int));
    r
}

/// Whether two byte vectors hold the same bytes.
pub fn same_bytes(a: &Vec<u8>, b: &Vec<u8>) -> (r: bool)
    ensures
        r == (a@ == b@),
{
    if a.len() != b.len() {
        return false;
    }
    let mut i: usize = 0;
    while i < a.len()
        invariant
            a@.len() == b@.len(),
            i <= a@.len(),
            forall|j: int| 0 <= j < i ==> a@[j] == b@[j],
        decreases a@.len() - i,
    {
        if a[i] != b[i] {
            return false;
        }
        i = i + 1;
    }
    assert(a@ =~= b@);
    true
}

/// The little-endian bytes of `v`.
pub fn le32_bytes(v: u32) -> (r: Vec<u8>)
    ensures
        r@ == le32(v),
        r@.len() == 4,
{
    u32_to_le_bytes(v)
}

/// The little-endian bytes of `v`.
pub fn le64_bytes(v: u64) -> (r: Vec<u8>)
    ensures
        r@ == le64(v),
        r@.len() == 8,
{
    u64_to_le_bytes(v)
}

/// The big-endian bytes of `v`.
pub fn be32_bytes(v: u32) -> (r: Vec<u8>)
    ensures
        r@ == be32(v),
        r@.len() == 4,
{
    let le = u32_to_le_bytes(v);
    proof {
        lemma_auto_spec_u32_to_from_le_bytes();
    }
    let r = vec![le[3], le[2], le[1], le[0]];
    assert(r@ =~= be32(v));
    r
}

/// The 32-bit count whose big-endian bytes are `s`.
pub fn be32_read(s: &[u8]) -> (r: u32)
    requires
        s@.len() == 4,
    ensures
        r == be32_value(s@),
{
    let le = [s[3], s[2], s[1], s[0]];
    assert(le@ =~= s@.reverse());
    u32_from_le_bytes(&le)
}

} // verus!
