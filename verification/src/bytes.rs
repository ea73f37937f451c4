use vstd::prelude::*;

verus! {

/// Little-endian encoding of a 64-bit word: byte `i` holds bits `8i..8i+8`.
pub open spec fn le_bytes_u64(v: u64) -> Seq<u8> {
    Seq::new(8, |i: int| ((v >> (8 * i) as u64) & 0xff) as u8)
}

/// Little-endian encoding of a 32-bit word.
pub open spec fn le_bytes_u32(v: u32) -> Seq<u8> {
    Seq::new(4, |i: int| ((v >> (8 * i) as u32) & 0xff) as u8)
}

/// Little-endian encoding of a signed 64-bit word (its two's complement bits).
pub open spec fn le_bytes_i64(v: i64) -> Seq<u8> {
    le_bytes_u64(v as u64)
}

/// `v.to_le_bytes()`, written out.
pub fn u64_le_bytes(v: u64) -> (res: Vec<u8>)
    ensures
        res@ == le_bytes_u64(v),
{
    let mut res: Vec<u8> = Vec::new();
    let mut i: u64 = 0;
    while i < 8
        invariant
            i <= 8,
            res@.len() == i,
            forall|j: int| 0 <= j < i ==> res@[j] == ((v >> (8 * j) as u64) & 0xff) as u8,
        decreases 8 - i,
    {
        res.push(((v >> (8 * i)) & 0xff) as u8);
        i = i + 1;
    }
    assert(res@ =~= le_bytes_u64(v));
    res
}

/// Little-endian encoding of a 32-bit word, written out.
pub fn u32_le_bytes(v: u32) -> (res: Vec<u8>)
    ensures
        res@ == le_bytes_u32(v),
{
    let mut res: Vec<u8> = Vec::new();
    let mut i: u32 = 0;
    while i < 4
        invariant
            i <= 4,
            res@.len() == i,
            forall|j: int| 0 <= j < i ==> res@[j] == ((v >> (8 * j) as u32) & 0xff) as u8,
        decreases 4 - i,
    {
        res.push(((v >> (8 * i)) & 0xff) as u8);
        i = i + 1;
    }
    assert(res@ =~= le_bytes_u32(v));
    res
}

/// Little-endian encoding of a signed 64-bit word, written out.
pub fn i64_le_bytes(v: i64) -> (res: Vec<u8>)
    ensures
        res@ == le_bytes_i64(v),
{
    u64_le_bytes(v as u64)
}

/// Appends `src` to the end of `dst`.
pub fn append_bytes(dst: &mut Vec<u8>, src: &[u8])
    ensures
        final(dst)@ == old(dst)@ + src@,
{
    let ghost start = dst@;
    let mut i: usize = 0;
    while i < src.len()
        invariant
            i <= src@.len(),
            dst@ == start + src@.subrange(0, i as int),
        decreases src@.len() - i,
    {
        dst.push(src[i]);
        i = i + 1;
        assert(dst@ =~= start + src@.subrange(0, i as int));
    }
    assert(src@.subrange(0, src@.len() as int) =~= src@);
}

/// A copy of the bytes of `src` in a new vector.
pub fn bytes_to_vec(src: &[u8]) -> (res: Vec<u8>)
    ensures
        res@ == src@,
{
    let mut res: Vec<u8> = Vec::new();
    append_bytes(&mut res, src);
    assert(res@ =~= src@);
    res
}

/// The bytes of `s` from index `from` up to `to`, copied.
pub fn copy_range(s: &[u8], from: usize, to: usize) -> (res: Vec<u8>)
    requires
        from <= to <= s@.len(),
    ensures
        res@ == s@.subrange(from as int, to as int),
{
    let mut res: Vec<u8> = Vec::new();
    let mut i: usize = from;
    while i < to
        invariant
            from <= i <= to <= s@.len(),
            res@ == s@.subrange(from as int, i as int),
        decreases to - i,
    {
        res.push(s[i]);
        i = i + 1;
        assert(res@ =~= s@.subrange(from as int, i as int));
    }
    res
}

/// A sequence of `n` zero bytes.
pub open spec fn zeros(n: nat) -> Seq<u8> {
    Seq::new(n, |i: int| 0u8)
}

/// A vector of `n` zero bytes.
pub fn zero_bytes(n: usize) -> (res: Vec<u8>)
    ensures
        res@ == zeros(n as nat),
{
    let mut res: Vec<u8> = Vec::new();
    let mut i: usize = 0;
    while i < n
        invariant
            i <= n,
            res@ == zeros(i as nat),
        decreases n - i,
    {
        res.push(0u8);
        i = i + 1;
        assert(res@ =~= zeros(i as nat));
    }
    res
}

/// Whether two byte strings are equal, compared byte by byte.
pub fn bytes_equal(a: &[u8], b: &[u8]) -> (res: bool)
    ensures
        res == (a@ == b@),
{
    if a.len() != b.len() {
        return false;
    }
    let mut i: usize = 0;
    while i < a.len()
        invariant
            i <= a@.len(),
            a@.len() == b@.len(),
            forall|j: int| 0 <= j < i ==> a@[j] == b@[j],
        decreases a@.len() - i,
    {
        if a[i] != b[i] {
            return false;
        }
        i = i + 1;
    }
    assert(a@ =~= b@);
    true
}

} // verus!
