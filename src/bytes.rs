use vstd::prelude::*;

verus! {

/// The big-endian value of the two bytes at `i`.
pub open spec fn be16(b: Seq<u8>, i: int) -> u16 {
    (b[i] as int * 256 + b[i + 1] as int) as u16
}

/// The big-endian value of the four bytes at `i`.
pub open spec fn be32(b: Seq<u8>, i: int) -> u32 {
    (((b[i] as int * 256 + b[i + 1] as int) * 256 + b[i + 2] as int) * 256 + b[i + 3] as int) as u32
}

/// The two big-endian bytes of `v`.
pub open spec fn u16_bytes(v: u16) -> Seq<u8> {
    seq![(v / 256) as u8, (v % 256) as u8]
}

/// The four big-endian bytes of `v`.
pub open spec fn u32_bytes(v: u32) -> Seq<u8> {
    seq![(v / 0x100_0000) as u8, ((v / 0x1_0000) % 256) as u8, ((v / 256) % 256) as u8, (v % 256) as u8]
}

pub proof fn lemma_bytes_of_be16(b: Seq<u8>, i: int)
    requires
        0 <= i,
        i + 2 <= b.len(),
    ensures
        u16_bytes(be16(b, i)) == b.subrange(i, i + 2),
{
    assert(u16_bytes(be16(b, i)) =~= b.subrange(i, i + 2));
}

pub proof fn lemma_bytes_of_be32(b: Seq<u8>, i: int)
    requires
        0 <= i,
        i + 4 <= b.len(),
    ensures
        u32_bytes(be32(b, i)) == b.subrange(i, i + 4),
{
    assert(u32_bytes(be32(b, i)) =~= b.subrange(i, i + 4));
}

/// The byte at `pos`, if there is one.
pub fn read_u8(b: &[u8], pos: usize) -> (r: Option<u8>)
    ensures
        r == (if pos < b@.len() { Some(b@[pos as int]) } else { None::<u8> }),
{
    if pos < b.len() {
        Some(b[pos])
    } else {
        None
    }
}

/// The big-endian `u16` at `pos`, if the bytes reach that far.
pub fn read_u16(b: &[u8], pos: usize) -> (r: Option<u16>)
    ensures
        r == (if pos + 2 <= b@.len() { Some(be16(b@, pos as int)) } else { None::<u16> }),
{
    if pos < b.len() && b.len() - pos >= 2 {
        Some((b[pos] as u16) * 256 + b[pos + 1] as u16)
    } else {
        None
    }
}

/// The big-endian `u32` at `pos`, if the bytes reach that far.
pub fn read_u32(b: &[u8], pos: usize) -> (r: Option<u32>)
    ensures
        r == (if pos + 4 <= b@.len() { Some(be32(b@, pos as int)) } else { None::<u32> }),
{
    if pos < b.len() && b.len() - pos >= 4 {
        let x = (b[pos] as u32) * 256 + b[pos + 1] as u32;
        let x = x * 256 + b[pos + 2] as u32;
        Some(x * 256 + b[pos + 3] as u32)
    } else {
        None
    }
}

/// Appends the two big-endian bytes of `v`.
pub fn push_u16(out: &mut Vec<u8>, v: u16)
    ensures
        final(out)@ == old(out)@ + u16_bytes(v),
{
    out.push((v / 256) as u8);
    out.push((v % 256) as u8);
    assert(final(out)@ =~= old(out)@ + u16_bytes(v));
}

/// Appends the four big-endian bytes of `v`.
pub fn push_u32(out: &mut Vec<u8>, v: u32)
    ensures
        final(out)@ == old(out)@ + u32_bytes(v),
{
    out.push((v / 0x100_0000) as u8);
    out.push(((v / 0x1_0000) % 256) as u8);
    out.push(((v / 256) % 256) as u8);
    out.push((v % 256) as u8);
    assert(final(out)@ =~= old(out)@ + u32_bytes(v));
}

/// Appends all of `src`.
pub fn push_all(out: &mut Vec<u8>, src: &[u8])
    ensures
        final(out)@ == old(out)@ + src@,
{
    let mut i: usize = 0;
    while i < src.len()
        invariant
            i <= src@.len(),
            out@ == old(out)@ + src@.subrange(0, i as int),
        decreases src@.len() - i,
    {
        out.push(src[i]);
        i += 1;
        assert(out@ =~= old(out)@ + src@.subrange(0, i as int));
    }
    assert(src@.subrange(0, src@.len() as int) =~= src@);
}

/// The bytes of `b` from `start` to `end`.
pub fn slice_to_vec(b: &[u8], start: usize, end: usize) -> (r: Vec<u8>)
    requires
        start <= end <= b@.len(),
    ensures
        r@ == b@.subrange(start as int, end as int),
{
    let mut r: Vec<u8> = Vec::new();
    let mut i: usize = start;
    while i < end
        invariant
            start <= i <= end <= b@.len(),
            r@ == b@.subrange(start as int, i as int),
        decreases end - i,
    {
        r.push(b[i]);
        i += 1;
        assert(r@ =~= b@.subrange(start as int, i as int));
    }
    r
}

} // verus!
