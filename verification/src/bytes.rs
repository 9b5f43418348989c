use vstd::prelude::*;

verus! {

/// Little-endian bytes of a `u16`.
pub open spec fn u16_le(x: u16) -> Seq<u8> {
    seq![(x % 256) as u8, (x / 256) as u8]
}

/// Little-endian bytes of a `u32`.
pub open spec fn u32_le(x: u32) -> Seq<u8> {
    seq![
        (x % 256) as u8,
        ((x / 256) % 256) as u8,
        ((x / 65536) % 256) as u8,
        (x / 16777216) as u8,
    ]
}

/// The `u16` whose little-endian bytes are `b[0], b[1]`.
pub open spec fn le_u16(b: Seq<u8>) -> u16 {
    (b[0] + 256 * b[1]) as u16
}

/// The `u32` whose little-endian bytes are `b[0..4]`.
pub open spec fn le_u32(b: Seq<u8>) -> u32 {
    (b[0] + 256 * b[1] + 65536 * b[2] + 16777216 * b[3]) as u32
}

/// Append the little-endian bytes of `x`.
pub fn push_u16_le(out: &mut Vec<u8>, x: u16)
    ensures
        final(out)@ == old(out)@ + u16_le(x),
{
    out.push((x % 256) as u8);
    out.push((x / 256) as u8);
    assert(final(out)@ =~= old(out)@ + u16_le(x)) by {
        assert(out@ =~= old(out)@ + u16_le(x));
    }
}

/// Append the little-endian bytes of `x`.
pub fn push_u32_le(out: &mut Vec<u8>, x: u32)
    ensures
        final(out)@ == old(out)@ + u32_le(x),
{
    out.push((x % 256) as u8);
    out.push(((x / 256) % 256) as u8);
    out.push(((x / 65536) % 256) as u8);
    out.push((x / 16777216) as u8);
    assert(out@ =~= old(out)@ + u32_le(x));
}

/// Read a little-endian `u16` at `at`.
pub fn read_u16_le(b: &[u8], at: usize) -> (x: u16)
    requires
        at + 2 <= b@.len(),
    ensures
        x == le_u16(b@.subrange(at as int, at + 2)),
{
    b[at] as u16 + 256 * (b[at + 1] as u16)
}

/// Read a little-endian `u32` at `at`.
pub fn read_u32_le(b: &[u8], at: usize) -> (x: u32)
    requires
        at + 4 <= b@.len(),
    ensures
        x == le_u32(b@.subrange(at as int, at + 4)),
{
    b[at] as u32 + 256 * (b[at + 1] as u32) + 65536 * (b[at + 2] as u32) + 16777216 * (b[at
        + 3] as u32)
}

/// Decoding the little-endian bytes of a `u16` gives it back.
pub proof fn lemma_u16_roundtrip(x: u16)
    ensures
        le_u16(u16_le(x)) == x,
{
}

/// Decoding the little-endian bytes of a `u32` gives it back.
pub proof fn lemma_u32_roundtrip(x: u32)
    ensures
        le_u32(u32_le(x)) == x,
{
}

/// Encoding a decoded pair of bytes gives it back.
pub proof fn lemma_u16_inverse(a: Seq<u8>)
    requires
        a.len() == 2,
    ensures
        u16_le(le_u16(a)) == a,
{
    let x = a[0] + 256 * a[1];
    assert(x % 256 == a[0] && x / 256 == a[1]) by (nonlinear_arith)
        requires
            x == a[0] + 256 * a[1],
            0 <= a[0] < 256,
            0 <= a[1] < 256,
    ;
    assert(u16_le(le_u16(a)) =~= a);
}

/// Encoding four decoded bytes gives them back.
pub proof fn lemma_u32_inverse(c: Seq<u8>)
    requires
        c.len() == 4,
    ensures
        u32_le(le_u32(c)) == c,
{
    let x = c[0] + 256 * c[1] + 65536 * c[2] + 16777216 * c[3];
    assert(x % 256 == c[0] && (x / 256) % 256 == c[1] && (x / 65536) % 256 == c[2] && x
        / 16777216 == c[3]) by (nonlinear_arith)
        requires
            x == c[0] + 256 * c[1] + 65536 * c[2] + 16777216 * c[3],
            0 <= c[0] < 256,
            0 <= c[1] < 256,
            0 <= c[2] < 256,
            0 <= c[3] < 256,
    ;
    assert(u32_le(le_u32(c)) =~= c);
}

} // verus!
