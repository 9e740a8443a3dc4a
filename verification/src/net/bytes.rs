//! Byte-level helpers shared by the packet formats.
use vstd::prelude::*;

verus! {

/// The two bytes of `v`, most significant first.
pub open spec fn be16(v: u16) -> Seq<u8> {
    seq![(v / 256) as u8, (v % 256) as u8]
}

/// The number that two bytes stand for, the first most significant.
pub open spec fn be16_value(hi: u8, lo: u8) -> u16 {
    (hi * 256 + lo) as u16
}

/// The four bytes of `v`, least significant first.
pub open spec fn le32(v: u32) -> Seq<u8> {
    seq![(v % 256) as u8, ((v / 256) % 256) as u8, ((v / 65536) % 256) as u8, (v / 16777216) as u8]
}

/// The number that four bytes stand for, the first least significant.
pub open spec fn le32_value(b: Seq<u8>) -> u32 {
    (b[0] + b[1] * 256 + b[2] * 65536 + b[3] * 16777216) as u32
}

/// Reading the bytes of a 16-bit number back gives the number, and the other way round.
pub proof fn lemma_be16(v: u16, hi: u8, lo: u8)
    ensures
        be16_value(be16(v)[0], be16(v)[1]) == v,
        be16(be16_value(hi, lo)) == seq![hi, lo],
{
    assert((v / 256) * 256 + v % 256 == v) by (nonlinear_arith);
    let x = hi * 256 + lo;
    assert(x / 256 == hi && x % 256 == lo) by (nonlinear_arith)
        requires x == hi * 256 + lo, 0 <= lo < 256, 0 <= hi < 256;
    assert(be16(be16_value(hi, lo)) =~= seq![hi, lo]);
}

/// Reading the bytes of a 32-bit number back gives the number, and the other way round.
pub proof fn lemma_le32(v: u32, b: Seq<u8>)
    requires
        b.len() == 4,
    ensures
        le32_value(le32(v)) == v,
        le32(le32_value(b)) == b,
{
    let a0 = v % 256;
    let a1 = (v / 256) % 256;
    let a2 = (v / 65536) % 256;
    let a3 = v / 16777216;
    assert(a0 + a1 * 256 + a2 * 65536 + a3 * 16777216 == v) by (nonlinear_arith)
        requires
            a0 == v % 256,
            a1 == (v / 256) % 256,
            a2 == (v / 65536) % 256,
            a3 == v / 16777216,
    ;
    let x = b[0] + b[1] * 256 + b[2] * 65536 + b[3] * 16777216;
    let (b0, b1, b2, b3) = (b[0] as int, b[1] as int, b[2] as int, b[3] as int);
    assert(x % 256 == b0 && (x / 256) % 256 == b1 && (x / 65536) % 256 == b2 && x / 16777216 == b3)
        by (nonlinear_arith)
        requires
            x == b0 + b1 * 256 + b2 * 65536 + b3 * 16777216,
            0 <= b0 < 256,
            0 <= b1 < 256,
            0 <= b2 < 256,
            0 <= b3 < 256,
    ;
    assert(le32(le32_value(b)) =~= b);
}

/// Appends the bytes of `s` to `v`.
pub fn append_bytes(v: &mut Vec<u8>, s: &[u8])
    ensures
        final(v)@ == old(v)@ + s@,
{
    let ghost start = v@;
    let mut i: usize = 0;
    while i < s.len()
        invariant
            i <= s.len(),
            v@ == start + s@.take(i as int),
        decreases s.len() - i,
    {
        v.push(s[i]);
        assert(s@.take(i as int + 1) == s@.take(i as int).push(s@[i as int]));
        i = i + 1;
    }
    assert(s@.take(s.len() as int) == s@);
}

/// A copy of `b[from..to]`.
pub fn copy_range(b: &[u8], from: usize, to: usize) -> (r: Vec<u8>)
    requires
        from <= to <= b@.len(),
    ensures
        r@ == b@.subrange(from as int, to as int),
{
    let mut r: Vec<u8> = Vec::new();
    let mut i: usize = from;
    while i < to
        invariant
            from <= i <= to,
            to <= b@.len(),
            r@ == b@.subrange(from as int, i as int),
        decreases to - i,
    {
        r.push(b[i]);
        assert(b@.subrange(from as int, i + 1) == b@.subrange(from as int, i as int).push(b@[i as int]));
        i = i + 1;
    }
    r
}

/// Appends the two bytes of `v`, most significant first.
pub fn push_be16(out: &mut Vec<u8>, v: u16)
    ensures
        final(out)@ == old(out)@ + be16(v),
{
    out.push((v / 256) as u8);
    out.push((v % 256) as u8);
    assert(final(out)@ =~= old(out)@ + be16(v));
}

/// Appends the four bytes of `v`, least significant first.
pub fn push_le32(out: &mut Vec<u8>, v: u32)
    ensures
        final(out)@ == old(out)@ + le32(v),
{
    out.push((v % 256) as u8);
    out.push(((v / 256) % 256) as u8);
    out.push(((v / 65536) % 256) as u8);
    out.push((v / 16777216) as u8);
    assert(final(out)@ =~= old(out)@ + le32(v));
}

/// The 16-bit number of `b[at]` and `b[at + 1]`, the first most significant.
pub fn read_be16(b: &[u8], at: usize) -> (r: u16)
    requires
        at + 2 <= b@.len(),
    ensures
        r == be16_value(b@[at as int], b@[at + 1]),
{
    (b[at] as u16) * 256 + (b[at + 1] as u16)
}

} // verus!
