use vstd::prelude::*;

verus! {

/// A 24-bit RGB color: one byte per channel, no alpha.
#[derive(Clone, Copy, PartialEq, Eq, Structural, Debug)]
pub struct Color {
    pub r: u8,
    pub g: u8,
    pub b: u8,
}

impl Color {
    pub fn new(r: u8, g: u8, b: u8) -> (c: Color)
        ensures
            c.r == r,
            c.g == g,
            c.b == b,
    {
        Color { r, g, b }
    }
}

/// The color packed for the wire: green in the top byte, then red, then blue.
pub open spec fn spec_packed(c: Color) -> u32 {
    ((c.g as u32) << 16) | ((c.r as u32) << 8) | (c.b as u32)
}

/// Bit `i` of `v`.
pub open spec fn spec_bit(v: u32, i: u32) -> bool
    recommends
        i < 32,
{
    (v >> i) & 1 == 1
}

/// The low `n` bits of `v`, most significant first.
pub open spec fn spec_bits_msb(v: u32, n: u32) -> Seq<bool>
    recommends
        n <= 32,
{
    Seq::new(n as nat, |k: int| spec_bit(v, (n - 1 - k) as u32))
}

/// A mask of the low `n` bits.
pub open spec fn spec_low_mask(n: u32) -> u32
    recommends
        n <= 31,
{
    ((1u32 << n) - 1) as u32
}

/// The value a bit sequence encodes when read most-significant-bit first.
pub open spec fn spec_decode_msb(s: Seq<bool>) -> int
    decreases s.len(),
{
    if s.len() == 0 {
        0
    } else {
        spec_decode_msb(s.drop_last()) * 2 + if s.last() {
            1int
        } else {
            0int
        }
    }
}

/// Pack `c` in the protocol's Green-Red-Blue channel order.
pub fn packed_grb(c: Color) -> (v: u32)
    ensures
        v == spec_packed(c),
        v < 0x1000000,
{
    proof {
        lemma_packed_bound(c);
    }
    ((c.g as u32) << 16) | ((c.r as u32) << 8) | (c.b as u32)
}

/// The packed value stays below 2^24.
pub proof fn lemma_packed_bound(c: Color)
    ensures
        spec_packed(c) < 0x1000000,
{
    let g = c.g as u32;
    let r = c.r as u32;
    let b = c.b as u32;
    assert((g << 16) | (r << 8) | b < 0x1000000) by (bit_vector)
        requires
            g < 0x100,
            r < 0x100,
            b < 0x100,
    ;
}

/// The packed value is the familiar sum `g * 2^16 + r * 2^8 + b`.
pub proof fn lemma_packed_arith(c: Color)
    ensures
        spec_packed(c) == (c.g as int) * 0x10000 + (c.r as int) * 0x100 + (c.b as int),
{
    let g = c.g as u32;
    let r = c.r as u32;
    let b = c.b as u32;
    assert((g << 16) | (r << 8) | b == g * 0x10000 + r * 0x100 + b) by (bit_vector)
        requires
            g < 0x100,
            r < 0x100,
            b < 0x100,
    ;
}

/// Two colors that pack to the same wire value are the same color.
pub proof fn lemma_packed_injective(c1: Color, c2: Color)
    requires
        spec_packed(c1) == spec_packed(c2),
    ensures
        c1 == c2,
{
    let g1 = c1.g as u32;
    let r1 = c1.r as u32;
    let b1 = c1.b as u32;
    let g2 = c2.g as u32;
    let r2 = c2.r as u32;
    let b2 = c2.b as u32;
    assert(g1 == g2 && r1 == r2 && b1 == b2) by (bit_vector)
        requires
            g1 < 0x100,
            r1 < 0x100,
            b1 < 0x100,
            g2 < 0x100,
            r2 < 0x100,
            b2 < 0x100,
            (g1 << 16) | (r1 << 8) | b1 == (g2 << 16) | (r2 << 8) | b2,
    ;
}

/// Reading the low `n` bits of `v` most-significant-bit first and decoding
/// them gives back those `n` bits of `v`.
pub proof fn lemma_decode_bits(v: u32, n: u32)
    requires
        n <= 24,
    ensures
        spec_decode_msb(spec_bits_msb(v, n)) == v & spec_low_mask(n),
    decreases n,
{
    if n == 0 {
        assert(spec_bits_msb(v, 0).len() == 0);
        assert(v & spec_low_mask(0) == 0) by (bit_vector);
    } else {
        let m = (n - 1) as u32;
        lemma_decode_bits(v >> 1, m);
        let s = spec_bits_msb(v, n);
        let s1 = spec_bits_msb(v >> 1, m);
        assert forall|k: int| 0 <= k < m implies s.drop_last()[k] == s1[k] by {
            let j = (m - 1 - k) as u32;
            assert(((v >> 1) >> j) & 1 == (v >> (j + 1)) & 1) by (bit_vector)
                requires
                    j < 31,
            ;
            assert(s1[k] == spec_bit(v >> 1, j));
            assert(s.drop_last()[k] == spec_bit(v, (j + 1) as u32));
        }
        assert(s.drop_last() =~= s1);
        assert(s.last() == spec_bit(v, 0));
        let low: int = if spec_bit(v, 0) {
            1int
        } else {
            0int
        };
        assert(spec_decode_msb(s) == spec_decode_msb(s1) * 2 + low);
        assert(((v >> 1) & spec_low_mask(m)) * 2 + (if (v >> 0u32) & 1 == 1 {
            1int
        } else {
            0int
        }) == v & spec_low_mask(n)) by (bit_vector)
            requires
                1 <= n <= 24,
                m == n - 1,
        ;
    }
}

/// Decoding the 24 emitted bit selections most-significant-bit first
/// reconstructs exactly the packed Green-Red-Blue value.
pub proof fn lemma_decode_packed(c: Color)
    ensures
        spec_decode_msb(spec_bits_msb(spec_packed(c), 24)) == spec_packed(c),
{
    let v = spec_packed(c);
    lemma_packed_bound(c);
    lemma_decode_bits(v, 24);
    assert(v & spec_low_mask(24) == v) by (bit_vector)
        requires
            v < 0x1000000,
    ;
}

} // verus!
