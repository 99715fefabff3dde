//! The integer part of NumPy's double-precision ziggurat sampler: how one raw
//! 64-bit draw selects a layer, a sign and a 52-bit magnitude.
use vstd::prelude::*;

verus! {

/// One raw draw split into the fields the ziggurat reads.
#[derive(Clone, Copy, Debug, PartialEq, Eq, Structural)]
pub struct ZigguratDraw {
    /// The layer index, the low 8 bits of the draw.
    pub idx: usize,
    /// Whether the sample is negated, bit 8 of the draw.
    pub negative: bool,
    /// The 52-bit magnitude, bits 9 to 60 of the draw.
    pub rabs: u64,
}

impl ZigguratDraw {
    /// Splits a raw 64-bit draw: layer `r mod 256`, sign bit 8, magnitude
    /// made of the 52 bits above the sign.
    pub fn from_raw(r: u64) -> (d: Self)
        ensures
            d.idx == r % 256,
            d.negative == ((r / 256) % 2 == 1),
            d.rabs == (r / 512) % 0x10_0000_0000_0000,
    {
        let idx = (r & 0xff) as usize;
        let rest = r >> 8;
        let sign = rest & 0x1;
        let rabs = (rest >> 1) & 0x000f_ffff_ffff_ffff;
        assert(r & 0xff == r % 256) by (bit_vector);
        assert((r >> 8u64) & 0x1 == (r / 256) % 2) by (bit_vector);
        assert(((r >> 8u64) >> 1u64) & 0x000f_ffff_ffff_ffff == (r / 512) % 0x10_0000_0000_0000)
            by (bit_vector);
        ZigguratDraw { idx, negative: sign != 0, rabs }
    }

    /// Whether a sample from the tail beyond the last layer is negated: bit 8
    /// of the magnitude.
    pub fn tail_negative(&self) -> (r: bool)
        ensures
            r == ((self.rabs / 256) % 2 == 1),
    {
        let rabs = self.rabs;
        assert((rabs >> 8u64) & 0x1 == (rabs / 256) % 2) by (bit_vector);
        ((rabs >> 8) & 0x1) != 0
    }
}

} // verus!
