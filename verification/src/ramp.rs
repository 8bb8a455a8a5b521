use vstd::prelude::*;
use vstd::arithmetic::div_mod::{lemma_div_is_ordered, lemma_div_multiples_vanish};
use vstd::arithmetic::mul::{lemma_mul_inequality, lemma_mul_is_commutative, lemma_mul_nonnegative};
use crate::error::Error;

verus! {

/// The ramp index chosen for brightness `b` (out of the maximum representable
/// brightness `u16::MAX`) with a ramp of `n` glyphs. This is
/// `floor((b / u16::MAX) * (n - 1))`, which for integer `b` equals
/// `b * (n - 1) / u16::MAX`.
pub open spec fn ramp_index(b: int, n: int) -> int {
    b * (n - 1) / (u16::MAX as int)
}

/// The chosen index never leaves the ramp, and the two extreme brightness
/// values land exactly on the two ends of the ramp.
pub proof fn lemma_ramp_index_bounds(b: int, n: int)
    requires
        0 <= b <= u16::MAX,
        1 <= n,
    ensures
        0 <= ramp_index(b, n) < n,
        b == 0 ==> ramp_index(b, n) == 0,
        b == u16::MAX ==> ramp_index(b, n) == n - 1,
{
    let max = u16::MAX as int;
    lemma_mul_nonnegative(b, n - 1);
    lemma_div_is_ordered(0, b * (n - 1), max);
    lemma_mul_inequality(b, max, n - 1);
    lemma_div_is_ordered(b * (n - 1), max * (n - 1), max);
    lemma_mul_is_commutative(max, n - 1);
    lemma_div_multiples_vanish(n - 1, max);
}

/// The brightness-to-index mapping is monotone: a brighter pixel never maps
/// to a sparser glyph.
pub proof fn lemma_ramp_index_monotonic(b1: int, b2: int, n: int)
    requires
        0 <= b1 <= b2,
        1 <= n,
    ensures
        ramp_index(b1, n) <= ramp_index(b2, n),
{
    lemma_mul_inequality(b1, b2, n - 1);
    lemma_div_is_ordered(b1 * (n - 1), b2 * (n - 1), u16::MAX as int);
}

/// The glyphs of the default ramp, ordered from sparse to dense ink coverage:
/// the bytes of
/// ``` `^",:;Il!i~+_-?][}{1)(|\/tfjrxnuvczXYUJCLQ0OZmwqpdbkhao*#MW&8%B@$```
/// with a leading space.
pub open spec fn density_seq() -> Seq<u8> {
    seq![
        32u8, 96, 94, 34, 44, 58, 59, 73, 108, 33, 105, 126, 43, 95,
        45, 63, 93, 91, 125, 123, 49, 41, 40, 124, 92, 47, 116, 102,
        106, 114, 120, 110, 117, 118, 99, 122, 88, 89, 85, 74, 67, 76,
        81, 48, 79, 90, 109, 119, 113, 112, 100, 98, 107, 104, 97, 111,
        42, 35, 77, 87, 38, 56, 37, 66, 64, 36,
    ]
}

/// An ordered ramp of glyphs, index 0 the sparsest and the last index the
/// densest. The contents are fixed at construction.
pub struct GlyphRamp {
    glyphs: Vec<u8>,
}

impl View for GlyphRamp {
    type V = Seq<u8>;

    closed spec fn view(&self) -> Seq<u8> {
        self.glyphs@
    }
}

impl GlyphRamp {
    /// A usable ramp holds at least one glyph and at most 256: the glyphs are
    /// single bytes, so no more than 256 distinct ones exist.
    pub open spec fn wf(&self) -> bool {
        1 <= self@.len() <= 256
    }

    pub fn new(glyphs: Vec<u8>) -> (r: Result<GlyphRamp, Error>)
        ensures
            r is Ok <==> 1 <= glyphs@.len() <= 256,
            r matches Ok(ramp) ==> ramp@ == glyphs@ && ramp.wf(),
    {
        if 1 <= glyphs.len() && glyphs.len() <= 256 {
            Ok(GlyphRamp { glyphs })
        } else {
            Err(Error::Other("a glyph ramp must hold between 1 and 256 glyphs".to_owned()))
        }
    }

    pub fn len(&self) -> (r: usize)
        ensures
            r == self@.len(),
    {
        self.glyphs.len()
    }

    pub fn glyph(&self, i: usize) -> (r: u8)
        requires
            i < self@.len(),
        ensures
            r == self@[i as int],
    {
        self.glyphs[i]
    }

    /// The glyph this ramp assigns to brightness `b`.
    pub open spec fn spec_glyph_for(&self, b: u16) -> u8
        recommends
            self.wf(),
    {
        self@[ramp_index(b as int, self@.len() as int)]
    }

    /// The fixed default ramp: 66 ASCII glyphs ordered from blank to dense.
    pub fn density() -> (r: GlyphRamp)
        ensures
            r@ == density_seq(),
            r.wf(),
    {
        let glyphs: Vec<u8> = vec![
            32u8, 96, 94, 34, 44, 58, 59, 73, 108, 33, 105, 126, 43, 95,
            45, 63, 93, 91, 125, 123, 49, 41, 40, 124, 92, 47, 116, 102,
            106, 114, 120, 110, 117, 118, 99, 122, 88, 89, 85, 74, 67, 76,
            81, 48, 79, 90, 109, 119, 113, 112, 100, 98, 107, 104, 97, 111,
            42, 35, 77, 87, 38, 56, 37, 66, 64, 36,
        ];
        proof {
            assert(glyphs@ =~= density_seq());
        }
        GlyphRamp { glyphs }
    }

    /// The ramp index brightness `b` maps to.
    pub fn index_for(&self, b: u16) -> (r: usize)
        requires
            self.wf(),
        ensures
            r == ramp_index(b as int, self@.len() as int),
            r < self@.len(),
            b == 0 ==> r == 0,
            b == u16::MAX ==> r == self@.len() - 1,
    {
        proof {
            lemma_ramp_index_bounds(b as int, self@.len() as int);
        }
        ((b as u64 * (self.glyphs.len() as u64 - 1)) / (u16::MAX as u64)) as usize
    }

    pub fn glyph_for(&self, b: u16) -> (r: u8)
        requires
            self.wf(),
        ensures
            r == self.spec_glyph_for(b),
    {
        let idx: usize = self.index_for(b);
        self.glyphs[idx]
    }
}

} // verus!
