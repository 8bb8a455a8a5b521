use vstd::prelude::*;
use vstd::arithmetic::mul::lemma_mul_inequality;
use fast_image_resize::Resizer;
use fast_image_resize::images::{TypedImage, TypedImageRef};
use fast_image_resize::pixels::U16;
use rayon::iter::{IntoParallelRefIterator, ParallelIterator};
use crate::error::Error;
use crate::ramp::{GlyphRamp, ramp_index};

verus! {

/// The glyph grid a pixel grid maps to: each brightness is replaced by the
/// ramp glyph at its index, position by position.
pub open spec fn glyph_grid(pixels: Seq<u16>, ramp: Seq<u8>) -> Seq<u8> {
    Seq::new(pixels.len(), |i: int| ramp[ramp_index(pixels[i] as int, ramp.len() as int)])
}

/// The pixel grid that resampling a `src_w` × `src_h` grayscale grid to
/// `dst_w` × `dst_h` produces. The result depends on the source pixels and
/// the two sizes alone; it is pinned down only by the resampler itself.
pub uninterp spec fn resample_of(
    pixels: Seq<u16>, src_w: int, src_h: int, dst_w: int, dst_h: int,
) -> Seq<u16>;

/// Relies on fast_image_resize's `Resizer::resize_typed` over single-channel
/// `u16` pixels, with its default options (Lanczos3 convolution): it fills
/// the whole `dst_w` × `dst_h` destination, computes in fixed-point integer
/// arithmetic from the source pixels and the two sizes alone, and copies the
/// source unchanged when the sizes already match.
#[verifier::external_body]
fn resample(pixels: &Vec<u16>, src_w: u32, src_h: u32, dst_w: u32, dst_h: u32) -> (r: Vec<u16>)
    requires
        pixels@.len() == src_w as int * src_h as int,
        1 <= src_w,
        1 <= src_h,
        1 <= dst_w,
        1 <= dst_h,
        dst_w as int * dst_h as int <= usize::MAX as int,
    ensures
        r@.len() == dst_w as int * dst_h as int,
        r@ == resample_of(
            pixels@, src_w as int, src_h as int, dst_w as int, dst_h as int),
        src_w == dst_w && src_h == dst_h ==> r@ == pixels@,
{
    let src_px: Vec<U16> = pixels.iter().map(|p| U16::new(*p)).collect();
    let src = TypedImageRef::new(src_w, src_h, &src_px).unwrap();
    let mut dst = TypedImage::<U16>::new(dst_w, dst_h);
    let mut resizer = Resizer::new();
    resizer.resize_typed(&src, &mut dst, None).unwrap();
    dst.pixels().iter().map(|p| p.0).collect()
}

/// Relies on rayon's `par_iter().map(..).collect()` over a slice: an indexed
/// parallel map whose collected order matches the source order whatever the
/// worker count, so element `i` of the result is the closure applied to
/// pixel `i`. The closure only calls the verified `GlyphRamp::glyph_for`.
#[verifier::external_body]
fn par_glyphs(pixels: &Vec<u16>, ramp: &GlyphRamp) -> (r: Vec<u8>)
    requires
        ramp.wf(),
    ensures
        r@ == glyph_grid(pixels@, ramp@),
{
    pixels.par_iter().map(|b| ramp.glyph_for(*b)).collect()
}

/// Maps each pixel's brightness to its ramp glyph, in row-major order: the
/// sequential form of the same per-pixel map.
pub fn glyphs_of_pixels(pixels: &Vec<u16>, ramp: &GlyphRamp) -> (r: Vec<u8>)
    requires
        ramp.wf(),
    ensures
        r@ == glyph_grid(pixels@, ramp@),
{
    let mut out: Vec<u8> = Vec::new();
    let mut k: usize = 0;
    while k < pixels.len()
        invariant
            ramp.wf(),
            k <= pixels@.len(),
            out@.len() == k,
            forall|i: int| 0 <= i < k ==> out@[i] == glyph_grid(pixels@, ramp@)[i],
        decreases pixels@.len() - k,
    {
        out.push(ramp.glyph_for(pixels[k]));
        k += 1;
    }
    proof {
        assert(out@ =~= glyph_grid(pixels@, ramp@));
    }
    out
}

/// A source of glyph grids: anything that can render itself as ASCII at a
/// caller-chosen resolution.
pub trait Sprite {
    fn to_ascii(&self, dst_size: (u16, u16)) -> Result<Vec<u8>, Error>;
}

/// A decoded grayscale image: a row-major grid of `u16` brightness values.
pub struct ImageSprite {
    width: u32,
    height: u32,
    pixels: Vec<u16>,
}

impl ImageSprite {
    pub closed spec fn spec_width(&self) -> int {
        self.width as int
    }

    pub closed spec fn spec_height(&self) -> int {
        self.height as int
    }

    /// The source pixels, row-major.
    pub closed spec fn pixels(&self) -> Seq<u16> {
        self.pixels@
    }

    /// A sprite always covers at least one pixel, and its pixel array
    /// matches its dimensions exactly.
    #[verifier::type_invariant]
    pub open spec fn wf(&self) -> bool {
        &&& 1 <= self.spec_width()
        &&& 1 <= self.spec_height()
        &&& self.pixels().len() == self.spec_width() * self.spec_height()
    }

    /// Makes a sprite from a decoded grayscale pixel grid: `width * height`
    /// brightness values, row-major.
    pub fn new(width: u32, height: u32, pixels: Vec<u16>) -> (r: Result<ImageSprite, Error>)
        ensures
            r is Ok <==> (1 <= width && 1 <= height
                && pixels@.len() == width as int * height as int),
            r matches Ok(s) ==> {
                &&& s.spec_width() == width as int
                &&& s.spec_height() == height as int
                &&& s.pixels() == pixels@
            },
    {
        proof {
            lemma_mul_inequality(width as int, 0xffff_ffff, height as int);
        }
        if width >= 1 && height >= 1
            && pixels.len() as u64 == width as u64 * height as u64 {
            Ok(ImageSprite { width, height, pixels })
        } else {
            Err(Error::Image(
                "a sprite needs nonzero dimensions and one pixel per cell".to_owned()))
        }
    }

    /// Resamples the source to exactly `dst_size` and maps each resampled
    /// pixel's brightness to a glyph of `ramp`. Fails only when either
    /// target axis is zero. A target that matches the source size leaves
    /// the pixels as they are, so the conversion is exactly the per-pixel
    /// glyph map. The result is a function of the source pixels,
    /// the target size and the ramp alone, however the per-pixel map is
    /// scheduled, so repeated conversions agree byte for byte.
    pub fn to_ascii_with_ramp(&self, dst_size: (u16, u16), ramp: &GlyphRamp)
        -> (r: Result<Vec<u8>, Error>)
        requires
            ramp.wf(),
        ensures
            r is Ok <==> (1 <= dst_size.0 && 1 <= dst_size.1),
            r matches Ok(g) ==> {
                &&& g@ == glyph_grid(
                    resample_of(
                        self.pixels(), self.spec_width(), self.spec_height(),
                        dst_size.0 as int, dst_size.1 as int),
                    ramp@)
                &&& g@.len() == dst_size.0 as int * dst_size.1 as int
            },
            dst_size.0 as int == self.spec_width() && dst_size.1 as int == self.spec_height()
                ==> (r matches Ok(g) ==> g@ == glyph_grid(self.pixels(), ramp@)),
            r matches Err(e) ==> e is Image,
    {
        if dst_size.0 == 0 || dst_size.1 == 0 {
            return Err(Error::Image(
                "the target size must be at least 1 in both axes".to_owned()));
        }
        proof {
            use_type_invariant(&*self);
            lemma_mul_inequality(dst_size.0 as int, 65535, dst_size.1 as int);
        }
        let resampled = resample(
            &self.pixels, self.width, self.height,
            dst_size.0 as u32, dst_size.1 as u32);
        Ok(par_glyphs(&resampled, ramp))
    }

    /// Resamples to `dst_size` and maps brightness through the default
    /// density ramp.
    pub fn to_ascii(&self, dst_size: (u16, u16)) -> (r: Result<Vec<u8>, Error>)
        ensures
            r is Ok <==> (1 <= dst_size.0 && 1 <= dst_size.1),
            r matches Ok(g) ==> {
                &&& g@ == glyph_grid(
                    resample_of(
                        self.pixels(), self.spec_width(), self.spec_height(),
                        dst_size.0 as int, dst_size.1 as int),
                    crate::ramp::density_seq())
                &&& g@.len() == dst_size.0 as int * dst_size.1 as int
            },
            dst_size.0 as int == self.spec_width() && dst_size.1 as int == self.spec_height()
                ==> (r matches Ok(g) ==> g@ == glyph_grid(
                    self.pixels(), crate::ramp::density_seq())),
            r matches Err(e) ==> e is Image,
    {
        let ramp = GlyphRamp::density();
        self.to_ascii_with_ramp(dst_size, &ramp)
    }
}

impl Sprite for ImageSprite {
    fn to_ascii(&self, dst_size: (u16, u16)) -> Result<Vec<u8>, Error> {
        ImageSprite::to_ascii(self, dst_size)
    }
}

} // verus!
