//! ASCII-art rendering: an in-memory character grid that mirrors a terminal
//! screen, and a converter that turns a grayscale pixel grid into glyphs
//! drawn from a density-ordered ramp.

mod error;
mod ramp;
mod screen;
mod session;
mod sprite;

pub use error::Error;
pub use session::{TerminalPort, ProbePort, present_frame};
pub use screen::{
    Screen, Sink, MemSink, BrokenSink, BLANK,
    in_rect, fill_rect_spec, blit_src_index, blit_rect_spec, lemma_fill_rect_idempotent,
};
pub use sprite::{Sprite, ImageSprite, glyph_grid, resample_of, glyphs_of_pixels};
pub use ramp::{GlyphRamp, ramp_index, density_seq, lemma_ramp_index_bounds, lemma_ramp_index_monotonic};
