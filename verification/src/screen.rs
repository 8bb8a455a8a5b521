use vstd::prelude::*;
use vstd::arithmetic::div_mod::{
    lemma_div_pos_is_pos, lemma_fundamental_div_mod, lemma_fundamental_div_mod_converse,
    lemma_mod_pos_bound, lemma_multiply_divide_lt,
};
use vstd::arithmetic::mul::{lemma_mul_inequality, lemma_mul_is_commutative};
use crate::error::Error;

verus! {

/// Whether cell `i` of a row-major grid of width `gw` lies in the rectangle
/// with origin `(x, y)` and extent `(w, h)`. Cells past the grid's right or
/// bottom edge do not exist, so the rectangle is implicitly clipped to the
/// grid.
pub open spec fn in_rect(gw: int, x: int, y: int, w: int, h: int, i: int) -> bool {
    &&& x <= i % gw < x + w
    &&& y <= i / gw < y + h
}

/// The grid after every cell of the given rectangle is set to `glyph`;
/// cells outside the rectangle keep their value.
pub open spec fn fill_rect_spec(
    cells: Seq<u8>, gw: int, x: int, y: int, w: int, h: int, glyph: u8,
) -> Seq<u8> {
    Seq::new(cells.len(), |i: int| if in_rect(gw, x, y, w, h, i) { glyph } else { cells[i] })
}

/// The index into a blit's source grid (of width `w`) that feeds grid cell
/// `i`: source row `i / gw - y`, source column `i % gw - x`.
pub open spec fn blit_src_index(gw: int, x: int, y: int, w: int, i: int) -> int {
    (i / gw - y) * w + (i % gw - x)
}

/// The grid after the source grid (extent `w` × `h`, row-major) is copied
/// with its top-left corner at `(x, y)`. Cells outside the rectangle, and
/// cells whose source entry lies past the end of `src`, keep their value.
pub open spec fn blit_rect_spec(
    cells: Seq<u8>, gw: int, x: int, y: int, w: int, h: int, src: Seq<u8>,
) -> Seq<u8> {
    Seq::new(cells.len(), |i: int|
        if in_rect(gw, x, y, w, h, i) && blit_src_index(gw, x, y, w, i) < src.len() {
            src[blit_src_index(gw, x, y, w, i)]
        } else {
            cells[i]
        })
}

/// The grid in the middle of a fill: the rectangle's first `rows` rows are
/// done, and in its row `rows` the first `cols` columns are.
spec fn fill_progress(
    cells: Seq<u8>, gw: int, x: int, y: int, w: int, glyph: u8, rows: int, cols: int,
) -> Seq<u8> {
    Seq::new(cells.len(), |i: int|
        if x <= i % gw < x + w
            && (y <= i / gw < y + rows || (i / gw == y + rows && x <= i % gw < x + cols)) {
            glyph
        } else {
            cells[i]
        })
}

/// The grid in the middle of a blit, by the same measure of progress.
spec fn blit_progress(
    cells: Seq<u8>, gw: int, x: int, y: int, w: int, src: Seq<u8>, rows: int, cols: int,
) -> Seq<u8> {
    Seq::new(cells.len(), |i: int|
        if x <= i % gw < x + w
            && (y <= i / gw < y + rows || (i / gw == y + rows && x <= i % gw < x + cols))
            && blit_src_index(gw, x, y, w, i) < src.len() {
            src[blit_src_index(gw, x, y, w, i)]
        } else {
            cells[i]
        })
}

/// Filling a rectangle twice with the same arguments leaves the grid exactly
/// as filling it once does.
pub proof fn lemma_fill_rect_idempotent(
    cells: Seq<u8>, gw: int, x: int, y: int, w: int, h: int, glyph: u8,
)
    ensures
        fill_rect_spec(fill_rect_spec(cells, gw, x, y, w, h, glyph), gw, x, y, w, h, glyph)
            == fill_rect_spec(cells, gw, x, y, w, h, glyph),
{
    let once = fill_rect_spec(cells, gw, x, y, w, h, glyph);
    let twice = fill_rect_spec(once, gw, x, y, w, h, glyph);
    assert forall|i: int| 0 <= i < cells.len() implies twice[i] == once[i] by {}
    assert(twice =~= once);
}

/// A cell index splits into its row and column, both in range.
proof fn lemma_cell_coords(gw: int, gh: int, i: int)
    requires
        0 < gw,
        0 <= i < gw * gh,
    ensures
        0 <= i % gw < gw,
        0 <= i / gw < gh,
        i == (i / gw) * gw + (i % gw),
{
    lemma_fundamental_div_mod(i, gw);
    lemma_mod_pos_bound(i, gw);
    lemma_div_pos_is_pos(i, gw);
    lemma_multiply_divide_lt(i, gw, gh);
    lemma_mul_is_commutative(gw, i / gw);
}

/// Row and column determine the cell index, and the index is in range.
proof fn lemma_cell_split(gw: int, gh: int, cx: int, cy: int)
    requires
        0 <= cx < gw,
        0 <= cy < gh,
    ensures
        0 <= cy * gw + cx < gw * gh,
        (cy * gw + cx) % gw == cx,
        (cy * gw + cx) / gw == cy,
{
    lemma_fundamental_div_mod_converse(cy * gw + cx, gw, cy, cx);
    assert(cy * gw + cx < gw * gh) by (nonlinear_arith)
        requires
            0 <= cx < gw,
            0 <= cy < gh,
    ;
}

/// The glyph a freshly created screen is filled with: an ASCII space.
pub const BLANK: u8 = 32;

/// An output destination that accepts bulk byte writes: the terminal, a file,
/// or an in-memory buffer. `written()` is the sequence of bytes the sink has
/// accepted so far; a successful `write_all` appends exactly the bytes handed
/// to it. Nothing is promised of a failed write: the sink may have accepted
/// part of the data.
pub trait Sink: Sized {
    /// Impls that outside code never reasons about may keep the default.
    open spec fn written(&self) -> Seq<u8> {
        Seq::empty()
    }

    fn write_all(&mut self, data: &[u8]) -> (r: Result<(), Error>)
        ensures
            r is Ok ==> final(self).written() == old(self).written() + data@,
    ;
}

/// An in-memory sink: it keeps every byte written to it. Useful for
/// rendering off-screen and for inspecting flushed frames in tests.
pub struct MemSink {
    data: Vec<u8>,
}

impl MemSink {
    pub fn new() -> (r: MemSink)
        ensures
            r.written() == Seq::<u8>::empty(),
    {
        MemSink { data: Vec::new() }
    }

    /// The bytes accepted so far.
    pub fn data(&self) -> (r: &Vec<u8>)
        ensures
            r@ == self.written(),
    {
        &self.data
    }
}

impl Sink for MemSink {
    closed spec fn written(&self) -> Seq<u8> {
        self.data@
    }

    fn write_all(&mut self, data: &[u8]) -> (r: Result<(), Error>) {
        self.data.extend_from_slice(data);
        Ok(())
    }
}

/// A sink whose writes always fail: a stand-in for a broken output stream,
/// for exercising error paths.
pub struct BrokenSink;

impl Sink for BrokenSink {
    closed spec fn written(&self) -> Seq<u8> {
        Seq::empty()
    }

    fn write_all(&mut self, data: &[u8]) -> (r: Result<(), Error>) {
        Err(Error::IO("this sink refuses every write".to_owned()))
    }
}

/// A width × height character grid backed by a flat row-major byte array,
/// together with the sink a finished frame is flushed to. The cell at
/// column `x`, row `y` lives at index `y * width + x`.
pub struct Screen<W: Sink> {
    size: (u16, u16),
    writer: W,
    buf: Vec<u8>,
}

impl<W: Sink> Screen<W> {
    pub closed spec fn spec_width(&self) -> int {
        self.size.0 as int
    }

    pub closed spec fn spec_height(&self) -> int {
        self.size.1 as int
    }

    /// The grid contents, row-major.
    pub closed spec fn cells(&self) -> Seq<u8> {
        self.buf@
    }

    /// The sink the screen flushes to.
    pub closed spec fn sink(&self) -> W {
        self.writer
    }

    /// The cell array always covers the grid exactly.
    pub open spec fn wf(&self) -> bool {
        self.cells().len() == self.spec_width() * self.spec_height()
    }

    /// Makes a screen of the given dimensions over the given sink, with
    /// every cell blank.
    pub fn init_with_size_and_writer(size: (u16, u16), writer: W) -> (r: Result<Screen<W>, Error>)
        ensures
            r is Ok,
            r matches Ok(s) ==> {
                &&& s.wf()
                &&& s.spec_width() == size.0 as int
                &&& s.spec_height() == size.1 as int
                &&& s.sink() == writer
                &&& s.cells() == Seq::new((size.0 as int * size.1 as int) as nat, |i: int| BLANK)
            },
    {
        proof {
            vstd::arithmetic::mul::lemma_mul_inequality(size.0 as int, 65535, size.1 as int);
        }
        let n: usize = size.0 as usize * size.1 as usize;
        let mut buf: Vec<u8> = Vec::new();
        while buf.len() < n
            invariant
                buf@.len() <= n,
                buf@ =~= Seq::new(buf@.len(), |i: int| BLANK),
            decreases n - buf@.len(),
        {
            buf.push(BLANK);
        }
        Ok(Screen { size, writer, buf })
    }

    pub fn size(&self) -> (r: (u16, u16))
        ensures
            r.0 as int == self.spec_width(),
            r.1 as int == self.spec_height(),
    {
        self.size
    }

    /// Read-only view of the flat cell array.
    pub fn buffer(&self) -> (r: &[u8])
        ensures
            r@ == self.cells(),
    {
        self.buf.as_slice()
    }

    /// Mutable view of the flat cell array, for caller-driven bulk edits.
    pub fn buffer_mut(&mut self) -> (r: &mut [u8])
        ensures
            r@ == old(self).cells(),
            final(self).cells() == final(r)@,
            final(self).spec_width() == old(self).spec_width(),
            final(self).spec_height() == old(self).spec_height(),
            final(self).sink() == old(self).sink(),
    {
        self.buf.as_mut_slice()
    }

    /// Sets every cell of the rectangle with origin `coords` and extent
    /// `size` to `glyph`. The rectangle is clipped to the grid: a part that
    /// sticks out past an edge is skipped silently, never a fault.
    pub fn draw_square_byte(&mut self, coords: (u16, u16), size: (u16, u16), glyph: u8)
        requires
            old(self).wf(),
        ensures
            final(self).wf(),
            final(self).spec_width() == old(self).spec_width(),
            final(self).spec_height() == old(self).spec_height(),
            final(self).sink() == old(self).sink(),
            final(self).cells() == fill_rect_spec(
                old(self).cells(), old(self).spec_width(),
                coords.0 as int, coords.1 as int, size.0 as int, size.1 as int, glyph,
            ),
    {
        let gw: u16 = self.size.0;
        let gh: u16 = self.size.1;
        let x: u16 = coords.0;
        let y: u16 = coords.1;
        let w: u16 = size.0;
        let h: u16 = size.1;
        proof {
            assert(self.buf@ =~= fill_progress(
                self.buf@, gw as int, x as int, y as int, w as int, glyph, 0, 0));
        }
        let mut row: u16 = 0;
        while row < h
            invariant
                old(self).wf(),
                self.size == old(self).size,
                self.writer == old(self).writer,
                gw == old(self).size.0,
                gh == old(self).size.1,
                row <= h,
                self.buf@.len() == old(self).buf@.len(),
                self.buf@ == fill_progress(
                    old(self).buf@, gw as int, x as int, y as int, w as int, glyph,
                    row as int, 0),
            decreases h - row,
        {
            let yy: usize = y as usize + row as usize;
            if yy < gh as usize {
                let mut col: u16 = 0;
                while col < w
                    invariant
                        old(self).wf(),
                        self.size == old(self).size,
                        self.writer == old(self).writer,
                        gw == old(self).size.0,
                        gh == old(self).size.1,
                        yy == y as int + row as int,
                        yy < gh,
                        row < h,
                        col <= w,
                        self.buf@.len() == old(self).buf@.len(),
                        self.buf@ == fill_progress(
                            old(self).buf@, gw as int, x as int, y as int, w as int, glyph,
                            row as int, col as int),
                    decreases w - col,
                {
                    let xx: usize = x as usize + col as usize;
                    if xx < gw as usize {
                        proof {
                            lemma_cell_split(gw as int, gh as int, xx as int, yy as int);
                            lemma_mul_inequality(gw as int, 65535, gh as int);
                        }
                        let idx: usize = yy * (gw as usize) + xx;
                        self.buf[idx] = glyph;
                        proof {
                            let orig = old(self).buf@;
                            let next = fill_progress(
                                orig, gw as int, x as int, y as int, w as int, glyph,
                                row as int, col as int + 1);
                            assert forall|i: int| 0 <= i < orig.len() implies
                                self.buf@[i] == next[i] by {
                                lemma_cell_coords(gw as int, gh as int, i);
                            }
                            assert(self.buf@ =~= next);
                        }
                    } else {
                        proof {
                            let orig = old(self).buf@;
                            let prev = fill_progress(
                                orig, gw as int, x as int, y as int, w as int, glyph,
                                row as int, col as int);
                            let next = fill_progress(
                                orig, gw as int, x as int, y as int, w as int, glyph,
                                row as int, col as int + 1);
                            assert forall|i: int| 0 <= i < orig.len() implies
                                prev[i] == next[i] by {
                                lemma_cell_coords(gw as int, gh as int, i);
                            }
                            assert(prev =~= next);
                        }
                    }
                    col += 1;
                }
                proof {
                    let orig = old(self).buf@;
                    let prev = fill_progress(
                        orig, gw as int, x as int, y as int, w as int, glyph,
                        row as int, w as int);
                    let next = fill_progress(
                        orig, gw as int, x as int, y as int, w as int, glyph,
                        row as int + 1, 0);
                    assert(prev =~= next);
                }
            } else {
                proof {
                    let orig = old(self).buf@;
                    let prev = fill_progress(
                        orig, gw as int, x as int, y as int, w as int, glyph,
                        row as int, 0);
                    let next = fill_progress(
                        orig, gw as int, x as int, y as int, w as int, glyph,
                        row as int + 1, 0);
                    assert forall|i: int| 0 <= i < orig.len() implies
                        prev[i] == next[i] by {
                        assert(orig.len() == gw as int * gh as int);
                        if 0 < gw {
                            lemma_cell_coords(gw as int, gh as int, i);
                            assert(gh as int <= y as int + row as int);
                        }
                    }
                    assert(prev =~= next);
                }
            }
            row += 1;
        }
        proof {
            assert(fill_progress(
                old(self).buf@, gw as int, x as int, y as int, w as int, glyph, h as int, 0,
            ) =~= fill_rect_spec(
                old(self).buf@, gw as int, x as int, y as int, w as int, h as int, glyph));
        }
    }

    /// Copies the row-major source grid `buffer` (extent `size`) into the
    /// screen with its top-left corner at `coords`. The destination is
    /// clipped to the grid as in `draw_square_byte`, and the source is
    /// bounds-checked: where `buffer` is shorter than the rectangle, the
    /// missing cells are skipped and keep their prior value.
    pub fn draw_square_bytes(&mut self, coords: (u16, u16), size: (u16, u16), buffer: &[u8])
        requires
            old(self).wf(),
        ensures
            final(self).wf(),
            final(self).spec_width() == old(self).spec_width(),
            final(self).spec_height() == old(self).spec_height(),
            final(self).sink() == old(self).sink(),
            final(self).cells() == blit_rect_spec(
                old(self).cells(), old(self).spec_width(),
                coords.0 as int, coords.1 as int, size.0 as int, size.1 as int, buffer@,
            ),
    {
        let gw: u16 = self.size.0;
        let gh: u16 = self.size.1;
        let x: u16 = coords.0;
        let y: u16 = coords.1;
        let w: u16 = size.0;
        let h: u16 = size.1;
        proof {
            assert(self.buf@ =~= blit_progress(
                self.buf@, gw as int, x as int, y as int, w as int, buffer@, 0, 0));
        }
        let mut row: u16 = 0;
        while row < h
            invariant
                old(self).wf(),
                self.size == old(self).size,
                self.writer == old(self).writer,
                gw == old(self).size.0,
                gh == old(self).size.1,
                row <= h,
                self.buf@.len() == old(self).buf@.len(),
                self.buf@ == blit_progress(
                    old(self).buf@, gw as int, x as int, y as int, w as int, buffer@,
                    row as int, 0),
            decreases h - row,
        {
            let yy: usize = y as usize + row as usize;
            if yy < gh as usize {
                let mut col: u16 = 0;
                while col < w
                    invariant
                        old(self).wf(),
                        self.size == old(self).size,
                        self.writer == old(self).writer,
                        gw == old(self).size.0,
                        gh == old(self).size.1,
                        yy == y as int + row as int,
                        yy < gh,
                        row < h,
                        col <= w,
                        self.buf@.len() == old(self).buf@.len(),
                        self.buf@ == blit_progress(
                            old(self).buf@, gw as int, x as int, y as int, w as int, buffer@,
                            row as int, col as int),
                    decreases w - col,
                {
                    let xx: usize = x as usize + col as usize;
                    if xx < gw as usize {
                        proof {
                            lemma_cell_split(gw as int, gh as int, xx as int, yy as int);
                            lemma_mul_inequality(gw as int, 65535, gh as int);
                            lemma_mul_inequality(row as int, 65535, w as int);
                        }
                        let sidx: usize = row as usize * w as usize + col as usize;
                        if sidx < buffer.len() {
                            let idx: usize = yy * (gw as usize) + xx;
                            self.buf[idx] = buffer[sidx];
                            proof {
                                let orig = old(self).buf@;
                                let next = blit_progress(
                                    orig, gw as int, x as int, y as int, w as int, buffer@,
                                    row as int, col as int + 1);
                                assert forall|i: int| 0 <= i < orig.len() implies
                                    self.buf@[i] == next[i] by {
                                    lemma_cell_coords(gw as int, gh as int, i);
                                }
                                assert(self.buf@ =~= next);
                            }
                        } else {
                            proof {
                                let orig = old(self).buf@;
                                let prev = blit_progress(
                                    orig, gw as int, x as int, y as int, w as int, buffer@,
                                    row as int, col as int);
                                let next = blit_progress(
                                    orig, gw as int, x as int, y as int, w as int, buffer@,
                                    row as int, col as int + 1);
                                assert forall|i: int| 0 <= i < orig.len() implies
                                    prev[i] == next[i] by {
                                    lemma_cell_coords(gw as int, gh as int, i);
                                }
                                assert(prev =~= next);
                            }
                        }
                    } else {
                        proof {
                            let orig = old(self).buf@;
                            let prev = blit_progress(
                                orig, gw as int, x as int, y as int, w as int, buffer@,
                                row as int, col as int);
                            let next = blit_progress(
                                orig, gw as int, x as int, y as int, w as int, buffer@,
                                row as int, col as int + 1);
                            assert forall|i: int| 0 <= i < orig.len() implies
                                prev[i] == next[i] by {
                                assert(orig.len() == gw as int * gh as int);
                                if 0 < gw {
                                    lemma_cell_coords(gw as int, gh as int, i);
                                    assert(gw as int <= x as int + col as int);
                                }
                            }
                            assert(prev =~= next);
                        }
                    }
                    col += 1;
                }
                proof {
                    let orig = old(self).buf@;
                    let prev = blit_progress(
                        orig, gw as int, x as int, y as int, w as int, buffer@,
                        row as int, w as int);
                    let next = blit_progress(
                        orig, gw as int, x as int, y as int, w as int, buffer@,
                        row as int + 1, 0);
                    assert(prev =~= next);
                }
            } else {
                proof {
                    let orig = old(self).buf@;
                    let prev = blit_progress(
                        orig, gw as int, x as int, y as int, w as int, buffer@,
                        row as int, 0);
                    let next = blit_progress(
                        orig, gw as int, x as int, y as int, w as int, buffer@,
                        row as int + 1, 0);
                    assert forall|i: int| 0 <= i < orig.len() implies
                        prev[i] == next[i] by {
                        assert(orig.len() == gw as int * gh as int);
                        if 0 < gw {
                            lemma_cell_coords(gw as int, gh as int, i);
                            assert(gh as int <= y as int + row as int);
                        }
                    }
                    assert(prev =~= next);
                }
            }
            row += 1;
        }
        proof {
            assert(blit_progress(
                old(self).buf@, gw as int, x as int, y as int, w as int, buffer@, h as int, 0,
            ) =~= blit_rect_spec(
                old(self).buf@, gw as int, x as int, y as int, w as int, h as int, buffer@));
        }
    }

    /// Read-only view of the sink.
    pub fn writer(&self) -> (r: &W)
        ensures
            *r == self.sink(),
    {
        &self.writer
    }

    /// Flushes the whole grid to the sink in one bulk write, left-to-right,
    /// top-to-bottom. The grid itself is left as it was.
    pub fn finish(&mut self) -> (r: Result<(), Error>)
        ensures
            final(self).cells() == old(self).cells(),
            final(self).spec_width() == old(self).spec_width(),
            final(self).spec_height() == old(self).spec_height(),
            r is Ok ==> final(self).sink().written()
                == old(self).sink().written() + old(self).cells(),
    {
        self.writer.write_all(self.buf.as_slice())
    }
}

} // verus!
