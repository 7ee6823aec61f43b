//! Dense row-major pixel grids with clamp-by-ignoring bounds policy.
//!
//! A grid owns `width * height` colors in row-major order (`y` outer, `x`
//! inner). Out-of-range reads return nothing and out-of-range writes are
//! silently dropped: clamping, not an error. A grid built from a wire buffer
//! is filled up to the available whole pixel records; the remainder keeps the
//! default color.

use vstd::arithmetic::div_mod::{
    lemma_div_is_ordered, lemma_div_multiples_vanish, lemma_fundamental_div_mod, lemma_mod_bound,
    lemma_multiply_divide_lt,
};
use vstd::arithmetic::mul::lemma_mul_inequality;
use vstd::prelude::*;

use crate::color::{spec_from_slice, spec_merge_alpha, Color, ColorMode, CHANNEL_ONE};

verus! {

/// Mathematical model of a grid: its dimensions and the row-major cells.
#[verifier::ext_equal]
pub ghost struct GridView {
    pub width: int,
    pub height: int,
    pub cells: Seq<Color>,
}

/// The smaller of two integers.
pub open spec fn min_int(a: int, b: int) -> int {
    if a < b {
        a
    } else {
        b
    }
}

/// Column of the cell at row-major position `i` in a grid of width `w`.
pub open spec fn cell_x(w: int, i: int) -> int {
    i % w
}

/// Row of the cell at row-major position `i` in a grid of width `w`.
pub open spec fn cell_y(w: int, i: int) -> int {
    i / w
}

impl GridView {
    /// The cells cover the whole rectangle and every cell is a valid color.
    pub open spec fn wf(self) -> bool {
        &&& 0 <= self.width <= u32::MAX
        &&& 0 <= self.height <= u32::MAX
        &&& self.width * self.height <= usize::MAX
        &&& self.cells.len() == self.width * self.height
        &&& forall|i: int| 0 <= i < self.cells.len() ==> (#[trigger] self.cells[i]).valid()
    }

    pub open spec fn in_bounds(self, x: int, y: int) -> bool {
        0 <= x < self.width && 0 <= y < self.height
    }

    /// Row-major position of `(x, y)`.
    pub open spec fn index(self, x: int, y: int) -> int {
        y * self.width + x
    }

    pub open spec fn at(self, x: int, y: int) -> Color {
        self.cells[self.index(x, y)]
    }

    /// The cell at `(x, y)`, or the default color when out of bounds.
    pub open spec fn at_or_default(self, x: int, y: int) -> Color {
        if self.in_bounds(x, y) {
            self.at(x, y)
        } else {
            Color::spec_default()
        }
    }

    /// A grid of the given dimensions holding the default color everywhere.
    pub open spec fn blank(width: int, height: int) -> GridView {
        GridView {
            width,
            height,
            cells: Seq::new((width * height) as nat, |i: int| Color::spec_default()),
        }
    }
}

/// The color that cell `i` of a grid decoded from `buf` holds: the `i`-th
/// pixel record if `buf` contains it whole, the default color otherwise.
pub open spec fn spec_buffer_cell(buf: Seq<u8>, mode: ColorMode, i: int) -> Color {
    if (i + 1) * mode.spec_size() <= buf.len() {
        spec_from_slice(buf.skip(i * mode.spec_size()), mode)
    } else {
        Color::spec_default()
    }
}

/// The grid a wire buffer decodes to at the given dimensions.
pub open spec fn spec_from_buffer(width: int, height: int, buf: Seq<u8>, mode: ColorMode) -> GridView {
    GridView {
        width,
        height,
        cells: Seq::new((width * height) as nat, |i: int| spec_buffer_cell(buf, mode, i)),
    }
}

/// The grid whose every cell is `a`'s cell merged with the matching cell of
/// `b` (or the default color where `b` has none) at opacity `alpha`.
pub open spec fn spec_overlay(a: GridView, b: GridView, alpha: int) -> GridView {
    GridView {
        width: a.width,
        height: a.height,
        cells: Seq::new(
            a.cells.len(),
            |i: int|
                spec_merge_alpha(
                    a.cells[i],
                    b.at_or_default(cell_x(a.width, i), cell_y(a.width, i)),
                    alpha,
                ),
        ),
    }
}

/// What the cell `(cx, cy)` of `dst` holds after `src` is stamped at origin
/// `(px, py)` with clamping: cells under the clipped rectangle take the
/// matching `src` cell, the rest keep their color.
pub open spec fn spec_replace_cell(
    dst: GridView,
    src: GridView,
    px: int,
    py: int,
    cx: int,
    cy: int,
) -> Color {
    let x1 = min_int(px, dst.width);
    let y1 = min_int(py, dst.height);
    let x2 = min_int(x1 + src.width, dst.width);
    let y2 = min_int(y1 + src.height, dst.height);
    if x1 <= cx < x2 && y1 <= cy < y2 {
        src.at(cx - x1, cy - y1)
    } else {
        dst.at(cx, cy)
    }
}

/// A cell inside the rectangle lies inside the row-major range.
pub proof fn lemma_grid_index(w: int, h: int, x: int, y: int)
    requires
        0 <= x < w,
        0 <= y < h,
    ensures
        0 <= y * w + x < w * h,
{
    assert(0 <= y * w + x < w * h) by (nonlinear_arith)
        requires
            0 <= x < w,
            0 <= y < h,
    ;
}

/// Distinct cells of the rectangle have distinct row-major positions.
pub proof fn lemma_grid_index_injective(w: int, x1: int, y1: int, x2: int, y2: int)
    requires
        0 <= x1 < w,
        0 <= x2 < w,
        0 <= y1,
        0 <= y2,
        y1 * w + x1 == y2 * w + x2,
    ensures
        x1 == x2 && y1 == y2,
{
    assert(x1 == x2 && y1 == y2) by (nonlinear_arith)
        requires
            0 <= x1 < w,
            0 <= x2 < w,
            0 <= y1,
            0 <= y2,
            y1 * w + x1 == y2 * w + x2,
    ;
}

/// A row-major position splits into a column below `w` and a row below `h`.
pub proof fn lemma_grid_decompose(w: int, h: int, i: int)
    requires
        w > 0,
        0 <= i < w * h,
    ensures
        0 <= cell_x(w, i) < w,
        0 <= cell_y(w, i) < h,
        cell_y(w, i) * w + cell_x(w, i) == i,
{
    lemma_mod_bound(i, w);
    lemma_fundamental_div_mod(i, w);
    lemma_multiply_divide_lt(i, w, h);
    vstd::arithmetic::div_mod::lemma_div_pos_is_pos(i, w);
    assert(w * (i / w) == (i / w) * w) by (nonlinear_arith);
}

/// A buffer holds the whole record `i` exactly when `i` is below the count
/// of whole records `len / k`.
proof fn lemma_records_available(len: int, k: int, i: int)
    requires
        k > 0,
        0 <= i,
        0 <= len,
    ensures
        ((i + 1) * k <= len) <==> (i + 1 <= len / k),
{
    if (i + 1) * k <= len {
        lemma_div_is_ordered((i + 1) * k, len, k);
        lemma_div_multiples_vanish(i + 1, k);
        assert((i + 1) * k == k * (i + 1));
    }
    if i + 1 <= len / k {
        lemma_fundamental_div_mod(len, k);
        lemma_mod_bound(len, k);
        lemma_mul_inequality(i + 1, len / k, k);
        assert((len / k) * k == k * (len / k)) by (nonlinear_arith);
    }
}

/// A dense row-major grid of colors with fixed dimensions.
#[derive(Clone)]
pub struct Pixels {
    width: u32,
    height: u32,
    data: Vec<Color>,
}

impl View for Pixels {
    type V = GridView;

    closed spec fn view(&self) -> GridView {
        GridView { width: self.width as int, height: self.height as int, cells: self.data@ }
    }
}

impl Pixels {
    /// A grid of the given size filled with the default color.
    pub fn new(size: (u32, u32)) -> (r: Pixels)
        requires
            (size.0 as int) * (size.1 as int) <= usize::MAX as int,
        ensures
            r@ == GridView::blank(size.0 as int, size.1 as int),
            r@.wf(),
    {
        let n: usize = (size.0 as usize) * (size.1 as usize);
        let mut data: Vec<Color> = Vec::new();
        while data.len() < n
            invariant
                data@.len() <= n,
                forall|i: int| 0 <= i < data@.len() ==> data@[i] == Color::spec_default(),
            decreases n - data@.len(),
        {
            data.push(Color::default());
        }
        let r = Pixels { width: size.0, height: size.1, data };
        proof {
            assert(r@.cells =~= GridView::blank(size.0 as int, size.1 as int).cells);
        }
        r
    }

    /// Decode a wire buffer into a grid: whole pixel records fill the cells
    /// in row-major order, the remainder keeps the default color. An
    /// undersized buffer is not an error.
    pub fn from_buffer(size: (u32, u32), buffer: Vec<u8>, mode: ColorMode) -> (r: Pixels)
        requires
            (size.0 as int) * (size.1 as int) <= usize::MAX as int,
        ensures
            r@ == spec_from_buffer(size.0 as int, size.1 as int, buffer@, mode),
            r@.wf(),
    {
        let k: usize = mode.size();
        let n: usize = (size.0 as usize) * (size.1 as usize);
        let avail: usize = buffer.len() / k;
        let m: usize = if avail < n {
            avail
        } else {
            n
        };
        proof {
            lemma_div_is_ordered(0, buffer@.len() as int, k as int);
        }
        let mut data: Vec<Color> = Vec::new();
        let mut i: usize = 0;
        while i < m
            invariant
                i <= m,
                m <= n,
                m <= buffer@.len() as int / k as int,
                buffer@.len() <= usize::MAX,
                3 <= k <= 4,
                k == mode.spec_size(),
                data@.len() == i,
                forall|j: int|
                    0 <= j < i ==> #[trigger] data@[j] == spec_buffer_cell(buffer@, mode, j)
                        && data@[j].valid(),
            decreases m - i,
        {
            proof {
                lemma_records_available(buffer@.len() as int, k as int, i as int);
                lemma_mul_inequality(i as int + 1, buffer@.len() as int / k as int, k as int);
                lemma_fundamental_div_mod(buffer@.len() as int, k as int);
                lemma_mod_bound(buffer@.len() as int, k as int);
                assert((buffer@.len() as int / k as int) * k as int == k as int * (buffer@.len()
                    as int / k as int)) by (nonlinear_arith);
                assert((i as int) * (k as int) < (i as int + 1) * (k as int)) by (nonlinear_arith)
                    requires
                        k > 0,
                        i >= 0,
                ;
            }
            let off: usize = i * k;
            let sl = vstd::slice::slice_subrange(buffer.as_slice(), off, buffer.len());
            let c = Color::from_slice(sl, mode);
            proof {
                assert(buffer@.skip(off as int) =~= buffer@.subrange(
                    off as int,
                    buffer@.len() as int,
                ));
            }
            data.push(c);
            i += 1;
        }
        while i < n
            invariant
                m <= i <= n,
                m <= buffer@.len() as int / k as int,
                avail == buffer@.len() as int / k as int,
                m == min_int(n as int, avail as int),
                3 <= k <= 4,
                k == mode.spec_size(),
                data@.len() == i,
                forall|j: int|
                    0 <= j < i ==> #[trigger] data@[j] == spec_buffer_cell(buffer@, mode, j)
                        && data@[j].valid(),
            decreases n - i,
        {
            proof {
                lemma_records_available(buffer@.len() as int, k as int, i as int);
            }
            data.push(Color::default());
            i += 1;
        }
        let r = Pixels { width: size.0, height: size.1, data };
        proof {
            assert(r@.cells =~= spec_from_buffer(
                size.0 as int,
                size.1 as int,
                buffer@,
                mode,
            ).cells);
        }
        r
    }

    pub fn width(&self) -> (w: u32)
        ensures
            w == self@.width,
    {
        self.width
    }

    pub fn height(&self) -> (h: u32)
        ensures
            h == self@.height,
    {
        self.height
    }

    pub fn size(&self) -> (s: (u32, u32))
        ensures
            s.0 == self@.width,
            s.1 == self@.height,
    {
        (self.width, self.height)
    }

    /// The color at `(x, y)`, or nothing when out of bounds.
    pub fn get(&self, x: u32, y: u32) -> (c: Option<Color>)
        requires
            self@.wf(),
        ensures
            c == if self@.in_bounds(x as int, y as int) {
                Some(self@.at(x as int, y as int))
            } else {
                None::<Color>
            },
            c matches Some(col) ==> col.valid(),
    {
        if x < self.width && y < self.height {
            proof {
                lemma_grid_index(self@.width, self@.height, x as int, y as int);
            }
            let idx: usize = (y as usize) * (self.width as usize) + (x as usize);
            Some(self.data[idx])
        } else {
            None
        }
    }

    /// Write `color` at `(x, y)`; a write out of bounds is dropped.
    pub fn set(&mut self, x: u32, y: u32, color: Color)
        requires
            old(self)@.wf(),
            color.valid(),
        ensures
            final(self)@.wf(),
            final(self)@.width == old(self)@.width,
            final(self)@.height == old(self)@.height,
            old(self)@.in_bounds(x as int, y as int) ==> final(self)@.cells == old(
                self,
            )@.cells.update(old(self)@.index(x as int, y as int), color),
            !old(self)@.in_bounds(x as int, y as int) ==> *final(self) == *old(self),
            forall|cx: int, cy: int|
                old(self)@.in_bounds(cx, cy) ==> #[trigger] final(self)@.at(cx, cy) == (if cx == x
                    as int && cy == y as int {
                    color
                } else {
                    old(self)@.at(cx, cy)
                }),
    {
        if x < self.width && y < self.height {
            proof {
                lemma_grid_index(self@.width, self@.height, x as int, y as int);
            }
            let idx: usize = (y as usize) * (self.width as usize) + (x as usize);
            self.data[idx] = color;
            proof {
                assert forall|cx: int, cy: int|
                    old(self)@.in_bounds(cx, cy) implies #[trigger] self@.at(cx, cy) == (if cx == x
                    as int && cy == y as int {
                    color
                } else {
                    old(self)@.at(cx, cy)
                }) by {
                    lemma_grid_index(old(self)@.width, old(self)@.height, cx, cy);
                    if self@.index(cx, cy) == idx as int {
                        lemma_grid_index_injective(
                            old(self)@.width,
                            cx,
                            cy,
                            x as int,
                            y as int,
                        );
                    }
                }
            }
        }
    }

    /// Merge `other` over this grid cell by cell at the given opacity; cells
    /// that `other` lacks merge against the default color, so the result
    /// always has this grid's dimensions.
    pub fn overlay(&self, other: &Pixels, alpha: u64) -> (r: Pixels)
        requires
            self@.wf(),
            other@.wf(),
            alpha <= CHANNEL_ONE,
        ensures
            r@ == spec_overlay(self@, other@, alpha as int),
            r@.wf(),
    {
        let w = self.width;
        let n = self.data.len();
        let mut data: Vec<Color> = Vec::new();
        let mut i: usize = 0;
        while i < n
            invariant
                i <= n,
                n == self@.cells.len(),
                w == self@.width,
                self@.wf(),
                other@.wf(),
                alpha <= CHANNEL_ONE,
                data@.len() == i,
                forall|j: int|
                    0 <= j < i ==> #[trigger] data@[j] == spec_overlay(
                        self@,
                        other@,
                        alpha as int,
                    ).cells[j] && data@[j].valid(),
            decreases n - i,
        {
            proof {
                assert(w > 0) by (nonlinear_arith)
                    requires
                        (self@.width) * (self@.height) > i >= 0,
                        w == self@.width,
                        self@.height >= 0,
                ;
                lemma_grid_decompose(self@.width, self@.height, i as int);
            }
            let x: usize = i % (w as usize);
            let y: usize = i / (w as usize);
            let src = self.data[i];
            let dst = match other.get(x as u32, y as u32) {
                Some(c) => c,
                None => Color::default(),
            };
            let merged = src.merge_alpha(dst, alpha);
            data.push(merged);
            i += 1;
        }
        let r = Pixels { width: self.width, height: self.height, data };
        proof {
            assert(r@.cells =~= spec_overlay(self@, other@, alpha as int).cells);
        }
        r
    }

    /// Every cell with its coordinates, in row-major order starting at
    /// `(0, 0)`: `y` outer, `x` inner.
    pub fn iter(&self) -> (v: Vec<((u32, u32), Color)>)
        requires
            self@.wf(),
        ensures
            v@.len() == self@.cells.len(),
            forall|j: int|
                0 <= j < v@.len() ==> (#[trigger] v@[j]).0.0 == cell_x(self@.width, j) && v@[j].0.1
                    == cell_y(self@.width, j) && v@[j].1 == self@.cells[j],
    {
        let w = self.width;
        let n = self.data.len();
        let mut v: Vec<((u32, u32), Color)> = Vec::new();
        let mut i: usize = 0;
        while i < n
            invariant
                i <= n,
                n == self@.cells.len(),
                w == self@.width,
                self@.wf(),
                v@.len() == i,
                forall|j: int|
                    0 <= j < i ==> (#[trigger] v@[j]).0.0 == cell_x(self@.width, j) && v@[j].0.1
                        == cell_y(self@.width, j) && v@[j].1 == self@.cells[j],
            decreases n - i,
        {
            proof {
                assert(w > 0) by (nonlinear_arith)
                    requires
                        (self@.width) * (self@.height) > i >= 0,
                        w == self@.width,
                        self@.height >= 0,
                ;
                lemma_grid_decompose(self@.width, self@.height, i as int);
            }
            let x: usize = i % (w as usize);
            let y: usize = i / (w as usize);
            v.push(((x as u32, y as u32), self.data[i]));
            i += 1;
        }
        v
    }

    /// Stamp `src` into this grid at origin `(px, py)`, clamped: only the
    /// part of `src` that fits inside the bounds is copied, the rest of the
    /// grid keeps its colors.
    pub fn replace_part_with_image(&mut self, px: usize, py: usize, src: &Pixels)
        requires
            old(self)@.wf(),
            src@.wf(),
        ensures
            final(self)@.wf(),
            final(self)@.width == old(self)@.width,
            final(self)@.height == old(self)@.height,
            forall|cx: int, cy: int|
                old(self)@.in_bounds(cx, cy) ==> #[trigger] final(self)@.at(cx, cy)
                    == spec_replace_cell(old(self)@, src@, px as int, py as int, cx, cy),
    {
        let w: usize = self.width as usize;
        let h: usize = self.height as usize;
        let x1: usize = if px < w {
            px
        } else {
            w
        };
        let y1: usize = if py < h {
            py
        } else {
            h
        };
        let sw: usize = src.width as usize;
        let sh: usize = src.height as usize;
        let x2: usize = if sw < w - x1 {
            x1 + sw
        } else {
            w
        };
        let y2: usize = if sh < h - y1 {
            y1 + sh
        } else {
            h
        };
        let mut dy: usize = 0;
        while dy < y2 - y1
            invariant
                self@.wf(),
                self@.width == old(self)@.width,
                self@.height == old(self)@.height,
                src@.wf(),
                w == self@.width,
                h == self@.height,
                sw == src@.width,
                sh == src@.height,
                x1 == min_int(px as int, w as int),
                y1 == min_int(py as int, h as int),
                x2 == min_int(x1 as int + sw as int, w as int),
                y2 == min_int(y1 as int + sh as int, h as int),
                0 <= dy <= y2 - y1,
                forall|cx: int, cy: int|
                    old(self)@.in_bounds(cx, cy) ==> #[trigger] self@.at(cx, cy) == (if x1 <= cx
                        < x2 && y1 <= cy < y1 + dy {
                        src@.at(cx - x1, cy - y1)
                    } else {
                        old(self)@.at(cx, cy)
                    }),
            decreases y2 - y1 - dy,
        {
            let mut dx: usize = 0;
            while dx < x2 - x1
                invariant
                    self@.wf(),
                    self@.width == old(self)@.width,
                    self@.height == old(self)@.height,
                    src@.wf(),
                    w == self@.width,
                    h == self@.height,
                    sw == src@.width,
                    sh == src@.height,
                    x1 == min_int(px as int, w as int),
                    y1 == min_int(py as int, h as int),
                    x2 == min_int(x1 as int + sw as int, w as int),
                    y2 == min_int(y1 as int + sh as int, h as int),
                    0 <= dy < y2 - y1,
                    0 <= dx <= x2 - x1,
                    forall|cx: int, cy: int|
                        old(self)@.in_bounds(cx, cy) ==> #[trigger] self@.at(cx, cy) == (if x1 <= cx
                            < x2 && y1 <= cy < y1 + dy {
                            src@.at(cx - x1, cy - y1)
                        } else if cy == y1 + dy && x1 <= cx < x1 + dx {
                            src@.at(cx - x1, dy as int)
                        } else {
                            old(self)@.at(cx, cy)
                        }),
                decreases x2 - x1 - dx,
            {
                let c = match src.get(dx as u32, dy as u32) {
                    Some(c) => c,
                    None => Color::default(),
                };
                self.set((x1 + dx) as u32, (y1 + dy) as u32, c);
                dx += 1;
            }
            dy += 1;
        }
        proof {
            assert forall|cx: int, cy: int| old(self)@.in_bounds(cx, cy) implies #[trigger] self@.at(
                cx,
                cy,
            ) == spec_replace_cell(old(self)@, src@, px as int, py as int, cx, cy) by {}
        }
    }
}

} // verus!
