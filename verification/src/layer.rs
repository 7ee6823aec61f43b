//! Layers: a pixel grid with an opacity, plus stamping and compositing.

use vstd::prelude::*;

use crate::color::{channel_to_byte, Color, ColorMode, CHANNEL_ONE};
use crate::elem::Element;
use crate::pixels::{spec_from_buffer, spec_overlay, GridView, Pixels};

verus! {

/// Mathematical model of a layer: its opacity and its grid.
#[verifier::ext_equal]
pub ghost struct LayerView {
    pub opacity: int,
    pub grid: GridView,
}

impl LayerView {
    pub open spec fn wf(self) -> bool {
        0 <= self.opacity <= CHANNEL_ONE && self.grid.wf()
    }
}

/// A pixel grid with an opacity in `[0, 1]`, fixed-point over `CHANNEL_ONE`.
pub struct Layer {
    pixels: Pixels,
    opacity: u64,
}

impl View for Layer {
    type V = LayerView;

    closed spec fn view(&self) -> LayerView {
        LayerView { opacity: self.opacity as int, grid: self.pixels@ }
    }
}

impl Layer {
    /// A layer of the given size, blank (default color everywhere).
    pub fn new(size: (u32, u32), opacity: u64) -> (l: Layer)
        requires
            opacity <= CHANNEL_ONE,
            (size.0 as int) * (size.1 as int) <= usize::MAX as int,
        ensures
            l@.opacity == opacity,
            l@.grid == GridView::blank(size.0 as int, size.1 as int),
            l@.wf(),
    {
        Layer { pixels: Pixels::new(size), opacity }
    }

    /// A layer over an existing grid.
    pub fn from_pixels(pixels: Pixels, opacity: u64) -> (l: Layer)
        requires
            opacity <= CHANNEL_ONE,
            pixels@.wf(),
        ensures
            l@.opacity == opacity,
            l@.grid == pixels@,
            l@.wf(),
    {
        Layer { pixels, opacity }
    }

    /// A layer decoded from an RGB wire buffer.
    pub fn from_vec(size: (u32, u32), buffer: Vec<u8>, opacity: u64) -> (l: Layer)
        requires
            opacity <= CHANNEL_ONE,
            (size.0 as int) * (size.1 as int) <= usize::MAX as int,
        ensures
            l@.opacity == opacity,
            l@.grid == spec_from_buffer(size.0 as int, size.1 as int, buffer@, ColorMode::RGB),
            l@.wf(),
    {
        Self::from_pixels(Pixels::from_buffer(size, buffer, ColorMode::RGB), opacity)
    }

    /// The layer's opacity as an 8-bit wire value, truncated.
    pub fn get_opacity(&self) -> (o: u8)
        requires
            self@.wf(),
        ensures
            o == channel_to_byte(self@.opacity),
    {
        (self.opacity / 256) as u8
    }

    /// The layer's opacity in fixed-point units.
    pub fn opacity(&self) -> (o: u64)
        ensures
            o == self@.opacity,
    {
        self.opacity
    }

    /// The color at `(x, y)`, or nothing when out of bounds.
    pub fn get_pixel(&self, x: u32, y: u32) -> (c: Option<Color>)
        requires
            self@.wf(),
        ensures
            c == if self@.grid.in_bounds(x as int, y as int) {
                Some(self@.grid.at(x as int, y as int))
            } else {
                None::<Color>
            },
            c matches Some(col) ==> col.valid(),
    {
        self.pixels.get(x, y)
    }

    /// Write `color` at `(x, y)`; a write out of bounds is dropped.
    pub fn set_pixel(&mut self, x: u32, y: u32, color: Color)
        requires
            old(self)@.wf(),
            color.valid(),
        ensures
            final(self)@.wf(),
            final(self)@.opacity == old(self)@.opacity,
            final(self)@.grid.width == old(self)@.grid.width,
            final(self)@.grid.height == old(self)@.grid.height,
            old(self)@.grid.in_bounds(x as int, y as int) ==> final(self)@.grid.cells == old(
                self,
            )@.grid.cells.update(old(self)@.grid.index(x as int, y as int), color),
            !old(self)@.grid.in_bounds(x as int, y as int) ==> final(self)@ == old(self)@,
            forall|cx: int, cy: int|
                old(self)@.grid.in_bounds(cx, cy) ==> #[trigger] final(self)@.grid.at(cx, cy) == (
                if cx == x as int && cy == y as int {
                    color
                } else {
                    old(self)@.grid.at(cx, cy)
                }),
    {
        self.pixels.set(x, y, color)
    }

    /// Replace the whole grid, keeping the opacity.
    pub fn set_pixels(&mut self, pixels: Pixels)
        requires
            pixels@.wf(),
        ensures
            final(self)@.opacity == old(self)@.opacity,
            final(self)@.grid == pixels@,
    {
        self.pixels = pixels
    }

    /// Stamp the element's raster into this layer at the element's position,
    /// pixel by pixel, silently clipping at the layer's bounds.
    pub fn draw(&mut self, element: &Element)
        requires
            old(self)@.wf(),
            element@.wf(),
        ensures
            final(self)@.wf(),
            final(self)@.opacity == old(self)@.opacity,
            final(self)@.grid.width == old(self)@.grid.width,
            final(self)@.grid.height == old(self)@.grid.height,
            forall|cx: int, cy: int|
                old(self)@.grid.in_bounds(cx, cy) ==> #[trigger] final(self)@.grid.at(cx, cy) == (
                if element@.x <= cx < element@.x + element@.grid.width && element@.y <= cy
                    < element@.y + element@.grid.height {
                    element@.grid.at(cx - element@.x, cy - element@.y)
                } else {
                    old(self)@.grid.at(cx, cy)
                }),
    {
        let pos = element.get_position();
        let px = pos.0;
        let py = pos.1;
        let ew = element.pixels().width();
        let eh = element.pixels().height();
        let mut dy: u32 = 0;
        while dy < eh
            invariant
                self@.wf(),
                element@.wf(),
                self@.opacity == old(self)@.opacity,
                self@.grid.width == old(self)@.grid.width,
                self@.grid.height == old(self)@.grid.height,
                px == element@.x,
                py == element@.y,
                ew == element@.grid.width,
                eh == element@.grid.height,
                0 <= dy <= eh,
                forall|cx: int, cy: int|
                    old(self)@.grid.in_bounds(cx, cy) ==> #[trigger] self@.grid.at(cx, cy) == (if px
                        <= cx < px + ew && py <= cy < py + dy {
                        element@.grid.at(cx - px, cy - py)
                    } else {
                        old(self)@.grid.at(cx, cy)
                    }),
            decreases eh - dy,
        {
            let mut dx: u32 = 0;
            while dx < ew
                invariant
                    self@.wf(),
                    element@.wf(),
                    self@.opacity == old(self)@.opacity,
                    self@.grid.width == old(self)@.grid.width,
                    self@.grid.height == old(self)@.grid.height,
                    px == element@.x,
                    py == element@.y,
                    ew == element@.grid.width,
                    eh == element@.grid.height,
                    0 <= dy < eh,
                    0 <= dx <= ew,
                    forall|cx: int, cy: int|
                        old(self)@.grid.in_bounds(cx, cy) ==> #[trigger] self@.grid.at(cx, cy) == (
                        if px <= cx < px + ew && py <= cy < py + dy {
                            element@.grid.at(cx - px, cy - py)
                        } else if cy == py + dy && px <= cx < px + dx {
                            element@.grid.at(cx - px, dy as int)
                        } else {
                            old(self)@.grid.at(cx, cy)
                        }),
                decreases ew - dx,
            {
                let c = match element.pixels().get(dx, dy) {
                    Some(c) => c,
                    None => Color::default(),
                };
                let tx: u64 = px as u64 + dx as u64;
                let ty: u64 = py as u64 + dy as u64;
                if tx <= u32::MAX as u64 && ty <= u32::MAX as u64 {
                    self.pixels.set(tx as u32, ty as u32, c);
                }
                dx += 1;
            }
            dy += 1;
        }
    }

    /// Compose `other` over this layer at `other`'s opacity: the result has
    /// this layer's dimensions and opacity, and each cell merged against
    /// `other`'s matching cell (or the default color beyond `other`'s
    /// bounds).
    pub fn overlay(&self, other: &Layer) -> (l: Layer)
        requires
            self@.wf(),
            other@.wf(),
        ensures
            l@.opacity == self@.opacity,
            l@.grid == spec_overlay(self@.grid, other@.grid, other@.opacity),
            l@.wf(),
    {
        Layer {
            pixels: self.pixels.overlay(&other.pixels, other.opacity),
            opacity: self.opacity,
        }
    }

    /// Reset the grid to a blank one of the same size.
    pub fn clean(&mut self)
        requires
            old(self)@.wf(),
        ensures
            final(self)@.opacity == old(self)@.opacity,
            final(self)@.grid == GridView::blank(old(self)@.grid.width, old(self)@.grid.height),
            final(self)@.wf(),
    {
        self.pixels = Pixels::new(self.pixels.size());
    }

    /// Every cell with its coordinates, in row-major order.
    pub fn iter(&self) -> (v: Vec<((u32, u32), Color)>)
        requires
            self@.wf(),
        ensures
            v@.len() == self@.grid.cells.len(),
            forall|j: int|
                0 <= j < v@.len() ==> (#[trigger] v@[j]).0.0 == crate::pixels::cell_x(
                    self@.grid.width,
                    j,
                ) && v@[j].0.1 == crate::pixels::cell_y(self@.grid.width, j) && v@[j].1
                    == self@.grid.cells[j],
    {
        self.pixels.iter()
    }
}

} // verus!
