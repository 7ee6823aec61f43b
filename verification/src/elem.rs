//! Positioned raster elements: a small grid to be stamped at an offset.

use vstd::prelude::*;

use crate::pixels::{GridView, Pixels};

verus! {

/// Mathematical model of an element: its raster and its stamp origin.
#[verifier::ext_equal]
pub ghost struct ElementView {
    pub grid: GridView,
    pub x: int,
    pub y: int,
}

impl ElementView {
    pub open spec fn wf(self) -> bool {
        self.grid.wf()
    }
}

/// A raster together with the canvas position it is to be stamped at.
pub struct Element {
    pixels: Pixels,
    position: (u32, u32),
}

impl View for Element {
    type V = ElementView;

    closed spec fn view(&self) -> ElementView {
        ElementView { grid: self.pixels@, x: self.position.0 as int, y: self.position.1 as int }
    }
}

impl Element {
    /// An element holding the given raster, positioned at the origin.
    /// Decoding an image file into the raster is the caller's business.
    pub fn new(pixels: Pixels) -> (e: Element)
        requires
            pixels@.wf(),
        ensures
            e@.grid == pixels@,
            e@.x == 0,
            e@.y == 0,
            e@.wf(),
    {
        Element { pixels, position: (0, 0) }
    }

    /// Move the stamp origin; the raster is untouched.
    pub fn set_position(&mut self, x: u32, y: u32)
        ensures
            final(self)@.grid == old(self)@.grid,
            final(self)@.x == x,
            final(self)@.y == y,
    {
        self.position = (x, y);
    }

    pub fn get_position(&self) -> (p: (u32, u32))
        ensures
            p.0 == self@.x,
            p.1 == self@.y,
    {
        self.position
    }

    /// The element's raster.
    pub fn pixels(&self) -> (p: &Pixels)
        ensures
            p@ == self@.grid,
    {
        &self.pixels
    }

    /// Every raster cell with its coordinates, in row-major order.
    pub fn iter(&self) -> (v: Vec<((u32, u32), crate::color::Color)>)
        requires
            self@.wf(),
        ensures
            v@.len() == self@.grid.cells.len(),
            forall|j: int|
                0 <= j < v@.len() ==> (#[trigger] v@[j]).0.0 == crate::pixels::cell_x(
                    self@.grid.width,
                    j,
                ) && v@[j].0.1 == crate::pixels::cell_y(self@.grid.width, j) && v@[j].1
                    == self@.grid.cells[j],
    {
        self.pixels.iter()
    }
}

} // verus!
