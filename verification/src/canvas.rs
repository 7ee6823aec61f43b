//! The canvas: an ordered stack of layers, a cooldown, and the
//! synchronization protocol between the local mirror and the remote
//! authority.
//!
//! Layer 0 is the ground-truth layer mirroring the remote canvas; layer 1 is
//! a purely local overlay for staged content. Every remote-mutating write is
//! gated by the cooldown: [`Canvas::set_pixel_admit`] decides whether the
//! remote call may be made at all, and [`Canvas::set_pixel_finish`] applies
//! the outcome of the call — the local mirror changes only after the remote
//! acknowledged the write, so it is never ahead of the confirmed remote
//! state. The caller that owns the transport runs the two steps around the
//! actual remote call.

use vstd::prelude::*;

use crate::color::{Color, ColorMode, CHANNEL_ONE};
use crate::cooldown::{spec_armed, spec_remaining, Cooldown};
use crate::elem::Element;
use crate::error::CanvasError;
use crate::layer::{Layer, LayerView};
use crate::pixels::{spec_from_buffer, spec_overlay, GridView};

verus! {

/// Mathematical model of a canvas: its size, its layer stack (ground truth
/// first), and the cooldown expiry.
#[verifier::ext_equal]
pub ghost struct CanvasView {
    pub width: int,
    pub height: int,
    pub layers: Seq<LayerView>,
    pub cooldown: Option<u64>,
}

impl CanvasView {
    /// Exactly two layers, each well formed and of the canvas's size.
    pub open spec fn wf(self) -> bool {
        &&& self.layers.len() == 2
        &&& self.layers[0].wf()
        &&& self.layers[0].grid.width == self.width
        &&& self.layers[0].grid.height == self.height
        &&& self.layers[1].wf()
        &&& self.layers[1].grid.width == self.width
        &&& self.layers[1].grid.height == self.height
    }
}

/// The layer stack folded back to front over a base grid: each step merges
/// the next layer over the accumulated grid at that layer's opacity.
pub open spec fn fold_overlay(base: GridView, layers: Seq<LayerView>) -> GridView
    decreases layers.len(),
{
    if layers.len() == 0 {
        base
    } else {
        spec_overlay(
            fold_overlay(base, layers.drop_last()),
            layers.last().grid,
            layers.last().opacity,
        )
    }
}

/// The local mirror of the shared canvas.
pub struct Canvas {
    size: (u32, u32),
    layers: Vec<Layer>,
    cooldown: Cooldown,
}

impl View for Canvas {
    type V = CanvasView;

    closed spec fn view(&self) -> CanvasView {
        CanvasView {
            width: self.size.0 as int,
            height: self.size.1 as int,
            layers: self.layers@.map_values(|l: Layer| l@),
            cooldown: self.cooldown@,
        }
    }
}

impl Canvas {
    /// Build the mirror from the remotely fetched size and RGB pixel buffer:
    /// the ground-truth layer decodes the buffer at full opacity, the
    /// overlay layer starts blank at half opacity, and the cooldown starts
    /// ready. Fetching (and authenticating for) the two values is the
    /// transport's business.
    pub fn new(size: (u32, u32), buffer: Vec<u8>) -> (c: Canvas)
        requires
            (size.0 as int) * (size.1 as int) <= usize::MAX as int,
        ensures
            c@.wf(),
            c@.width == size.0,
            c@.height == size.1,
            c@.layers[0].grid == spec_from_buffer(
                size.0 as int,
                size.1 as int,
                buffer@,
                ColorMode::RGB,
            ),
            c@.layers[0].opacity == CHANNEL_ONE,
            c@.layers[1].grid == GridView::blank(size.0 as int, size.1 as int),
            c@.layers[1].opacity == CHANNEL_ONE / 2,
            c@.cooldown == None::<u64>,
    {
        let main = Layer::from_vec(size, buffer, CHANNEL_ONE);
        let overlay = Layer::new(size, CHANNEL_ONE / 2);
        let mut layers: Vec<Layer> = Vec::new();
        layers.push(main);
        layers.push(overlay);
        Canvas { size, layers, cooldown: Cooldown::new() }
    }

    pub fn width(&self) -> (w: u32)
        ensures
            w == self@.width,
    {
        self.size.0
    }

    pub fn height(&self) -> (h: u32)
        ensures
            h == self@.height,
    {
        self.size.1
    }

    pub fn size(&self) -> (s: (u32, u32))
        ensures
            s.0 == self@.width,
            s.1 == self@.height,
    {
        (self.size.0, self.size.1)
    }

    /// Milliseconds until the next remote write is admitted, at `now_ms`;
    /// zero when writes are open.
    pub fn get_cooldown(&self, now_ms: u64) -> (r: u64)
        ensures
            r == spec_remaining(self@.cooldown, now_ms as int),
    {
        self.cooldown.remaining(now_ms)
    }

    /// The layer at `id`: 0 is ground truth, 1 the local overlay.
    pub fn get_layer(&self, id: usize) -> (l: Option<&Layer>)
        ensures
            (id as int) < self@.layers.len() ==> (l matches Some(layer) && layer@
                == self@.layers[id as int]),
            (id as int) >= self@.layers.len() ==> l matches None,
    {
        if id < self.layers.len() {
            Some(&self.layers[id])
        } else {
            None
        }
    }

    /// The ground-truth layer.
    pub fn get_main_layer(&self) -> (l: &Layer)
        requires
            self@.wf(),
        ensures
            l@ == self@.layers[0],
    {
        &self.layers[0]
    }

    /// The local overlay layer.
    pub fn get_image_layer(&self) -> (l: &Layer)
        requires
            self@.wf(),
        ensures
            l@ == self@.layers[1],
    {
        &self.layers[1]
    }

    /// Fold the layer stack back to front over a blank base layer into one
    /// renderable layer. Pure: safe to call every frame.
    pub fn get_layers_merged(&self) -> (l: Layer)
        requires
            self@.wf(),
        ensures
            l@.opacity == CHANNEL_ONE,
            l@.grid == fold_overlay(GridView::blank(self@.width, self@.height), self@.layers),
            l@.wf(),
    {
        let mut acc = Layer::new(self.size, CHANNEL_ONE);
        let mut i: usize = 0;
        while i < self.layers.len()
            invariant
                self@.wf(),
                i <= self@.layers.len(),
                acc@.wf(),
                acc@.opacity == CHANNEL_ONE,
                acc@.grid == fold_overlay(
                    GridView::blank(self@.width, self@.height),
                    self@.layers.take(i as int),
                ),
            decreases self@.layers.len() - i,
        {
            let next = acc.overlay(&self.layers[i]);
            proof {
                assert(self@.layers.take(i as int + 1).drop_last() =~= self@.layers.take(i as int));
                assert(self@.layers.take(i as int + 1).last() == self@.layers[i as int]);
            }
            acc = next;
            i += 1;
        }
        proof {
            assert(self@.layers.take(self@.layers.len() as int) =~= self@.layers);
        }
        acc
    }

    /// Resynchronize: replace the ground-truth layer's grid wholesale with a
    /// freshly fetched RGB buffer, discarding whatever the mirror held.
    /// Everything else — overlay layer, cooldown — is untouched.
    pub fn update_main_layer(&mut self, buffer: Vec<u8>)
        requires
            old(self)@.wf(),
        ensures
            final(self)@.wf(),
            final(self)@.width == old(self)@.width,
            final(self)@.height == old(self)@.height,
            final(self)@.layers[0].grid == spec_from_buffer(
                old(self)@.width,
                old(self)@.height,
                buffer@,
                ColorMode::RGB,
            ),
            final(self)@.layers[0].opacity == old(self)@.layers[0].opacity,
            final(self)@.layers[1] == old(self)@.layers[1],
            final(self)@.cooldown == old(self)@.cooldown,
    {
        let op = self.layers[0].opacity();
        let fresh = Layer::from_vec(self.size, buffer, op);
        self.layers[0] = fresh;
        proof {
            assert(self@.layers =~= old(self)@.layers.update(0, fresh@));
        }
    }

    /// Admission control for one remote write at `now_ms`: while the
    /// cooldown runs, the write is rejected with the remaining wait and no
    /// remote call may be made; once it has expired, the write may proceed.
    /// Decides only; nothing is mutated.
    pub fn set_pixel_admit(&self, now_ms: u64) -> (r: Result<(), CanvasError>)
        ensures
            spec_remaining(self@.cooldown, now_ms as int) == 0 ==> r == Ok::<(), CanvasError>(()),
            spec_remaining(self@.cooldown, now_ms as int) > 0 ==> r == Err::<(), CanvasError>(
                CanvasError::Cooldown(spec_remaining(self@.cooldown, now_ms as int) as u64),
            ),
    {
        let rem = self.cooldown.remaining(now_ms);
        if rem > 0 {
            Err(CanvasError::Cooldown(rem))
        } else {
            Ok(())
        }
    }

    /// Commit the outcome of the remote point write that admission let
    /// through. `response` is what the remote acknowledged: the remaining
    /// request quota and the reset delay in milliseconds, or nothing when
    /// the call failed. On failure the canvas — mirror, overlay and cooldown
    /// alike — is exactly as before, so the mirror is never ahead of the
    /// confirmed remote state. On success the cooldown is re-armed exactly
    /// when the quota hit zero, and only then is the pixel written to the
    /// ground-truth layer.
    pub fn set_pixel_finish(
        &mut self,
        x: u32,
        y: u32,
        color: Color,
        response: Option<(u32, u64)>,
        now_ms: u64,
    ) -> (r: Result<(), CanvasError>)
        requires
            old(self)@.wf(),
            color.valid(),
        ensures
            final(self)@.wf(),
            final(self)@.width == old(self)@.width,
            final(self)@.height == old(self)@.height,
            response matches None ==> final(self)@ == old(self)@ && r == Err::<(), CanvasError>(
                CanvasError::Client,
            ),
            response matches Some(meta) ==> {
                &&& r == Ok::<(), CanvasError>(())
                &&& final(self)@.layers.len() == 2
                &&& final(self)@.layers[1] == old(self)@.layers[1]
                &&& final(self)@.layers[0].opacity == old(self)@.layers[0].opacity
                &&& final(self)@.layers[0].grid.width == old(self)@.layers[0].grid.width
                &&& final(self)@.layers[0].grid.height == old(self)@.layers[0].grid.height
                &&& (old(self)@.layers[0].grid.in_bounds(x as int, y as int)
                    ==> final(self)@.layers[0].grid.cells
                    == old(self)@.layers[0].grid.cells.update(
                    old(self)@.layers[0].grid.index(x as int, y as int),
                    color,
                ))
                &&& (!old(self)@.layers[0].grid.in_bounds(x as int, y as int)
                    ==> final(self)@.layers[0].grid == old(self)@.layers[0].grid)
                &&& final(self)@.cooldown == (if meta.0 == 0 {
                    Some(spec_armed(now_ms as int, meta.1 as int))
                } else {
                    old(self)@.cooldown
                })
            },
    {
        match response {
            None => Err(CanvasError::Client),
            Some((remain, delay)) => {
                if remain == 0 {
                    self.cooldown.set(now_ms, delay);
                }
                self.layers[0].set_pixel(x, y, color);
                proof {
                    assert(self@.layers =~= old(self)@.layers.update(0, self.layers@[0]@));
                }
                Ok(())
            },
        }
    }

    /// The ground-truth color at `(x, y)`, or nothing when out of bounds.
    pub fn get_pixel(&self, x: u32, y: u32) -> (c: Option<Color>)
        requires
            self@.wf(),
        ensures
            c == if self@.layers[0].grid.in_bounds(x as int, y as int) {
                Some(self@.layers[0].grid.at(x as int, y as int))
            } else {
                None::<Color>
            },
    {
        let l: &Layer = &self.layers[0];
        l.get_pixel(x, y)
    }

    /// Stage an element on the overlay layer: the overlay is wiped and the
    /// element's raster stamped at its position, clipped at the canvas
    /// bounds. Purely local; the remote canvas is never involved.
    pub fn place_overlay_image(&mut self, element: &Element)
        requires
            old(self)@.wf(),
            element@.wf(),
        ensures
            final(self)@.wf(),
            final(self)@.width == old(self)@.width,
            final(self)@.height == old(self)@.height,
            final(self)@.layers.len() == 2,
            final(self)@.layers[0] == old(self)@.layers[0],
            final(self)@.cooldown == old(self)@.cooldown,
            final(self)@.layers[1].opacity == old(self)@.layers[1].opacity,
            forall|cx: int, cy: int|
                old(self)@.layers[1].grid.in_bounds(cx, cy)
                    ==> #[trigger] final(self)@.layers[1].grid.at(cx, cy) == (if element@.x <= cx < element@.x
                    + element@.grid.width && element@.y <= cy < element@.y + element@.grid.height {
                    element@.grid.at(cx - element@.x, cy - element@.y)
                } else {
                    Color::spec_default()
                }),
    {
        self.layers[1].clean();
        proof {
            assert(self@.layers =~= old(self)@.layers.update(1, self.layers@[1]@));
        }
        let ghost mid = self@;
        self.layers[1].draw(element);
        proof {
            assert(self@.layers =~= mid.layers.update(1, self.layers@[1]@));
        }
        proof {
            let w = old(self)@.layers[1].grid.width;
            let h = old(self)@.layers[1].grid.height;
            assert forall|cx: int, cy: int|
                old(self)@.layers[1].grid.in_bounds(cx, cy) && !(element@.x <= cx < element@.x
                    + element@.grid.width && element@.y <= cy < element@.y
                    + element@.grid.height) implies #[trigger] self@.layers[1].grid.at(cx, cy)
                == Color::spec_default() by {
                crate::pixels::lemma_grid_index(w, h, cx, cy);
            }
        }
    }

    /// Wipe the overlay layer back to blank. Purely local.
    pub fn clear_overlay_image(&mut self)
        requires
            old(self)@.wf(),
        ensures
            final(self)@.wf(),
            final(self)@.width == old(self)@.width,
            final(self)@.height == old(self)@.height,
            final(self)@.layers.len() == 2,
            final(self)@.layers[0] == old(self)@.layers[0],
            final(self)@.cooldown == old(self)@.cooldown,
            final(self)@.layers[1].opacity == old(self)@.layers[1].opacity,
            final(self)@.layers[1].grid == GridView::blank(old(self)@.width, old(self)@.height),
    {
        self.layers[1].clean();
        proof {
            assert(self@.layers =~= old(self)@.layers.update(1, self.layers@[1]@));
        }
    }
}

} // verus!
