//! Core of a client that mirrors a remote shared pixel canvas.
//!
//! The crate owns the pixel data model and the consistency rules around it:
//! colors with exact fixed-point channels ([`color`]), dense raster grids
//! ([`pixels`]), opacity-carrying layers and positioned stamps ([`layer`],
//! [`elem`]), the cooldown admission control that gates remote writes
//! ([`cooldown`]), and the canvas that ties layers, cooldown and the
//! synchronization protocol together ([`canvas`]).
//!
//! Network transport, rendering and file decoding are external collaborators:
//! they hand the canvas plain values (sizes, byte buffers, rate-limit
//! metadata, clock readings) and consume plain values back.

pub mod canvas;
pub mod color;
pub mod cooldown;
pub mod elem;
pub mod error;
pub mod layer;
pub mod pixels;
