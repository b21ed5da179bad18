//! The commands of one frame, as plain data. Whoever owns the graphics device
//! records them in order.

use vstd::prelude::*;
use crate::geometry::{Rectangle, Size};

verus! {

/// The number of vertices of a full-screen quad: two triangles.
pub const QUAD_VERTICES: u32 = 6;

/// The render pipeline that a pass draws with.
#[derive(Clone, Copy, Debug, PartialEq, Eq, Structural)]
pub enum Filter {
    /// Filters the source down into a texture of the next level.
    Downsample,
    /// Filters the source up into a texture of the level above.
    Upsample,
    /// Samples the source as it is.
    Paste,
}

/// A part of a picture, from its origin: `part` pixels of `whole`, per axis.
#[derive(Clone, Copy, Debug, PartialEq, Eq, Structural)]
pub struct Portion {
    pub part: Size,
    pub whole: Size,
}

/// Where a pass draws to.
#[derive(Clone, Copy, Debug, PartialEq, Eq, Structural)]
pub enum Attachment {
    /// A slot of the chain, given by its index, drawn to in full.
    Slot(usize),
    /// The view that the frame is composited into, within `viewport`. What
    /// is laid over the viewport is the part of the source that holds the
    /// copied frame, given as `sampled`; the rest of the source is left out.
    Target { viewport: Rectangle, sampled: Portion },
}

/// One full-screen draw: which pipeline, from which slot, to where, and with
/// which record of the parameter buffer.
#[derive(Clone, Copy, Debug, PartialEq, Eq, Structural)]
pub struct Pass {
    pub filter: Filter,
    /// The slot whose bind group is sampled.
    pub source: usize,
    pub destination: Attachment,
    /// The level of the chain that the pass produces.
    pub level: u32,
    /// The byte offset of the record of the parameter buffer bound for the
    /// pass; none where the buffer is bound as it is.
    pub parameter_offset: Option<u32>,
}

/// One command of a frame.
#[derive(Clone, Copy, Debug, PartialEq, Eq, Structural)]
pub enum Command {
    /// Copies the given rectangle of the frame into the base slot, at its
    /// origin.
    CopyIn(Rectangle),
    /// Draws a full-screen quad.
    Draw(Pass),
}

} // verus!
