//! A progressive multi-pass blur compositor: the bookkeeping of a dual-filter
//! blur, from its parameters and texture chain to the commands of one frame.
//!
//! The crate holds no graphics resource. It decides what has to exist and
//! what has to be recorded; whoever owns the device carries that out.

use vstd::prelude::*;
use crate::parameters::Spread;
use crate::shader::Shader;

pub mod geometry;
pub mod laws;
pub mod levels;
pub mod model;
pub mod parameters;
pub mod plan;
pub mod replay;
pub mod scalar;
pub mod shader;
pub mod texture;

verus! {

/// How a blur takes up space along one axis.
#[derive(Clone, Copy, Debug, PartialEq, Eq, Structural)]
pub enum Length {
    /// All the space that is left.
    Fill,
    /// A share of the space that is left, relative to the shares of others.
    FillPortion(u16),
    /// As little space as possible.
    Shrink,
    /// A fixed number of logical pixels, as the bits of a single-precision
    /// number.
    Fixed(u32),
}

/// A blur as it is placed in a layout: its parameters and the space it asks
/// for. Along an axis for which it was given no length it asks for nothing,
/// and takes what its host gives a widget by default.
#[derive(Clone, Copy, Debug)]
pub struct Blur {
    shader: Shader,
    width: Option<Length>,
    height: Option<Length>,
}

/// A blur of the given radius.
pub fn blur(radius: u32) -> (blur: Blur)
    ensures
        blur.parameters() == (Shader { passes: radius, spread: Spread::Binary }),
        blur.extent() == (None::<Length>, None::<Length>),
{
    Blur::new(radius)
}

impl Blur {
    /// The parameters of the blur.
    pub closed spec fn parameters(&self) -> Shader {
        self.shader
    }

    /// The space that the blur asks for: its width and its height, each
    /// where it was given.
    pub closed spec fn extent(&self) -> (Option<Length>, Option<Length>) {
        (self.width, self.height)
    }

    /// A blur of the given radius, with no width or height of its own.
    pub fn new(radius: u32) -> (blur: Blur)
        ensures
            blur.parameters() == (Shader { passes: radius, spread: Spread::Binary }),
            blur.extent() == (None::<Length>, None::<Length>),
    {
        Blur { shader: Shader::with_radius(radius), width: None, height: None }
    }

    /// The same blur with another width.
    pub fn width(self, width: Length) -> (blur: Blur)
        ensures
            blur.parameters() == self.parameters(),
            blur.extent() == (Some(width), self.extent().1),
    {
        Blur { shader: self.shader, width: Some(width), height: self.height }
    }

    /// The same blur with another height.
    pub fn height(self, height: Length) -> (blur: Blur)
        ensures
            blur.parameters() == self.parameters(),
            blur.extent() == (self.extent().0, Some(height)),
    {
        Blur { shader: self.shader, width: self.width, height: Some(height) }
    }

    /// A blur of the same extent with the given radius.
    pub fn radius(self, radius: u32) -> (blur: Blur)
        ensures
            blur.parameters() == (Shader { passes: radius, spread: Spread::Binary }),
            blur.extent() == self.extent(),
    {
        Blur { shader: Shader::with_radius(radius), width: self.width, height: self.height }
    }

    /// A blur of the same extent with the given number of passes, each
    /// sampling `offset` apart. The offset is given as the bits of a
    /// single-precision number.
    pub fn passes(self, passes: u32, offset: u32) -> (blur: Blur)
        ensures
            blur.parameters() == (Shader { passes, spread: Spread::Uniform(offset) }),
            blur.extent() == self.extent(),
    {
        Blur { shader: Shader::new(passes, offset), width: self.width, height: self.height }
    }

    /// The space that the blur asks for: its width and its height, each
    /// where it was given.
    pub fn size(&self) -> (size: (Option<Length>, Option<Length>))
        ensures
            size == self.extent(),
    {
        (self.width, self.height)
    }

    /// The parameters of the blur, as they are handed to a frame.
    pub fn shader(&self) -> (shader: Shader)
        ensures
            shader == self.parameters(),
    {
        self.shader
    }
}

} // verus!
