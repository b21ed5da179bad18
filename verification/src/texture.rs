//! One texture slot of the chain, as far as its bookkeeping goes: the size of
//! the texture that backs it, and when that texture has to be replaced.

use vstd::prelude::*;
use crate::geometry::Size;
use crate::levels::at_least_one;

verus! {

/// The binding of the sampled texture in a slot's bind group.
pub const TEXTURE_BINDING: u32 = 0;

/// The binding of the shared sampler in a slot's bind group.
pub const SAMPLER_BINDING: u32 = 1;

/// What the texture behind a slot is created with: a two-dimensional texture
/// of the given size that can be rendered to, sampled from and copied into.
#[derive(Clone, Copy, Debug, PartialEq, Eq, Structural)]
pub struct TextureDescriptor {
    pub size: Size,
    pub mip_level_count: u32,
    pub sample_count: u32,
    pub render_attachment: bool,
    pub texture_binding: bool,
    pub copy_destination: bool,
}

/// A texture slot. Its view is the size of the texture that backs it.
#[derive(Clone, Copy, Debug)]
pub struct Texture {
    size: Size,
}

impl View for Texture {
    type V = Size;

    closed spec fn view(&self) -> Size {
        self.size
    }
}

/// The size of the texture that is created for a request of `size`: the
/// request itself, with no dimension below one pixel.
pub open spec fn backing_size(size: Size) -> Size {
    Size {
        width: at_least_one(size.width as int),
        height: at_least_one(size.height as int),
    }
}

/// The descriptor of a slot's texture of the given size.
pub open spec fn descriptor_of(size: Size) -> TextureDescriptor {
    TextureDescriptor {
        size,
        mip_level_count: 1,
        sample_count: 1,
        render_attachment: true,
        texture_binding: true,
        copy_destination: true,
    }
}

impl Texture {
    /// A slot always has a texture of at least one pixel.
    #[verifier::type_invariant]
    pub closed spec fn wf(&self) -> bool {
        self.size.width >= 1 && self.size.height >= 1
    }

    /// A slot backed by a new texture for `size`.
    pub fn new(size: Size) -> (texture: Texture)
        ensures
            texture@ == backing_size(size),
            texture.wf(),
    {
        Texture {
            size: Size {
                width: if size.width < 1 { 1 } else { size.width },
                height: if size.height < 1 { 1 } else { size.height },
            },
        }
    }

    /// Brings the slot to `size`. A slot of that size is left alone; any other
    /// gets a new texture. Returns whether the texture was replaced.
    pub fn update(&mut self, size: Size) -> (replaced: bool)
        ensures
            final(self)@ == backing_size(size),
            final(self).wf(),
            replaced == (old(self)@ != backing_size(size)),
    {
        let wanted = Texture::new(size);
        if self.size.width != wanted.size.width || self.size.height != wanted.size.height {
            *self = wanted;
            true
        } else {
            false
        }
    }

    /// The size of the texture that backs the slot.
    pub fn size(&self) -> (size: Size)
        ensures
            size == self@,
            size.width >= 1,
            size.height >= 1,
    {
        proof {
            use_type_invariant(self);
        }
        self.size
    }

    /// What the texture behind the slot is created with.
    pub fn descriptor(&self) -> (descriptor: TextureDescriptor)
        ensures
            descriptor == descriptor_of(self@),
    {
        TextureDescriptor {
            size: self.size,
            mip_level_count: 1,
            sample_count: 1,
            render_attachment: true,
            texture_binding: true,
            copy_destination: true,
        }
    }
}

} // verus!
