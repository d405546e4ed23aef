//! Framebuffer attachment points and their native numeric constants.

use vstd::prelude::*;

verus! {

/// Numeric constant of the first color attachment point.
pub const GL_COLOR_ATTACHMENT0: u32 = 0x8CE0;

/// Numeric constant of the stencil attachment point.
pub const GL_STENCIL_ATTACHMENT: u32 = 0x8D20;

/// Numeric constant of the depth attachment point.
pub const GL_DEPTH_ATTACHMENT: u32 = 0x8D00;

/// Where a texture is attached to a framebuffer.  Color attachments are
/// numbered from zero.
#[derive(Clone, Copy, Debug, PartialEq, Eq, Structural)]
pub enum AttachmentType {
    Color(u32),
    Stencil,
    Depth,
}

impl AttachmentType {
    /// Whether the attachment's numeric constant exists: a color attachment
    /// index must not push the constant past the numeric range.
    pub open spec fn wf(self) -> bool {
        match self {
            AttachmentType::Color(n) => n + GL_COLOR_ATTACHMENT0 <= u32::MAX,
            AttachmentType::Stencil => true,
            AttachmentType::Depth => true,
        }
    }

    /// The numeric constant the native API uses for this attachment point.
    pub open spec fn spec_gl(self) -> u32
        recommends
            self.wf(),
    {
        match self {
            AttachmentType::Color(n) => (GL_COLOR_ATTACHMENT0 + n) as u32,
            AttachmentType::Stencil => GL_STENCIL_ATTACHMENT,
            AttachmentType::Depth => GL_DEPTH_ATTACHMENT,
        }
    }

    /// The numeric constant the native API uses for this attachment point.
    pub fn gl(&self) -> (r: u32)
        requires
            self.wf(),
        ensures
            r == self.spec_gl(),
    {
        match self {
            AttachmentType::Color(n) => GL_COLOR_ATTACHMENT0 + *n,
            AttachmentType::Stencil => GL_STENCIL_ATTACHMENT,
            AttachmentType::Depth => GL_DEPTH_ATTACHMENT,
        }
    }
}

} // verus!
