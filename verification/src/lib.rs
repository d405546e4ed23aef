//! A model of a thin object-oriented layer over a native graphics driver.
//!
//! The verified part of the layer is everything that can be computed without
//! touching the driver: vertex attribute layout derivation, shader source
//! preprocessing (stage splitting, `#define` injection, `#include`
//! substitution), the uniform-location cache, and the bookkeeping of named
//! vertex buffers.  Every operation that must reach the driver is returned to
//! the caller as a [`call::GlCall`] value describing the exact native call to
//! make; an unverified host executes those calls.

use vstd::prelude::*;

pub mod assoc;
pub mod buffer;
pub mod call;
pub mod framebuffer;
pub mod settings;
pub mod shader;
pub mod vao;
pub mod text;

verus! {

/// The primitive element type of one vertex attribute.
#[derive(Clone, Copy, Debug, PartialEq, Eq, Structural)]
pub enum DType {
    Float,
    Int,
    UInt,
    Byte,
}

impl DType {
    /// Byte size of one primitive element of this type.
    pub open spec fn spec_size(self) -> usize {
        match self {
            DType::Float => 4,
            DType::Int => 4,
            DType::UInt => 4,
            DType::Byte => 1,
        }
    }

    /// Byte size of one primitive element of this type.
    pub fn size(&self) -> (r: usize)
        ensures
            r == self.spec_size(),
    {
        match self {
            DType::Float => 4,
            DType::Int => 4,
            DType::UInt => 4,
            DType::Byte => 1,
        }
    }

    /// The numeric constant the native API uses for this element type.
    pub open spec fn spec_gl(self) -> u32 {
        match self {
            DType::Float => 0x1406,
            DType::Int => 0x1404,
            DType::UInt => 0x1405,
            DType::Byte => 0x1400,
        }
    }

    /// The numeric constant the native API uses for this element type.
    pub fn gl(&self) -> (r: u32)
        ensures
            r == self.spec_gl(),
    {
        match self {
            DType::Float => 0x1406,
            DType::Int => 0x1404,
            DType::UInt => 0x1405,
            DType::Byte => 0x1400,
        }
    }
}

/// The declared type of one vertex attribute slot.  A single slot never holds
/// anything but 32-bit floats; matrices are declared as one slot holding all
/// of their elements.
#[derive(Clone, Copy, Debug, PartialEq, Eq, Structural)]
pub enum GlslDType {
    Vec2,
    Vec3,
    Vec4,
    Float,
    Mat4,
    Mat3,
}

impl GlslDType {
    /// The primitive element type of this attribute type.
    pub open spec fn spec_dtype(self) -> DType {
        DType::Float
    }

    /// The primitive element type of this attribute type.
    pub fn dtype(&self) -> (r: DType)
        ensures
            r == self.spec_dtype(),
    {
        match self {
            GlslDType::Float
            | GlslDType::Vec2
            | GlslDType::Vec3
            | GlslDType::Vec4
            | GlslDType::Mat3
            | GlslDType::Mat4 => DType::Float,
        }
    }

    /// How many primitive elements this attribute type holds.
    pub open spec fn spec_n_elements(self) -> usize {
        match self {
            GlslDType::Float => 1,
            GlslDType::Vec2 => 2,
            GlslDType::Vec3 => 3,
            GlslDType::Vec4 => 4,
            GlslDType::Mat3 => 9,
            GlslDType::Mat4 => 16,
        }
    }

    /// How many primitive elements this attribute type holds.
    pub fn n_elements(&self) -> (r: usize)
        ensures
            r == self.spec_n_elements(),
    {
        match self {
            GlslDType::Float => 1,
            GlslDType::Vec2 => 2,
            GlslDType::Vec3 => 3,
            GlslDType::Vec4 => 4,
            GlslDType::Mat3 => 9,
            GlslDType::Mat4 => 16,
        }
    }

    /// Byte size of one attribute of this type.
    pub open spec fn spec_byte_size(self) -> int {
        self.spec_n_elements() * self.spec_dtype().spec_size()
    }
}

} // verus!
