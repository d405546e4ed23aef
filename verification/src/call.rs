//! Native driver calls as plain data.
//!
//! The verified layer never reaches the graphics driver itself.  Instead every
//! operation that needs the driver is described by a [`GlCall`] value holding
//! the exact arguments of the native call; the unverified host matches on the
//! value and performs it.  Bulk data (vertex and index slices) stays with the
//! host, which pairs it with the `BufferData` / `BufferSubData` call it asked
//! for; the call value carries the byte counts.

use vstd::prelude::*;

verus! {

/// Numeric constant of the native array-buffer target.
pub const GL_ARRAY_BUFFER: u32 = 0x8892;

/// Numeric constant of the native index-buffer target.
pub const GL_ELEMENT_ARRAY_BUFFER: u32 = 0x8893;

/// Numeric constant of the native uniform-buffer target.
pub const GL_UNIFORM_BUFFER: u32 = 0x8A11;

/// Numeric constant of the native static-draw usage hint.
pub const GL_STATIC_DRAW: u32 = 0x88E4;

/// Numeric constant of the native dynamic-draw usage hint.
pub const GL_DYNAMIC_DRAW: u32 = 0x88E8;

/// Numeric constant selecting front and back faces.
pub const GL_FRONT_AND_BACK: u32 = 0x0408;

/// Numeric constant of the line polygon mode.
pub const GL_LINE: u32 = 0x1B01;

/// Numeric constant of the fill polygon mode.
pub const GL_FILL: u32 = 0x1B02;

/// One call into the native driver, with the exact arguments to pass.
#[derive(Clone, Copy, Debug, PartialEq, Eq, Structural)]
pub enum GlCall {
    BindVertexArray { vao: u32 },
    BindBuffer { target: u32, buffer: u32 },
    BindBufferBase { target: u32, binding: u32, buffer: u32 },
    BufferData { target: u32, byte_len: usize, usage: u32 },
    BufferSubData { target: u32, byte_offset: usize, byte_len: usize },
    EnableVertexAttribArray { location: usize },
    VertexAttribPointer {
        location: usize,
        n_elements: usize,
        dtype: u32,
        stride: usize,
        byte_offset: usize,
    },
    Enable { cap: u32 },
    Disable { cap: u32 },
    PolygonMode { face: u32, mode: u32 },
    UseProgram { program: u32 },
}

} // verus!
