//! Driver buffer objects, modeled as the handle plus the two numeric
//! constants they were created with.  Methods return the native call to make.

use vstd::prelude::*;
use crate::call::{GlCall, GL_ARRAY_BUFFER, GL_DYNAMIC_DRAW, GL_ELEMENT_ARRAY_BUFFER,
    GL_STATIC_DRAW, GL_UNIFORM_BUFFER};

verus! {

/// What a buffer object is bound as.
#[derive(Clone, Copy, Debug, PartialEq, Eq, Structural)]
pub enum BufferType {
    Index,
    Vertex,
    Uniform,
}

impl BufferType {
    /// The numeric constant the native API uses for this buffer target.
    pub open spec fn spec_gl(self) -> u32 {
        match self {
            BufferType::Index => GL_ELEMENT_ARRAY_BUFFER,
            BufferType::Vertex => GL_ARRAY_BUFFER,
            BufferType::Uniform => GL_UNIFORM_BUFFER,
        }
    }

    /// The numeric constant the native API uses for this buffer target.
    pub fn gl(&self) -> (r: u32)
        ensures
            r == self.spec_gl(),
    {
        match self {
            BufferType::Index => GL_ELEMENT_ARRAY_BUFFER,
            BufferType::Vertex => GL_ARRAY_BUFFER,
            BufferType::Uniform => GL_UNIFORM_BUFFER,
        }
    }
}

/// How often the buffer's contents are expected to change.
#[derive(Clone, Copy, Debug, PartialEq, Eq, Structural)]
pub enum DrawType {
    Static,
    Dynamic,
}

impl DrawType {
    /// The numeric constant the native API uses for this usage hint.
    pub open spec fn spec_gl(self) -> u32 {
        match self {
            DrawType::Static => GL_STATIC_DRAW,
            DrawType::Dynamic => GL_DYNAMIC_DRAW,
        }
    }

    /// The numeric constant the native API uses for this usage hint.
    pub fn gl(&self) -> (r: u32)
        ensures
            r == self.spec_gl(),
    {
        match self {
            DrawType::Static => GL_STATIC_DRAW,
            DrawType::Dynamic => GL_DYNAMIC_DRAW,
        }
    }
}

/// One driver buffer object: its handle, its binding target and its usage
/// hint, all as the native numeric values.
#[derive(Clone, Copy, Debug, PartialEq, Eq, Structural)]
pub struct Buffer {
    pub id: u32,
    pub buffertype: u32,
    pub drawtype: u32,
}

impl Buffer {
    /// Wraps a handle the host obtained from the driver.
    pub fn new(id: u32, buffertype: BufferType, drawtype: DrawType) -> (r: Buffer)
        ensures
            r == (Buffer {
                id,
                buffertype: buffertype.spec_gl(),
                drawtype: drawtype.spec_gl(),
            }),
    {
        Buffer { id, buffertype: buffertype.gl(), drawtype: drawtype.gl() }
    }

    /// The call that binds this buffer to its target.
    pub fn bind(&self) -> (r: GlCall)
        ensures
            r == (GlCall::BindBuffer { target: self.buffertype, buffer: self.id }),
    {
        GlCall::BindBuffer { target: self.buffertype, buffer: self.id }
    }

    /// The call that unbinds this buffer's target.
    pub fn unbind(&self) -> (r: GlCall)
        ensures
            r == (GlCall::BindBuffer { target: self.buffertype, buffer: 0 }),
    {
        GlCall::BindBuffer { target: self.buffertype, buffer: 0 }
    }

    /// The call that attaches this buffer to an indexed binding point, as for
    /// a uniform block.
    pub fn set_binding(&self, binding: u32) -> (r: GlCall)
        ensures
            r == (GlCall::BindBufferBase {
                target: self.buffertype,
                binding,
                buffer: self.id,
            }),
    {
        GlCall::BindBufferBase { target: self.buffertype, binding, buffer: self.id }
    }

    /// The call that allocates `size` bytes of driver storage without
    /// handing over any data.
    pub fn init(&self, size: usize) -> (r: GlCall)
        ensures
            r == (GlCall::BufferData {
                target: self.buffertype,
                byte_len: size,
                usage: self.drawtype,
            }),
    {
        GlCall::BufferData { target: self.buffertype, byte_len: size, usage: self.drawtype }
    }

    /// The call that fills this buffer with the given slice; the host hands
    /// the slice's bytes to the driver alongside it.
    pub fn buffer<T>(&self, content: &[T]) -> (r: GlCall)
        requires
            content@.len() * vstd::layout::size_of::<T>() <= usize::MAX,
        ensures
            r == (GlCall::BufferData {
                target: self.buffertype,
                byte_len: (content@.len() * vstd::layout::size_of::<T>()) as usize,
                usage: self.drawtype,
            }),
    {
        let byte_len: usize = content.len() * core::mem::size_of::<T>();
        GlCall::BufferData { target: self.buffertype, byte_len, usage: self.drawtype }
    }

    /// The call that overwrites part of this buffer with the given slice,
    /// starting `offset` bytes in.
    pub fn subbuffer<T>(&self, content: &[T], offset: usize) -> (r: GlCall)
        requires
            content@.len() * vstd::layout::size_of::<T>() <= usize::MAX,
        ensures
            r == (GlCall::BufferSubData {
                target: self.buffertype,
                byte_offset: offset,
                byte_len: (content@.len() * vstd::layout::size_of::<T>()) as usize,
            }),
    {
        let byte_len: usize = content.len() * core::mem::size_of::<T>();
        GlCall::BufferSubData { target: self.buffertype, byte_offset: offset, byte_len }
    }
}

} // verus!
