//! Vertex arrays: derivation of packed attribute layouts from a declared
//! attribute list, and the bookkeeping of the named vertex buffers that
//! belong to one vertex array.
//!
//! A vertex array object remembers, on the driver side, the index buffer and
//! the attribute pointers set while it is bound.  The verified model keeps
//! the handles and the name-to-buffer map, and returns the native calls to
//! make.

use vstd::prelude::*;
use crate::GlslDType;
use crate::DType;
use crate::assoc::{al_find, al_lookup, al_remove, al_set, al_unique, lemma_al_lookup_found};
use crate::buffer::{Buffer, BufferType, DrawType};
use crate::call::{GlCall, GL_ARRAY_BUFFER, GL_ELEMENT_ARRAY_BUFFER};

verus! {

/// The derived memory layout of one vertex attribute: where it sits inside
/// one interleaved vertex record, and the record's total size.
#[derive(Clone, Copy, Debug, PartialEq, Eq, Structural)]
pub struct AttributeLayout {
    pub stride: usize,
    pub location: usize,
    pub n_elements: usize,
    pub byte_offset: usize,
    pub type_: DType,
}

/// Total byte size of the first `k` attributes.
pub open spec fn attrs_size_prefix(attrs: Seq<GlslDType>, k: int) -> int
    decreases k,
{
    if k <= 0 {
        0
    } else {
        attrs_size_prefix(attrs, k - 1) + attrs[k - 1].spec_byte_size()
    }
}

/// Total byte size of one vertex record declared by `attrs`: the stride.
pub open spec fn total_size(attrs: Seq<GlslDType>) -> int {
    attrs_size_prefix(attrs, attrs.len() as int)
}

/// Every attribute takes at least four and at most sixty-four bytes.
pub proof fn lemma_byte_size_bounds(a: GlslDType)
    ensures
        4 <= a.spec_byte_size() <= 64,
{
    assert(a.spec_byte_size() == a.spec_n_elements() * 4);
}

/// Prefix sums of attribute sizes grow with the prefix and start at zero.
pub proof fn lemma_attrs_size_prefix_monotone(attrs: Seq<GlslDType>, j: int, k: int)
    requires
        0 <= j <= k,
    ensures
        0 <= attrs_size_prefix(attrs, j) <= attrs_size_prefix(attrs, k),
    decreases k,
{
    if k > 0 {
        if j < k {
            lemma_attrs_size_prefix_monotone(attrs, j, k - 1);
        } else {
            lemma_attrs_size_prefix_monotone(attrs, j - 1, k - 1);
        }
        lemma_byte_size_bounds(attrs[k - 1]);
    }
}

/// The first `k` attributes take at least four bytes each.
pub proof fn lemma_attrs_size_prefix_lower(attrs: Seq<GlslDType>, k: int)
    requires
        0 <= k,
    ensures
        attrs_size_prefix(attrs, k) >= 4 * k,
    decreases k,
{
    if k > 0 {
        lemma_attrs_size_prefix_lower(attrs, k - 1);
        lemma_byte_size_bounds(attrs[k - 1]);
    }
}

/// The layouts derived from an attribute list: attribute `i` goes to slot
/// `i`, its offset is the size of everything before it, and all layouts share
/// the record's total size as their stride.
pub open spec fn spec_derive_layouts(attrs: Seq<GlslDType>) -> Seq<AttributeLayout> {
    Seq::new(
        attrs.len(),
        |i: int|
            AttributeLayout {
                stride: total_size(attrs) as usize,
                location: i as usize,
                n_elements: attrs[i].spec_n_elements(),
                byte_offset: attrs_size_prefix(attrs, i) as usize,
                type_: attrs[i].spec_dtype(),
            },
    )
}

/// Derives the packed layouts of an interleaved vertex record, one per
/// declared attribute, in declaration order.
pub fn derive_layouts(attrs: &Vec<GlslDType>) -> (r: Vec<AttributeLayout>)
    requires
        total_size(attrs@) <= usize::MAX,
    ensures
        r@ == spec_derive_layouts(attrs@),
{
    let mut stride: usize = 0;
    let mut i: usize = 0;
    while i < attrs.len()
        invariant
            0 <= i <= attrs@.len(),
            stride == attrs_size_prefix(attrs@, i as int),
            total_size(attrs@) <= usize::MAX,
        decreases attrs@.len() - i,
    {
        proof {
            lemma_attrs_size_prefix_monotone(attrs@, i as int + 1, attrs@.len() as int);
        }
        let n = attrs[i].n_elements();
        let sz = attrs[i].dtype().size();
        stride = stride + n * sz;
        i = i + 1;
    }
    let mut r: Vec<AttributeLayout> = Vec::new();
    let mut offset: usize = 0;
    let mut j: usize = 0;
    while j < attrs.len()
        invariant
            0 <= j <= attrs@.len(),
            offset == attrs_size_prefix(attrs@, j as int),
            stride == total_size(attrs@),
            total_size(attrs@) <= usize::MAX,
            r@.len() == j,
            forall|k: int| 0 <= k < j ==> r@[k] == spec_derive_layouts(attrs@)[k],
        decreases attrs@.len() - j,
    {
        proof {
            lemma_attrs_size_prefix_monotone(attrs@, j as int + 1, attrs@.len() as int);
            lemma_attrs_size_prefix_monotone(attrs@, j as int, attrs@.len() as int);
        }
        let n = attrs[j].n_elements();
        let ty = attrs[j].dtype();
        let sz = ty.size();
        r.push(AttributeLayout {
            stride,
            location: j,
            n_elements: n,
            byte_offset: offset,
            type_: ty,
        });
        offset = offset + n * sz;
        j = j + 1;
    }
    proof {
        assert(r@ =~= spec_derive_layouts(attrs@));
    }
    r
}

/// Sum of the byte sizes the first `k` layouts claim for their elements.
pub open spec fn layouts_size_prefix(ls: Seq<AttributeLayout>, k: int) -> int
    decreases k,
{
    if k <= 0 {
        0
    } else {
        layouts_size_prefix(ls, k - 1) + ls[k - 1].n_elements * ls[k - 1].type_.spec_size()
    }
}

/// Sum of the byte sizes the layouts claim for their elements.
pub open spec fn layouts_size_sum(ls: Seq<AttributeLayout>) -> int {
    layouts_size_prefix(ls, ls.len() as int)
}

proof fn lemma_layouts_size_prefix_derive(attrs: Seq<GlslDType>, k: int)
    requires
        0 <= k <= attrs.len(),
    ensures
        layouts_size_prefix(spec_derive_layouts(attrs), k) == attrs_size_prefix(attrs, k),
    decreases k,
{
    if k > 0 {
        lemma_layouts_size_prefix_derive(attrs, k - 1);
    }
}

/// Law: over any non-empty attribute list, the element byte sizes of the
/// derived layouts sum to the shared stride, and every layout carries that
/// same stride.
pub proof fn lemma_layout_sizes_sum_to_stride(attrs: Seq<GlslDType>)
    requires
        attrs.len() > 0,
        total_size(attrs) <= usize::MAX,
    ensures
        layouts_size_sum(spec_derive_layouts(attrs)) == total_size(attrs),
        forall|i: int| 0 <= i < attrs.len() ==> #[trigger] spec_derive_layouts(attrs)[i].stride
            == total_size(attrs),
{
    lemma_layouts_size_prefix_derive(attrs, attrs.len() as int);
    lemma_attrs_size_prefix_monotone(attrs, 0, attrs.len() as int);
}

/// Law: the derived layouts place attribute `i` in slot `i` at the byte
/// offset that is exactly the size of the attributes declared before it.
pub proof fn lemma_layout_offsets(attrs: Seq<GlslDType>)
    requires
        total_size(attrs) <= usize::MAX,
    ensures
        spec_derive_layouts(attrs).len() == attrs.len(),
        forall|i: int| 0 <= i < attrs.len() ==> #[trigger] spec_derive_layouts(attrs)[i].location
            == i,
        forall|i: int| 0 <= i < attrs.len() ==> #[trigger] spec_derive_layouts(attrs)[i].byte_offset
            == attrs_size_prefix(attrs, i),
{
    lemma_attrs_size_prefix_lower(attrs, attrs.len() as int);
    assert forall|i: int| 0 <= i < attrs.len() implies #[trigger] spec_derive_layouts(
        attrs,
    )[i].byte_offset == attrs_size_prefix(attrs, i) by {
        lemma_attrs_size_prefix_monotone(attrs, i, attrs.len() as int);
    }
}

impl AttributeLayout {
    /// The two calls that register this layout with the bound vertex array.
    pub open spec fn spec_set_calls(self) -> Seq<GlCall> {
        seq![
            GlCall::EnableVertexAttribArray { location: self.location },
            GlCall::VertexAttribPointer {
                location: self.location,
                n_elements: self.n_elements,
                dtype: self.type_.spec_gl(),
                stride: self.stride,
                byte_offset: self.byte_offset,
            },
        ]
    }

    /// The calls that register this layout with the bound vertex array.
    pub fn set(&self) -> (r: Vec<GlCall>)
        ensures
            r@ == self.spec_set_calls(),
    {
        let mut r: Vec<GlCall> = Vec::new();
        r.push(GlCall::EnableVertexAttribArray { location: self.location });
        r.push(GlCall::VertexAttribPointer {
            location: self.location,
            n_elements: self.n_elements,
            dtype: self.type_.gl(),
            stride: self.stride,
            byte_offset: self.byte_offset,
        });
        proof {
            assert(r@ =~= self.spec_set_calls());
        }
        r
    }
}

/// The calls that register every given layout, in order.
pub open spec fn layouts_set_calls(ls: Seq<AttributeLayout>) -> Seq<GlCall>
    decreases ls.len(),
{
    if ls.len() == 0 {
        Seq::empty()
    } else {
        ls[0].spec_set_calls() + layouts_set_calls(ls.drop_first())
    }
}

/// A vertex record type declares its attributes; the layouts and the calls
/// that register them follow from the declaration.
pub trait HasVertexAttributes {
    /// The declared attribute list, in slot order.
    spec fn spec_attributes() -> Seq<GlslDType>;

    /// The declared attribute list, in slot order.
    fn attributes() -> (r: Vec<GlslDType>)
        ensures
            r@ == Self::spec_attributes(),
    ;

    /// The packed layouts of this record type.
    fn layouts() -> (r: Vec<AttributeLayout>)
        requires
            total_size(Self::spec_attributes()) <= usize::MAX,
        ensures
            r@ == spec_derive_layouts(Self::spec_attributes()),
    {
        let attrs = Self::attributes();
        derive_layouts(&attrs)
    }

    /// The calls that register every layout of this record type.
    fn set_layouts() -> (r: Vec<GlCall>)
        requires
            total_size(Self::spec_attributes()) <= usize::MAX,
        ensures
            r@ == layouts_set_calls(spec_derive_layouts(Self::spec_attributes())),
    {
        let ls = Self::layouts();
        let ghost lsv = spec_derive_layouts(Self::spec_attributes());
        let mut r: Vec<GlCall> = Vec::new();
        let mut i: usize = 0;
        proof {
            assert(lsv.skip(0) =~= lsv);
            assert(r@ + layouts_set_calls(lsv) =~= layouts_set_calls(lsv));
        }
        while i < ls.len()
            invariant
                0 <= i <= ls@.len(),
                ls@ == lsv,
                r@ + layouts_set_calls(lsv.skip(i as int)) == layouts_set_calls(lsv),
            decreases ls@.len() - i,
        {
            proof {
                assert(lsv.skip(i as int)[0] == lsv[i as int]);
                assert(lsv.skip(i as int).drop_first() =~= lsv.skip(i as int + 1));
            }
            let mut cs = ls[i].set();
            r.append(&mut cs);
            i = i + 1;
        }
        proof {
            assert(lsv.skip(lsv.len() as int) =~= Seq::<AttributeLayout>::empty());
            assert(r@ =~= layouts_set_calls(lsv));
        }
        r
    }
}

/// A position-only vertex: one three-element float vector per record, the
/// three coordinates stored as the raw bits of 32-bit floats.
impl HasVertexAttributes for [u32; 3] {
    open spec fn spec_attributes() -> Seq<GlslDType> {
        seq![GlslDType::Vec3]
    }

    fn attributes() -> (r: Vec<GlslDType>)
        ensures
            r@ == Self::spec_attributes(),
    {
        let mut r: Vec<GlslDType> = Vec::new();
        r.push(GlslDType::Vec3);
        proof {
            assert(r@ =~= seq![GlslDType::Vec3]);
        }
        r
    }
}

/// One vertex array object: its handle, its named vertex buffers, its index
/// buffer and the usage hint its buffers are created with.
#[derive(Debug)]
pub struct VertexArray {
    pub vao: u32,
    pub vbos: Vec<(String, Buffer)>,
    pub ibo: Buffer,
    pub drawtype: DrawType,
}

impl VertexArray {
    /// The names of the vertex buffers are pairwise distinct.
    pub open spec fn wf(self) -> bool {
        al_unique(self.vbos@)
    }

    /// A fresh vertex array around the two handles the host obtained from the
    /// driver; the returned calls bind the array and its index buffer, so
    /// that the array records the index buffer.
    pub fn new(drawtype: DrawType, vao: u32, ibo_id: u32) -> (r: (VertexArray, Vec<GlCall>))
        ensures
            r.0.wf(),
            r.0.vao == vao,
            r.0.vbos@ == Seq::<(String, Buffer)>::empty(),
            r.0.ibo == (Buffer {
                id: ibo_id,
                buffertype: GL_ELEMENT_ARRAY_BUFFER,
                drawtype: drawtype.spec_gl(),
            }),
            r.0.drawtype == drawtype,
            r.1@ == seq![
                GlCall::BindVertexArray { vao },
                GlCall::BindBuffer { target: GL_ELEMENT_ARRAY_BUFFER, buffer: ibo_id },
            ],
    {
        let ibo = Buffer::new(ibo_id, BufferType::Index, drawtype);
        let mut calls: Vec<GlCall> = Vec::new();
        calls.push(GlCall::BindVertexArray { vao });
        calls.push(ibo.bind());
        let va = VertexArray { vao, vbos: Vec::new(), ibo, drawtype };
        proof {
            assert(calls@ =~= seq![
                GlCall::BindVertexArray { vao },
                GlCall::BindBuffer { target: GL_ELEMENT_ARRAY_BUFFER, buffer: ibo_id },
            ]);
        }
        (va, calls)
    }

    /// A fresh vertex array whose buffers carry the static usage hint.
    pub fn new_static(vao: u32, ibo_id: u32) -> (r: (VertexArray, Vec<GlCall>))
        ensures
            r.0.wf(),
            r.0.vao == vao,
            r.0.vbos@ == Seq::<(String, Buffer)>::empty(),
            r.0.ibo == (Buffer {
                id: ibo_id,
                buffertype: GL_ELEMENT_ARRAY_BUFFER,
                drawtype: DrawType::Static.spec_gl(),
            }),
            r.0.drawtype == DrawType::Static,
            r.1@ == seq![
                GlCall::BindVertexArray { vao },
                GlCall::BindBuffer { target: GL_ELEMENT_ARRAY_BUFFER, buffer: ibo_id },
            ],
    {
        Self::new(DrawType::Static, vao, ibo_id)
    }

    /// A fresh vertex array whose buffers carry the dynamic usage hint.
    pub fn new_dynamic(vao: u32, ibo_id: u32) -> (r: (VertexArray, Vec<GlCall>))
        ensures
            r.0.wf(),
            r.0.vao == vao,
            r.0.vbos@ == Seq::<(String, Buffer)>::empty(),
            r.0.ibo == (Buffer {
                id: ibo_id,
                buffertype: GL_ELEMENT_ARRAY_BUFFER,
                drawtype: DrawType::Dynamic.spec_gl(),
            }),
            r.0.drawtype == DrawType::Dynamic,
            r.1@ == seq![
                GlCall::BindVertexArray { vao },
                GlCall::BindBuffer { target: GL_ELEMENT_ARRAY_BUFFER, buffer: ibo_id },
            ],
    {
        Self::new(DrawType::Dynamic, vao, ibo_id)
    }

    /// The call that binds this vertex array.
    pub fn bind(&self) -> (r: GlCall)
        ensures
            r == (GlCall::BindVertexArray { vao: self.vao }),
    {
        GlCall::BindVertexArray { vao: self.vao }
    }

    /// The call that unbinds whatever vertex array is bound.
    pub fn unbind() -> (r: GlCall)
        ensures
            r == (GlCall::BindVertexArray { vao: 0 }),
    {
        GlCall::BindVertexArray { vao: 0 }
    }

    /// Registers a fresh vertex buffer under `name` (replacing what the name
    /// held) and returns the calls that bind it, fill it with `content` and
    /// register the layouts of the record type `T`.
    pub fn new_vertex_buffer_filled<T: HasVertexAttributes>(
        &mut self,
        name: &str,
        vbo_id: u32,
        content: &[T],
    ) -> (r: Vec<GlCall>)
        requires
            old(self).wf(),
            content@.len() * vstd::layout::size_of::<T>() <= usize::MAX,
            total_size(T::spec_attributes()) <= usize::MAX,
        ensures
            final(self).wf(),
            final(self).vao == old(self).vao,
            final(self).ibo == old(self).ibo,
            final(self).drawtype == old(self).drawtype,
            al_lookup(final(self).vbos@, name@) == Some(Buffer {
                id: vbo_id,
                buffertype: GL_ARRAY_BUFFER,
                drawtype: old(self).drawtype.spec_gl(),
            }),
            forall|o: Seq<char>| o != name@ ==> al_lookup(final(self).vbos@, o) == al_lookup(
                old(self).vbos@,
                o,
            ),
            r@ == seq![
                GlCall::BindBuffer { target: GL_ARRAY_BUFFER, buffer: vbo_id },
                GlCall::BufferData {
                    target: GL_ARRAY_BUFFER,
                    byte_len: (content@.len() * vstd::layout::size_of::<T>()) as usize,
                    usage: old(self).drawtype.spec_gl(),
                },
            ] + layouts_set_calls(spec_derive_layouts(T::spec_attributes())),
    {
        let vbo = Buffer::new(vbo_id, BufferType::Vertex, self.drawtype);
        let mut calls: Vec<GlCall> = Vec::new();
        calls.push(vbo.bind());
        calls.push(vbo.buffer(content));
        let mut lay = T::set_layouts();
        calls.append(&mut lay);
        al_set(&mut self.vbos, name, vbo);
        proof {
            assert(calls@ =~= seq![
                GlCall::BindBuffer { target: GL_ARRAY_BUFFER, buffer: vbo_id },
                GlCall::BufferData {
                    target: GL_ARRAY_BUFFER,
                    byte_len: (content@.len() * vstd::layout::size_of::<T>()) as usize,
                    usage: old(self).drawtype.spec_gl(),
                },
            ] + layouts_set_calls(spec_derive_layouts(T::spec_attributes())));
        }
        calls
    }

    /// Registers a fresh vertex buffer under `name` (replacing what the name
    /// held) and returns the calls that bind it, allocate room for
    /// `n_vertices` records of `T` and register the layouts of `T`.
    pub fn new_vertex_buffer_empty<T: HasVertexAttributes>(
        &mut self,
        name: &str,
        vbo_id: u32,
        n_vertices: usize,
    ) -> (r: Vec<GlCall>)
        requires
            old(self).wf(),
            n_vertices * vstd::layout::size_of::<T>() <= usize::MAX,
            total_size(T::spec_attributes()) <= usize::MAX,
        ensures
            final(self).wf(),
            final(self).vao == old(self).vao,
            final(self).ibo == old(self).ibo,
            final(self).drawtype == old(self).drawtype,
            al_lookup(final(self).vbos@, name@) == Some(Buffer {
                id: vbo_id,
                buffertype: GL_ARRAY_BUFFER,
                drawtype: old(self).drawtype.spec_gl(),
            }),
            forall|o: Seq<char>| o != name@ ==> al_lookup(final(self).vbos@, o) == al_lookup(
                old(self).vbos@,
                o,
            ),
            r@ == seq![
                GlCall::BindBuffer { target: GL_ARRAY_BUFFER, buffer: vbo_id },
                GlCall::BufferData {
                    target: GL_ARRAY_BUFFER,
                    byte_len: (n_vertices * vstd::layout::size_of::<T>()) as usize,
                    usage: old(self).drawtype.spec_gl(),
                },
            ] + layouts_set_calls(spec_derive_layouts(T::spec_attributes())),
    {
        let vbo = Buffer::new(vbo_id, BufferType::Vertex, self.drawtype);
        let mut calls: Vec<GlCall> = Vec::new();
        calls.push(vbo.bind());
        calls.push(vbo.init(n_vertices * core::mem::size_of::<T>()));
        let mut lay = T::set_layouts();
        calls.append(&mut lay);
        al_set(&mut self.vbos, name, vbo);
        proof {
            assert(calls@ =~= seq![
                GlCall::BindBuffer { target: GL_ARRAY_BUFFER, buffer: vbo_id },
                GlCall::BufferData {
                    target: GL_ARRAY_BUFFER,
                    byte_len: (n_vertices * vstd::layout::size_of::<T>()) as usize,
                    usage: old(self).drawtype.spec_gl(),
                },
            ] + layouts_set_calls(spec_derive_layouts(T::spec_attributes())));
        }
        calls
    }

    /// Forgets the vertex buffer stored under `name`; every other name keeps
    /// its buffer.
    pub fn drop_vertex_buffer(&mut self, name: &str)
        requires
            old(self).wf(),
        ensures
            final(self).wf(),
            final(self).vao == old(self).vao,
            final(self).ibo == old(self).ibo,
            final(self).drawtype == old(self).drawtype,
            al_lookup(final(self).vbos@, name@) is None,
            forall|o: Seq<char>| o != name@ ==> al_lookup(final(self).vbos@, o) == al_lookup(
                old(self).vbos@,
                o,
            ),
    {
        al_remove(&mut self.vbos, name);
    }

    /// The calls that bind the index buffer and fill it with `indices`.
    pub fn buffer_indices<T>(&self, indices: &[T]) -> (r: Vec<GlCall>)
        requires
            indices@.len() * vstd::layout::size_of::<T>() <= usize::MAX,
        ensures
            r@ == seq![
                GlCall::BindBuffer { target: self.ibo.buffertype, buffer: self.ibo.id },
                GlCall::BufferData {
                    target: self.ibo.buffertype,
                    byte_len: (indices@.len() * vstd::layout::size_of::<T>()) as usize,
                    usage: self.ibo.drawtype,
                },
            ],
    {
        let mut calls: Vec<GlCall> = Vec::new();
        calls.push(self.ibo.bind());
        calls.push(self.ibo.buffer(indices));
        proof {
            assert(calls@ =~= seq![
                GlCall::BindBuffer { target: self.ibo.buffertype, buffer: self.ibo.id },
                GlCall::BufferData {
                    target: self.ibo.buffertype,
                    byte_len: (indices@.len() * vstd::layout::size_of::<T>()) as usize,
                    usage: self.ibo.drawtype,
                },
            ]);
        }
        calls
    }

    /// The calls that overwrite, from byte `offset` on, part of the index
    /// buffer with `indices` and part of the vertex buffer stored under
    /// `vbo_name` with `vertices`.
    pub fn subbuffer<V, I>(
        &mut self,
        vbo_name: &str,
        vertices: &[V],
        indices: &[I],
        offset: usize,
    ) -> (r: Vec<GlCall>)
        requires
            old(self).wf(),
            al_lookup(old(self).vbos@, vbo_name@) is Some,
            vertices@.len() * vstd::layout::size_of::<V>() <= usize::MAX,
            indices@.len() * vstd::layout::size_of::<I>() <= usize::MAX,
        ensures
            *final(self) == *old(self),
            r@ == seq![
                GlCall::BindBuffer { target: old(self).ibo.buffertype, buffer: old(self).ibo.id },
                GlCall::BufferSubData {
                    target: old(self).ibo.buffertype,
                    byte_offset: offset,
                    byte_len: (indices@.len() * vstd::layout::size_of::<I>()) as usize,
                },
                GlCall::BindBuffer {
                    target: al_lookup(old(self).vbos@, vbo_name@)->Some_0.buffertype,
                    buffer: al_lookup(old(self).vbos@, vbo_name@)->Some_0.id,
                },
                GlCall::BufferSubData {
                    target: al_lookup(old(self).vbos@, vbo_name@)->Some_0.buffertype,
                    byte_offset: offset,
                    byte_len: (vertices@.len() * vstd::layout::size_of::<V>()) as usize,
                },
            ],
    {
        let mut calls: Vec<GlCall> = Vec::new();
        calls.push(self.ibo.bind());
        calls.push(self.ibo.subbuffer(indices, offset));
        let found = al_find(&self.vbos, vbo_name);
        match found {
            Some(i) => {
                proof {
                    lemma_al_lookup_found(self.vbos@, vbo_name@, i as int);
                }
                let vbo = self.vbos[i].1;
                calls.push(vbo.bind());
                calls.push(vbo.subbuffer(vertices, offset));
                proof {
                    assert(calls@ =~= seq![
                        GlCall::BindBuffer {
                            target: old(self).ibo.buffertype,
                            buffer: old(self).ibo.id,
                        },
                        GlCall::BufferSubData {
                            target: old(self).ibo.buffertype,
                            byte_offset: offset,
                            byte_len: (indices@.len() * vstd::layout::size_of::<I>()) as usize,
                        },
                        GlCall::BindBuffer {
                            target: al_lookup(old(self).vbos@, vbo_name@)->Some_0.buffertype,
                            buffer: al_lookup(old(self).vbos@, vbo_name@)->Some_0.id,
                        },
                        GlCall::BufferSubData {
                            target: al_lookup(old(self).vbos@, vbo_name@)->Some_0.buffertype,
                            byte_offset: offset,
                            byte_len: (vertices@.len() * vstd::layout::size_of::<V>()) as usize,
                        },
                    ]);
                }
                calls
            },
            None => {
                proof {
                    assert(false);
                }
                calls
            },
        }
    }
}

} // verus!
