use glwrap::buffer::{Buffer, BufferType, DrawType};
use glwrap::call::GlCall;
use glwrap::framebuffer::AttachmentType;
use glwrap::settings::{disable, enable, Setting};
use glwrap::shader::{ShaderOptions, ShaderProgram};
use glwrap::vao::VertexArray;

#[test]
fn buffer_calls_carry_target_and_usage() {
    let b = Buffer::new(7, BufferType::Vertex, DrawType::Static);
    assert_eq!(b.bind(), GlCall::BindBuffer { target: 0x8892, buffer: 7 });
    assert_eq!(b.unbind(), GlCall::BindBuffer { target: 0x8892, buffer: 0 });
    assert_eq!(
        b.set_binding(2),
        GlCall::BindBufferBase { target: 0x8892, binding: 2, buffer: 7 }
    );
    assert_eq!(b.init(64), GlCall::BufferData { target: 0x8892, byte_len: 64, usage: 0x88E4 });
}

#[test]
fn buffer_data_counts_bytes() {
    let b = Buffer::new(1, BufferType::Index, DrawType::Dynamic);
    let data: [u32; 3] = [9, 8, 7];
    assert_eq!(
        b.buffer(&data),
        GlCall::BufferData { target: 0x8893, byte_len: 12, usage: 0x88E8 }
    );
    assert_eq!(
        b.subbuffer(&data, 24),
        GlCall::BufferSubData { target: 0x8893, byte_offset: 24, byte_len: 12 }
    );
}

#[test]
fn uniform_buffer_target() {
    let b = Buffer::new(4, BufferType::Uniform, DrawType::Static);
    assert_eq!(b.bind(), GlCall::BindBuffer { target: 0x8A11, buffer: 4 });
}

#[test]
fn settings_map_to_capabilities() {
    assert_eq!(
        enable(&[Setting::Depth, Setting::Scissor, Setting::Culling, Setting::Blend]),
        vec![
            GlCall::Enable { cap: 0x0B71 },
            GlCall::Enable { cap: 0x0C11 },
            GlCall::Enable { cap: 0x0B44 },
            GlCall::Enable { cap: 0x0BE2 },
        ]
    );
    assert_eq!(
        disable(&[Setting::Depth]),
        vec![GlCall::Disable { cap: 0x0B71 }]
    );
}

#[test]
fn wireframe_uses_polygon_mode() {
    assert_eq!(
        enable(&[Setting::Wireframe]),
        vec![GlCall::PolygonMode { face: 0x0408, mode: 0x1B01 }]
    );
    assert_eq!(
        disable(&[Setting::Wireframe]),
        vec![GlCall::PolygonMode { face: 0x0408, mode: 0x1B02 }]
    );
}

#[test]
fn attachment_constants() {
    assert_eq!(AttachmentType::Color(0).gl(), 0x8CE0);
    assert_eq!(AttachmentType::Color(3).gl(), 0x8CE3);
    assert_eq!(AttachmentType::Stencil.gl(), 0x8D20);
    assert_eq!(AttachmentType::Depth.gl(), 0x8D00);
}

#[test]
fn vertex_array_construction() {
    let (va, calls) = VertexArray::new_static(5, 9);
    assert_eq!(va.vao, 5);
    assert_eq!(va.ibo.id, 9);
    assert_eq!(va.ibo.buffertype, 0x8893);
    assert_eq!(va.drawtype, DrawType::Static);
    assert!(va.vbos.is_empty());
    assert_eq!(
        calls,
        vec![
            GlCall::BindVertexArray { vao: 5 },
            GlCall::BindBuffer { target: 0x8893, buffer: 9 },
        ]
    );
    let (vd, _) = VertexArray::new_dynamic(1, 2);
    assert_eq!(vd.drawtype, DrawType::Dynamic);
    assert_eq!(va.bind(), GlCall::BindVertexArray { vao: 5 });
    assert_eq!(VertexArray::unbind(), GlCall::BindVertexArray { vao: 0 });
}

#[test]
fn filled_vertex_buffer_registers_layouts() {
    let (mut va, _) = VertexArray::new_static(1, 2);
    let verts: [[u32; 3]; 2] = [[0, 0, 0], [1, 1, 1]];
    let calls = va.new_vertex_buffer_filled("pos", 11, &verts);
    assert_eq!(
        calls,
        vec![
            GlCall::BindBuffer { target: 0x8892, buffer: 11 },
            GlCall::BufferData { target: 0x8892, byte_len: 24, usage: 0x88E4 },
            GlCall::EnableVertexAttribArray { location: 0 },
            GlCall::VertexAttribPointer {
                location: 0,
                n_elements: 3,
                dtype: 0x1406,
                stride: 12,
                byte_offset: 0,
            },
        ]
    );
    assert_eq!(va.vbos.len(), 1);
    assert_eq!(va.vbos[0].0, "pos");
    assert_eq!(va.vbos[0].1.id, 11);
}

#[test]
fn empty_vertex_buffer_reserves_bytes() {
    let (mut va, _) = VertexArray::new_dynamic(1, 2);
    let calls = va.new_vertex_buffer_empty::<[u32; 3]>("pos", 6, 10);
    assert_eq!(calls[1], GlCall::BufferData { target: 0x8892, byte_len: 120, usage: 0x88E8 });
}

#[test]
fn vertex_buffer_names_are_replaced_and_dropped() {
    let (mut va, _) = VertexArray::new_static(1, 2);
    let verts: [[u32; 3]; 1] = [[0, 0, 0]];
    va.new_vertex_buffer_filled("pos", 11, &verts);
    va.new_vertex_buffer_filled("pos", 12, &verts);
    assert_eq!(va.vbos.len(), 1);
    assert_eq!(va.vbos[0].1.id, 12);
    va.new_vertex_buffer_filled("other", 13, &verts);
    assert_eq!(va.vbos.len(), 2);
    va.drop_vertex_buffer("pos");
    assert_eq!(va.vbos.len(), 1);
    assert_eq!(va.vbos[0].0, "other");
}

#[test]
fn index_buffering_and_subbuffering() {
    let (mut va, _) = VertexArray::new_static(3, 4);
    let indices: [u32; 6] = [0, 1, 2, 2, 1, 0];
    assert_eq!(
        va.buffer_indices(&indices),
        vec![
            GlCall::BindBuffer { target: 0x8893, buffer: 4 },
            GlCall::BufferData { target: 0x8893, byte_len: 24, usage: 0x88E4 },
        ]
    );
    let verts: [[u32; 3]; 1] = [[0, 0, 0]];
    va.new_vertex_buffer_filled("pos", 11, &verts);
    let calls = va.subbuffer("pos", &verts, &indices[0..2], 8);
    assert_eq!(
        calls,
        vec![
            GlCall::BindBuffer { target: 0x8893, buffer: 4 },
            GlCall::BufferSubData { target: 0x8893, byte_offset: 8, byte_len: 8 },
            GlCall::BindBuffer { target: 0x8892, buffer: 11 },
            GlCall::BufferSubData { target: 0x8892, byte_offset: 8, byte_len: 12 },
        ]
    );
}

#[test]
fn shader_program_location_cache() {
    let mut p = ShaderProgram::new(3);
    assert_eq!(p.bind(), GlCall::UseProgram { program: 3 });
    assert_eq!(p.cached_location("color"), None);
    p.note_location("color", 7);
    assert_eq!(p.cached_location("color"), Some(7));
    p.note_location("missing", -1);
    assert_eq!(p.cached_location("missing"), None);
    p.note_location("color", 9);
    assert_eq!(p.cached_location("color"), Some(9));
    assert_eq!(p.loc_cache.len(), 1);
}

#[test]
fn shader_options_default_is_empty() {
    let o = ShaderOptions::default();
    assert!(o.vs_defines.is_empty());
    assert!(o.fs_defines.is_empty());
}
