use glwrap::vao::{derive_layouts, AttributeLayout, HasVertexAttributes};
use glwrap::{DType, GlslDType};

#[test]
fn dtype_sizes() {
    assert_eq!(DType::Float.size(), 4);
    assert_eq!(DType::Int.size(), 4);
    assert_eq!(DType::UInt.size(), 4);
    assert_eq!(DType::Byte.size(), 1);
}

#[test]
fn dtype_gl_constants() {
    assert_eq!(DType::Float.gl(), 0x1406);
    assert_eq!(DType::Int.gl(), 0x1404);
    assert_eq!(DType::UInt.gl(), 0x1405);
    assert_eq!(DType::Byte.gl(), 0x1400);
}

#[test]
fn glsl_dtype_element_counts() {
    assert_eq!(GlslDType::Float.n_elements(), 1);
    assert_eq!(GlslDType::Vec2.n_elements(), 2);
    assert_eq!(GlslDType::Vec3.n_elements(), 3);
    assert_eq!(GlslDType::Vec4.n_elements(), 4);
    assert_eq!(GlslDType::Mat3.n_elements(), 9);
    assert_eq!(GlslDType::Mat4.n_elements(), 16);
}

#[test]
fn glsl_dtype_is_float_based() {
    assert_eq!(GlslDType::Float.dtype(), DType::Float);
    assert_eq!(GlslDType::Vec2.dtype(), DType::Float);
    assert_eq!(GlslDType::Vec3.dtype(), DType::Float);
    assert_eq!(GlslDType::Vec4.dtype(), DType::Float);
    assert_eq!(GlslDType::Mat3.dtype(), DType::Float);
    assert_eq!(GlslDType::Mat4.dtype(), DType::Float);
}

#[test]
fn vec3_and_float_layouts() {
    let layouts = derive_layouts(&vec![GlslDType::Vec3, GlslDType::Float]);
    assert_eq!(
        layouts,
        vec![
            AttributeLayout {
                stride: 16,
                location: 0,
                n_elements: 3,
                byte_offset: 0,
                type_: DType::Float,
            },
            AttributeLayout {
                stride: 16,
                location: 1,
                n_elements: 1,
                byte_offset: 12,
                type_: DType::Float,
            },
        ]
    );
    assert_eq!(layouts[0].type_.size(), 4);
    assert_eq!(layouts[1].type_.size(), 4);
}

#[test]
fn empty_descriptor_sequence() {
    let layouts = derive_layouts(&vec![]);
    assert!(layouts.is_empty());
}

#[test]
fn sizes_sum_to_shared_stride() {
    let layouts = derive_layouts(&vec![GlslDType::Vec2, GlslDType::Mat4, GlslDType::Float]);
    let sum: usize = layouts.iter().map(|l| l.n_elements * l.type_.size()).sum();
    assert_eq!(sum, 76);
    for l in layouts.iter() {
        assert_eq!(l.stride, 76);
    }
}

#[test]
fn offsets_accumulate_in_order() {
    let layouts = derive_layouts(&vec![GlslDType::Vec2, GlslDType::Mat4, GlslDType::Float]);
    assert_eq!(layouts.len(), 3);
    assert_eq!(layouts[0].byte_offset, 0);
    assert_eq!(layouts[1].byte_offset, 8);
    assert_eq!(layouts[2].byte_offset, 72);
    assert_eq!(layouts[0].location, 0);
    assert_eq!(layouts[1].location, 1);
    assert_eq!(layouts[2].location, 2);
}

#[test]
fn matrix_attributes_stay_single_slot() {
    let layouts = derive_layouts(&vec![GlslDType::Mat3, GlslDType::Mat4]);
    assert_eq!(layouts.len(), 2);
    assert_eq!(layouts[0].n_elements, 9);
    assert_eq!(layouts[1].n_elements, 16);
    assert_eq!(layouts[1].byte_offset, 36);
    assert_eq!(layouts[0].stride, 100);
}

#[test]
fn position_vertex_layouts_through_trait() {
    let layouts = <[u32; 3] as HasVertexAttributes>::layouts();
    assert_eq!(layouts.len(), 1);
    assert_eq!(layouts[0].stride, 12);
    assert_eq!(layouts[0].location, 0);
    assert_eq!(layouts[0].n_elements, 3);
    assert_eq!(layouts[0].byte_offset, 0);
}
