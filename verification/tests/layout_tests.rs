use gpu_staging::layout::{StepMode, VertexAttribute, VertexFormat, VertexLayout};

#[test]
fn format_sizes() {
    assert_eq!(VertexFormat::Float32.size(), 4);
    assert_eq!(VertexFormat::Float32x2.size(), 8);
    assert_eq!(VertexFormat::Float32x3.size(), 12);
    assert_eq!(VertexFormat::Float32x4.size(), 16);
}

#[test]
fn packed_two_float4_attributes_per_vertex() {
    let formats = vec![VertexFormat::Float32x4, VertexFormat::Float32x4];
    let layout = VertexLayout::packed(&formats, 0, StepMode::Vertex);
    assert_eq!(layout.array_stride, 32);
    assert_eq!(layout.attributes.len(), 2);
    assert_eq!(layout.attributes[0].offset, 0);
    assert_eq!(layout.attributes[1].offset, 16);
    assert!(matches!(layout.step_mode, StepMode::Vertex));
}

#[test]
fn packed_two_float4_attributes_per_instance() {
    let formats = vec![VertexFormat::Float32x4, VertexFormat::Float32x4];
    let layout = VertexLayout::packed(&formats, 5, StepMode::Instance);
    assert_eq!(layout.array_stride, 32);
    assert_eq!(layout.attributes[0].offset, 0);
    assert_eq!(layout.attributes[1].offset, 16);
    assert_eq!(layout.attributes[0].shader_location, 5);
    assert_eq!(layout.attributes[1].shader_location, 6);
    assert!(matches!(layout.step_mode, StepMode::Instance));
}

#[test]
fn packed_mixed_formats() {
    let formats = vec![VertexFormat::Float32x3, VertexFormat::Float32x2];
    let layout = VertexLayout::packed(&formats, 0, StepMode::Vertex);
    assert_eq!(layout.array_stride, 20);
    assert_eq!(layout.attributes[0].offset, 0);
    assert_eq!(layout.attributes[1].offset, 12);
    assert!(matches!(layout.attributes[1].format, VertexFormat::Float32x2));
}

#[test]
fn packed_instance_matrix_layout() {
    let formats = vec![
        VertexFormat::Float32x4,
        VertexFormat::Float32x4,
        VertexFormat::Float32x4,
        VertexFormat::Float32x4,
    ];
    let layout = VertexLayout::packed(&formats, 5, StepMode::Instance);
    assert_eq!(layout.array_stride, 64);
    assert_eq!(layout.attributes[2].offset, 32);
    assert_eq!(layout.attributes[3].offset, 48);
    assert_eq!(layout.attributes[3].shader_location, 8);
}

#[test]
fn duplicate_copies_every_field() {
    let formats = vec![VertexFormat::Float32x3, VertexFormat::Float32x2];
    let layout = VertexLayout::packed(&formats, 1, StepMode::Vertex);
    let copy = layout.duplicate();
    assert_eq!(copy.array_stride, layout.array_stride);
    assert_eq!(copy.attributes.len(), layout.attributes.len());
    let a: &VertexAttribute = &copy.attributes[1];
    assert_eq!(a.offset, 12);
    assert_eq!(a.shader_location, 2);
}
