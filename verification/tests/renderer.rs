use rain_editor::animation::{Angle, DragDelta};
use rain_editor::renderer::{
    vertices, words_of, BufferUsages, CloudyRenderer, DrawCommand, ShaderStage, UniformBinding,
    Vertex, VertexAttribute, VertexFormat, VertexStepMode, BUFFER_SIZE, HALF, MINUS_HALF, ONE,
};
use rain_editor::words::{device_bytes, read_word};

#[test]
fn constants_are_the_bits_of_their_numbers() {
    assert_eq!(f32::from_bits(HALF), 0.5);
    assert_eq!(f32::from_bits(MINUS_HALF), -0.5);
    assert_eq!(f32::from_bits(ONE), 1.0);
    assert_eq!(f32::from_bits(0), 0.0);
}

#[test]
fn triangle_has_three_coloured_corners() {
    let corners = vertices();
    let as_floats: Vec<([f32; 3], [f32; 3])> = corners
        .iter()
        .map(|v| (v.position.map(f32::from_bits), v.color.map(f32::from_bits)))
        .collect();
    assert_eq!(
        as_floats,
        vec![
            ([0.0, 0.5, 0.0], [1.0, 0.0, 0.0]),
            ([-0.5, -0.5, 0.0], [0.0, 1.0, 0.0]),
            ([0.5, -0.5, 0.0], [0.0, 0.0, 1.0]),
        ]
    );
}

#[test]
fn words_of_lists_position_then_colour() {
    let v = Vertex { position: [1, 2, 3], color: [4, 5, 6] };
    let w = Vertex { position: [7, 8, 9], color: [10, 11, 12] };
    assert_eq!(words_of(&vec![v, w]), vec![1, 2, 3, 4, 5, 6, 7, 8, 9, 10, 11, 12]);
    assert_eq!(words_of(&vec![]), Vec::<u32>::new());
}

#[test]
fn device_bytes_are_least_significant_first() {
    assert_eq!(device_bytes(&[0x3f80_0000]), vec![0x00, 0x00, 0x80, 0x3f]);
    assert_eq!(
        device_bytes(&[0x0102_0304, 0xa0b0_c0d0]),
        vec![0x04, 0x03, 0x02, 0x01, 0xd0, 0xc0, 0xb0, 0xa0]
    );
    assert_eq!(device_bytes(&[]), Vec::<u8>::new());
    assert_eq!(device_bytes(&[1.0f32.to_bits()]), 1.0f32.to_le_bytes().to_vec());
}

#[test]
fn read_word_undoes_device_bytes() {
    let bytes = device_bytes(&[0xdead_beef, 0x0000_0001, 0xffff_ffff]);
    assert_eq!(read_word(&bytes, 0), 0xdead_beef);
    assert_eq!(read_word(&bytes, 4), 1);
    assert_eq!(read_word(&bytes, 8), 0xffff_ffff);
    assert_eq!(read_word(&bytes, 1), 0x01de_adbe);
}

#[test]
fn desc_packs_two_attributes_into_24_bytes() {
    let layout = Vertex::desc();
    assert_eq!(layout.array_stride, 24);
    assert_eq!(layout.array_stride as usize, std::mem::size_of::<Vertex>());
    assert_eq!(layout.step_mode, VertexStepMode::Vertex);
    assert_eq!(
        layout.attributes,
        vec![
            VertexAttribute { format: VertexFormat::Float32x3, offset: 0, shader_location: 0 },
            VertexAttribute { format: VertexFormat::Float32x3, offset: 12, shader_location: 1 },
        ]
    );
    assert_eq!(VertexFormat::Float32.byte_size(), 4);
    assert_eq!(VertexFormat::Float32x2.byte_size(), 8);
    assert_eq!(VertexFormat::Float32x3.byte_size(), 12);
    assert_eq!(VertexFormat::Float32x4.byte_size(), 16);
}

#[test]
fn new_bundle_holds_the_triangle() {
    let bundle = CloudyRenderer::new();
    let bytes = bundle.contents();
    assert_eq!(bytes.len(), BUFFER_SIZE);
    let floats: Vec<f32> = bytes
        .chunks(4)
        .map(|c| f32::from_le_bytes([c[0], c[1], c[2], c[3]]))
        .collect();
    assert_eq!(
        floats,
        vec![
            0.0, 0.5, 0.0, 1.0, 0.0, 0.0, -0.5, -0.5, 0.0, 0.0, 1.0, 0.0, 0.5, -0.5, 0.0, 0.0, 0.0,
            1.0
        ]
    );
    assert_eq!(bundle.uniform(), Angle::new(0));
}

#[test]
fn descriptor_names_what_the_device_builds() {
    let d = CloudyRenderer::descriptor();
    assert_eq!(d.vertex_entry, "vs_main");
    assert_eq!(d.fragment_entry, "fs_main");
    assert_eq!(d.vertex_layout, Vertex::desc());
    assert_eq!(
        d.uniform,
        UniformBinding { binding: 0, visibility: ShaderStage::Vertex, has_dynamic_offset: false }
    );
    assert_eq!(d.buffer_usage, BufferUsages { copy_dst: true, vertex: true, uniform: true });
    assert_eq!(&d.buffer_contents, CloudyRenderer::new().contents());
}

#[test]
fn prepare_writes_four_bytes_at_the_start() {
    let mut bundle = CloudyRenderer::new();
    let before = bundle.contents().clone();
    let write = bundle.prepare(Angle::new(1_100_000));
    assert_eq!(write.offset, 0);
    assert_eq!(write.data, vec![0xe0, 0xc8, 0x10, 0x00]);
    assert_eq!(&bundle.contents()[..4], &[0xe0, 0xc8, 0x10, 0x00]);
    assert_eq!(&bundle.contents()[4..], &before[4..]);
    assert_eq!(bundle.contents().len(), BUFFER_SIZE);
}

#[test]
fn parameter_written_is_parameter_read_back() {
    let mut bundle = CloudyRenderer::new();
    for raw in [0, 1, -1, 1_000_000, 1_100_000, -3_141_593, i32::MAX, i32::MIN] {
        bundle.prepare(Angle::new(raw));
        assert_eq!(bundle.uniform(), Angle::new(raw));
        assert_eq!(bundle.uniform().microradians, raw);
    }
}

#[test]
fn paint_draws_one_triangle() {
    let bundle = CloudyRenderer::new();
    assert_eq!(
        bundle.paint(),
        vec![
            DrawCommand::SetPipeline,
            DrawCommand::SetBindGroup { index: 0 },
            DrawCommand::SetVertexBuffer { slot: 0 },
            DrawCommand::Draw { first_vertex: 0, vertex_count: 3, first_instance: 0, instance_count: 1 },
        ]
    );
}

#[test]
fn drag_of_ten_points_adds_a_tenth_of_a_radian() {
    let start = Angle::new(1_000_000);
    let after = start.dragged(DragDelta { millipoints: 10_000 });
    assert_eq!(after.microradians - start.microradians, 100_000);
    assert_eq!(after, Angle::new(1_100_000));
    let radians = after.microradians as f64 / 1_000_000.0 - start.microradians as f64 / 1_000_000.0;
    assert!((radians - 10.0 * 0.01).abs() < 1e-12);
    assert_eq!(start.dragged(DragDelta { millipoints: -10_000 }), Angle::new(900_000));
    assert_eq!(start.dragged(DragDelta { millipoints: 0 }), start);
    assert_eq!(start.dragged(DragDelta { millipoints: 1 }), Angle::new(1_000_010));
}

#[test]
fn drag_stops_at_the_ends_of_the_range() {
    assert_eq!(Angle::new(i32::MAX - 5).dragged(DragDelta { millipoints: 1 }), Angle::new(i32::MAX));
    assert_eq!(Angle::new(0).dragged(DragDelta { millipoints: i32::MAX }), Angle::new(i32::MAX));
    assert_eq!(Angle::new(0).dragged(DragDelta { millipoints: i32::MIN }), Angle::new(i32::MIN));
    assert_eq!(Angle::new(i32::MIN).dragged(DragDelta { millipoints: -1 }), Angle::new(i32::MIN));
}

#[test]
fn angle_goes_through_its_word_unchanged() {
    assert_eq!(Angle::new(0).to_word(), 0);
    assert_eq!(Angle::new(1).to_word(), 1);
    assert_eq!(Angle::new(-1).to_word(), 0xffff_ffff);
    assert_eq!(Angle::new(i32::MIN).to_word(), 0x8000_0000);
    assert_eq!(Angle::new(i32::MAX).to_word(), 0x7fff_ffff);
    for raw in [0, 1, -1, 123_456, -654_321, i32::MAX, i32::MIN] {
        assert_eq!(Angle::from_word(Angle::new(raw).to_word()), Angle::new(raw));
    }
    assert_eq!(Angle::from_word(0x8000_0001).microradians, i32::MIN + 1);
}
