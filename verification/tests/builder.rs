use winter::buffer::IndexBufferData;
use winter::opengl::GL_UNSIGNED_INT;
use winter::primitives::Component;
use winter::simple::{triangle_pockets, BuilderDefault, Component as KindComponent, ComponentKind};
use winter::vao::Builder;

fn le_bytes(values: &[u32]) -> Vec<u8> {
    let mut out = Vec::new();
    for v in values {
        out.extend_from_slice(&v.to_le_bytes());
    }
    out
}

#[test]
fn builder_two_triangles() {
    // two triangles of three vertices and three indices each must yield a
    // vertex buffer of six vertices and the index buffer 0..=5
    let t1: Component<u32, u32, u32> =
        Component::new(vec![1u32, 2, 3], vec![7u32, 7, 7], vec![0u32, 1, 2]);
    let t2: Component<u32, u32, u32> =
        Component::new(vec![4u32, 5, 6], vec![8u32, 8, 8], vec![0u32, 1, 2]);
    let b: Builder<u32, u32, u32, 3> = Builder::create();
    let b = b.add(t1).add(t2);
    assert_eq!(b.len_vertices(), 6);
    let (vertex, color, index) = b.build();
    assert_eq!(vertex.data, le_bytes(&[1, 2, 3, 4, 5, 6]));
    assert_eq!(color.data, le_bytes(&[7, 7, 7, 8, 8, 8]));
    assert_eq!(index.data, le_bytes(&[0, 1, 2, 3, 4, 5]));
    assert_eq!(index.ty, GL_UNSIGNED_INT);
}

#[test]
fn builder_starts_empty_with_fixed_locations() {
    let b: Builder<u32, u32, u32, 3> = Builder::create();
    assert_eq!(b.vertex_data.layout.attrib_loc, 0);
    assert_eq!(b.color_data.layout.attrib_loc, 1);
    assert_eq!(b.len_vertices(), 0);
    assert!(b.vertex_data.data.is_empty());
    assert!(b.color_data.data.is_empty());
    assert!(b.index_data.data.is_empty());
}

#[test]
fn builder_rebases_against_running_count() {
    // second shape's indices reference its own two vertices
    let s1: Component<u16, u16, u16> = Component::new(vec![1u16, 2], vec![0u16], vec![1u16]);
    let s2: Component<u16, u16, u16> =
        Component::new(vec![3u16, 4], vec![0u16], vec![0u16, 1]);
    let b: Builder<u16, u16, u16, 1> = Builder::create();
    let b = b.add(s1).add(s2);
    let (_, _, index) = b.build();
    // u16 little-endian values 1, 2, 3
    assert_eq!(index.data, vec![1u8, 0, 2, 0, 3, 0]);
}

#[test]
fn index_buffer_data_counts_elements() {
    let data = IndexBufferData::new(Some(&vec![4u32, 5, 6]));
    assert_eq!(data.ty, GL_UNSIGNED_INT);
    assert_eq!(data.len(), 3);
    assert_eq!(data.data, le_bytes(&[4, 5, 6]));
    let empty = IndexBufferData::new::<u16>(None);
    assert_eq!(empty.len(), 0);
}

#[test]
fn builder_default_unpacks_a_triangle() {
    // 72 bytes: a position half of 0..36 and a color half of 36..72
    let bytes: Vec<u8> = (0u8..72).collect();
    let dob = KindComponent::new(ComponentKind::Triangle, bytes.clone());
    let b: BuilderDefault<u32, u32, u32> = BuilderDefault::create();
    let b = b.add(dob);
    let (vertex, color, index) = b.build();
    assert_eq!(vertex.data, bytes[0..36].to_vec());
    assert_eq!(color.data, bytes[36..72].to_vec());
    assert_eq!(index.data, le_bytes(&[0, 1, 2]));
}

#[test]
fn builder_default_unpacks_a_rectangle() {
    let bytes: Vec<u8> = (0u8..144).map(|v| v.wrapping_mul(3)).collect();
    let dob = KindComponent::new(ComponentKind::Rectangle, bytes.clone());
    let b: BuilderDefault<u32, u32, u32> = BuilderDefault::create();
    let (vertex, color, index) = b.add(dob).build();
    let mut expect_vertex = bytes[0..36].to_vec();
    expect_vertex.extend_from_slice(&bytes[72..108]);
    let mut expect_color = bytes[36..72].to_vec();
    expect_color.extend_from_slice(&bytes[108..144]);
    assert_eq!(vertex.data, expect_vertex);
    assert_eq!(color.data, expect_color);
    assert_eq!(index.data, le_bytes(&[0, 1, 2, 3, 4, 5]));
}

#[test]
fn builder_default_fixed_attribute_configuration() {
    let b: BuilderDefault<u32, u16, u8> = BuilderDefault::create();
    let (vertex, color, index) = b.build();
    assert_eq!(vertex.layout.attrib_loc, 0);
    assert_eq!(vertex.layout.attrib_len, 3);
    assert_eq!(vertex.layout.attrib_type, GL_UNSIGNED_INT);
    assert_eq!(color.layout.attrib_loc, 1);
    assert_eq!(color.layout.attrib_len, 3);
    assert_eq!(color.layout.attrib_type, winter::opengl::GL_UNSIGNED_BYTE);
    assert_eq!(index.ty, winter::opengl::GL_UNSIGNED_SHORT);
}

#[test]
fn triangle_pockets_are_consecutive_position_ranges() {
    assert_eq!(triangle_pockets(0, 2), vec![(0, 36), (36, 72)]);
    assert_eq!(triangle_pockets(3, 2), vec![(108, 144), (144, 180)]);
    assert_eq!(triangle_pockets(5, 0), Vec::<(usize, usize)>::new());
}

#[test]
fn builder_default_continues_index_run_across_shapes() {
    let tri: Vec<u8> = vec![1u8; 72];
    let b: BuilderDefault<u32, u32, u32> = BuilderDefault::create();
    let b = b.add(KindComponent::new(ComponentKind::Triangle, tri.clone()));
    let b = b.add(KindComponent::new(ComponentKind::Triangle, tri));
    let (_, _, index) = b.build();
    assert_eq!(index.data, le_bytes(&[0, 1, 2, 3, 4, 5]));
}

#[test]
fn builder_default_unpacks_a_prism() {
    let bytes: Vec<u8> = vec![9u8; 864];
    let dob = KindComponent::new(ComponentKind::RectangularPrism, bytes);
    let b: BuilderDefault<u32, u32, u32> = BuilderDefault::create();
    let (vertex, color, index) = b.add(dob).build();
    assert_eq!(vertex.data.len(), 432);
    assert_eq!(color.data.len(), 432);
    let expect: Vec<u32> = (0u32..36).collect();
    assert_eq!(index.data, le_bytes(&expect));
}
