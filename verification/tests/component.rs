use winter::opengl::{GLIndexType, GLVertexType, GL_UNSIGNED_BYTE, GL_UNSIGNED_INT};
use winter::primitives::Component;

#[test]
fn round_trip_typed_arrays() {
    let comp: Component<u32, u8, u16> = Component::new(
        vec![10u32, 20, 30, 40],
        vec![1u16, 2, 3],
        vec![0u8, 1, 2, 0, 2, 3],
    );
    assert_eq!(comp.get_vertices(), vec![10u32, 20, 30, 40]);
    assert_eq!(comp.get_colors(), vec![1u16, 2, 3]);
    assert_eq!(comp.get_indices(), vec![0u8, 1, 2, 0, 2, 3]);
}

#[test]
fn round_trip_empty_arrays() {
    let comp: Component<u32, u32, u32> = Component::new(vec![], vec![], vec![]);
    assert_eq!(comp.get_vertices(), Vec::<u32>::new());
    assert_eq!(comp.get_colors(), Vec::<u32>::new());
    assert_eq!(comp.get_indices(), Vec::<u32>::new());
    assert_eq!(comp.len_vertices(), 0);
}

#[test]
fn vertex_count_counts_position_elements() {
    let comp: Component<u16, u8, u8> =
        Component::new(vec![5u16; 9], vec![0u8; 9], vec![0u8, 1, 2]);
    assert_eq!(comp.len_vertices(), 9);
}

#[test]
fn merge_two_triangles() {
    // two packed shapes, each indexing its own three vertices
    let a: Component<u32, u32, u32> = Component::new(
        vec![100u32, 101, 102],
        vec![201u32, 202, 203],
        vec![0u32, 1, 2],
    );
    let b: Component<u32, u32, u32> = Component::new(
        vec![103u32, 104, 105],
        vec![204u32, 205, 206],
        vec![0u32, 1, 2],
    );
    let m = a.merge(b);
    assert_eq!(m.get_vertices(), vec![100u32, 101, 102, 103, 104, 105]);
    assert_eq!(m.get_colors(), vec![201u32, 202, 203, 204, 205, 206]);
    assert_eq!(m.get_indices(), vec![0u32, 1, 2, 3, 4, 5]);
}

#[test]
fn merge_rebases_by_vertex_count() {
    let a: Component<u8, u16, u8> = Component::new(vec![9u8, 8], vec![7u8], vec![1u16, 0]);
    let b: Component<u8, u16, u8> = Component::new(vec![6u8, 5, 4], vec![3u8], vec![2u16, 2]);
    let m = a.merge(b);
    assert_eq!(m.get_vertices(), vec![9u8, 8, 6, 5, 4]);
    assert_eq!(m.get_colors(), vec![7u8, 3]);
    // b's indices rebased by a's vertex count of 2
    assert_eq!(m.get_indices(), vec![1u16, 0, 4, 4]);
}

#[test]
fn merge_with_empty_component() {
    let a: Component<u32, u32, u32> = Component::new(vec![1u32, 2], vec![5u32], vec![0u32]);
    let b: Component<u32, u32, u32> = Component::new(vec![], vec![], vec![]);
    let m = a.merge(b);
    assert_eq!(m.get_vertices(), vec![1u32, 2]);
    assert_eq!(m.get_colors(), vec![5u32]);
    assert_eq!(m.get_indices(), vec![0u32]);
}

#[test]
fn merge_chain_keeps_rebasing() {
    let one = |v: u32| -> Component<u32, u8, u32> {
        Component::new(vec![v], vec![v + 50], vec![0u8])
    };
    let m = one(1).merge(one(2)).merge(one(3));
    assert_eq!(m.get_vertices(), vec![1u32, 2, 3]);
    assert_eq!(m.get_indices(), vec![0u8, 1, 2]);
}

#[test]
fn mutable_accessors_update_single_elements() {
    let mut comp: Component<u32, u8, u16> =
        Component::new(vec![1u32, 2, 3], vec![4u16, 5], vec![0u8, 1, 2]);
    comp.set_vertex(1, 99);
    comp.set_color(0, 40);
    comp.set_index(2, 1);
    assert_eq!(comp.get_vertices(), vec![1u32, 99, 3]);
    assert_eq!(comp.get_colors(), vec![40u16, 5]);
    assert_eq!(comp.get_indices(), vec![0u8, 1, 1]);
}

#[test]
fn element_type_tags() {
    assert_eq!(<u8 as GLVertexType>::to_glenum(), GL_UNSIGNED_BYTE);
    assert_eq!(<u32 as GLVertexType>::to_glenum(), GL_UNSIGNED_INT);
    assert_eq!(<u8 as GLVertexType>::size(), 1);
    assert_eq!(<u16 as GLVertexType>::size(), 2);
    assert_eq!(<u32 as GLVertexType>::size(), 4);
    assert_eq!(<u16 as GLIndexType>::from_usize(513), 513u16);
    assert_eq!(<u16 as GLIndexType>::to_usize(513u16), 513);
    assert_eq!(<u32 as GLIndexType>::rebase(7u32, 3), 10);
}

#[test]
fn signed_element_types_round_trip() {
    let comp: Component<i16, u8, i32> =
        Component::new(vec![-5i16, 300, -32768], vec![-1i32, 2], vec![0u8, 1]);
    assert_eq!(comp.get_vertices(), vec![-5i16, 300, -32768]);
    assert_eq!(comp.get_colors(), vec![-1i32, 2]);
    assert_eq!(comp.get_indices(), vec![0u8, 1]);
    let tiny: Component<i8, u8, i8> = Component::new(vec![-128i8, 127], vec![-3i8], vec![1u8]);
    assert_eq!(tiny.get_vertices(), vec![-128i8, 127]);
}
