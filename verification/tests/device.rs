use winter::buffer::IndexBufferT;
use winter::buffers::{
    BufferTarget, MapAccess, MapAccessBF, ARRAY_BUFFER, COPY_WRITE_BUFFER,
    ELEMENT_ARRAY_BUFFER, MAP_INVALIDATE_BUFFER_BIT, MAP_READ_BIT, MAP_WRITE_BIT,
};
use winter::opengl::{get_size, GL_BYTE, GL_FLOAT, GL_SHORT, GL_UNSIGNED_INT};
use winter::updater::{DynamicBuffer, IndexBuffer, VertexBufferUpdater};
use winter::vertex::{DynamicData, Layout, StaticData};
use winter::IndexGrid;

#[test]
fn buffer_target_tags() {
    assert_eq!(BufferTarget::ArrayBuffer.get_glenum(), ARRAY_BUFFER);
    assert_eq!(BufferTarget::ElementArrayBuffer.get_glenum(), ELEMENT_ARRAY_BUFFER);
    assert_eq!(BufferTarget::CopyWriteBuffer.get_glenum(), COPY_WRITE_BUFFER);
}

#[test]
fn map_access_flags_accumulate() {
    assert_eq!(MapAccessBF::new().0, 0);
    let flags = MapAccessBF::new().add(MapAccess::Write).add(MapAccess::DiscardBuffer);
    assert_eq!(flags.0, MAP_WRITE_BIT | MAP_INVALIDATE_BUFFER_BIT);
    let read = MapAccessBF::new().add(MapAccess::Read);
    assert_eq!(read.0, MAP_READ_BIT);
}

#[test]
fn element_sizes_by_tag() {
    assert_eq!(get_size(GL_BYTE), Some(1));
    assert_eq!(get_size(GL_SHORT), Some(2));
    assert_eq!(get_size(GL_UNSIGNED_INT), Some(4));
    assert_eq!(get_size(GL_FLOAT), Some(4));
    assert_eq!(get_size(0x1234), None);
}

#[test]
fn updater_sync_access_is_write_and_discard() {
    let flags = VertexBufferUpdater::<u32, 3>::sync_access();
    assert_eq!(flags.0, MAP_WRITE_BIT | MAP_INVALIDATE_BUFFER_BIT);
}

#[test]
fn updater_with_no_mutation_keeps_the_mirror() {
    let data = DynamicData::new(Some(&vec![1u32, 2, 3]), Layout::<u32, 3>::new(0));
    let before = data.data.clone();
    let buffer = DynamicBuffer::from(data, 42);
    let updater = buffer.update();
    let buffer = updater.write();
    assert_eq!(buffer.id(), 42);
    assert_eq!(buffer.as_data().data, before);
}

#[test]
fn updater_set_rewrites_one_element() {
    let data = DynamicData::new(Some(&vec![1u32, 2, 3]), Layout::<u32, 3>::new(0));
    let buffer = DynamicBuffer::from(data, 7);
    let mut updater = buffer.update();
    assert_eq!(updater.len(), 3);
    updater.set(1, 99);
    let buffer = updater.write();
    assert_eq!(buffer.as_data().data, {
        let mut v = 1u32.to_le_bytes().to_vec();
        v.extend_from_slice(&99u32.to_le_bytes());
        v.extend_from_slice(&3u32.to_le_bytes());
        v
    });
}

#[test]
fn dynamic_buffer_demotes_to_static() {
    let data = DynamicData::new(Some(&vec![5u16]), Layout::<u16, 1>::new(4));
    let buffer = DynamicBuffer::from(data, 9);
    let fixed = buffer.to_static();
    assert_eq!(fixed.id(), 9);
    assert_eq!(fixed.layout.attrib_loc, 4);
}

#[test]
fn static_buffer_drops_its_bytes() {
    let data = StaticData::new(Some(&vec![1u8, 2]), Layout::<u8, 2>::new(3));
    let fixed = winter::updater::StaticBuffer::from(data, 11);
    assert_eq!(fixed.id(), 11);
}

#[test]
fn index_buffer_reports_its_length_and_tag() {
    let data = winter::buffer::IndexBufferData::new(Some(&vec![0u16, 1, 2, 0, 2, 3]));
    let handle = IndexBuffer::from(data, 13);
    assert_eq!(IndexBufferT::id(&handle), 13);
    assert_eq!(IndexBufferT::len(&handle), 6);
    assert_eq!(handle.ty(), winter::opengl::GL_UNSIGNED_SHORT);
}

#[test]
fn index_grid_checks_its_area() {
    let grid = IndexGrid::new(2, 2, vec![0u32, 1, 2, 3]);
    assert!(grid.is_some());
    let grid = grid.unwrap();
    assert_eq!(grid.width, 2);
    assert_eq!(grid.height, 2);
    assert_eq!(grid.indices, vec![0u32, 1, 2, 3]);
    assert!(IndexGrid::new(3, 2, vec![0u32, 1, 2, 3]).is_none());
}

#[test]
fn index_grid_zero_dimension_is_an_absence() {
    // any zero dimension gives an absence result, not a panic, even when
    // the index list is empty and would match the zero area
    assert!(IndexGrid::new(0, 3, vec![0u32, 1, 2]).is_none());
    assert!(IndexGrid::new(3, 0, vec![0u32, 1, 2]).is_none());
    assert!(IndexGrid::new(0, 0, Vec::<u32>::new()).is_none());
    assert!(IndexGrid::new(0, 5, Vec::<u32>::new()).is_none());
}

#[test]
fn dynamic_data_from_typed_elements() {
    let data = DynamicData::new(Some(&vec![258u16]), Layout::<u16, 1>::new(0));
    assert_eq!(data.data, vec![2u8, 1u8]);
    let empty = DynamicData::new(None, Layout::<u16, 1>::new(0));
    assert!(empty.data.is_empty());
}
