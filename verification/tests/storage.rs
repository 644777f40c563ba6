use albedo_rtx::{
    AttributeDescriptor, AttributeFormat, AttributeId, ComponentClass, Error, IndexData, Primitive,
};

const FLOAT3: AttributeFormat = AttributeFormat { size: 12, class: ComponentClass::Float };
const FLOAT2: AttributeFormat = AttributeFormat { size: 8, class: ComponentClass::Float };
const UINT: AttributeFormat = AttributeFormat { size: 4, class: ComponentClass::Unsigned };
const SNORM: AttributeFormat = AttributeFormat { size: 4, class: ComponentClass::Other };

fn layout() -> Vec<AttributeDescriptor> {
    vec![
        AttributeDescriptor::position(FLOAT3),
        AttributeDescriptor::normal(FLOAT3),
        AttributeDescriptor::tex_coords_0(FLOAT2),
        AttributeDescriptor::new(AttributeId("BONE"), UINT),
    ]
}

fn bytes(values: &[f32]) -> Vec<u8> {
    values.iter().flat_map(|value| value.to_ne_bytes()).collect()
}

#[test]
fn descriptors_carry_their_names() {
    assert_eq!(
        AttributeDescriptor::position(FLOAT3),
        AttributeDescriptor { id: AttributeId("POSITION"), format: FLOAT3 }
    );
    assert_eq!(AttributeDescriptor::normal(UINT).id, AttributeId("NORMAL"));
    assert_eq!(AttributeDescriptor::tex_coords_0(FLOAT2).id, AttributeId("TEX_COORDS_0"));
    assert_eq!(AttributeDescriptor::tex_coords_0(FLOAT2).format, FLOAT2);
    assert_eq!(AttributeDescriptor::new(AttributeId("BONE"), UINT).format, UINT);
}

#[test]
fn interleaved_primitive_is_zeroed() {
    let mut primitive = Primitive::interleaved_with_count(5, &layout()).unwrap();
    assert_eq!(primitive.attribute_count(), 4);
    assert_eq!(primitive.count(), Ok(5));
    let slice = primitive.attribute(0, 12).unwrap();
    assert_eq!(slice.data.len(), 5 * 36);
    assert!(slice.data.iter().all(|&byte| byte == 0));
}

#[test]
fn interleaved_attributes_lie_one_after_the_other() {
    let mut primitive = Primitive::interleaved_with_count(3, &layout()).unwrap();
    let expected = [(0usize, 12usize), (12, 12), (24, 8), (32, 4)];
    for (attribute, (byte_offset, size)) in expected.into_iter().enumerate() {
        let slice = primitive.attribute(attribute, size).unwrap();
        assert_eq!(slice.byte_offset, byte_offset);
        assert_eq!(slice.stride, 36);
        assert_eq!(slice.size, size);
        assert_eq!(slice.byte_end, 108);
        assert_eq!(slice.len(), 3);
    }
}

#[test]
fn attributes_are_found_by_name() {
    let primitive = Primitive::interleaved_with_count(1, &layout()).unwrap();
    assert_eq!(primitive.attribute_index(AttributeId::position()), Some(0));
    assert_eq!(primitive.attribute_index(AttributeId::normal()), Some(1));
    assert_eq!(primitive.attribute_index(AttributeId::tex_coords_0()), Some(2));
    assert_eq!(primitive.attribute_index(AttributeId("BONE")), Some(3));
    assert_eq!(primitive.attribute_index(AttributeId("TANGENT")), None);
    assert_eq!(primitive.attribute_index(AttributeId("")), None);
    let twice = [AttributeDescriptor::normal(FLOAT3), AttributeDescriptor::normal(FLOAT2)];
    let primitive = Primitive::soa_with_count(1, &twice).unwrap();
    assert_eq!(primitive.attribute_index(AttributeId::normal()), Some(0));
    let none = Primitive::interleaved_with_count(1, &[]).unwrap();
    assert_eq!(none.attribute_index(AttributeId::position()), None);
}

#[test]
fn formats_are_given_back() {
    let primitive = Primitive::soa_with_count(2, &layout()).unwrap();
    assert_eq!(primitive.attribute_format(0), Ok(FLOAT3));
    assert_eq!(primitive.attribute_format(2), Ok(FLOAT2));
    assert_eq!(primitive.attribute_format(3), Ok(UINT));
    assert_eq!(primitive.attribute_format(4), Err(Error::IndexOutOfRange));
    assert_eq!(primitive.attribute_count(), 4);
}

#[test]
fn written_elements_land_at_their_stride() {
    let mut primitive = Primitive::interleaved_with_count(3, &layout()).unwrap();
    let uvs = bytes(&[0.25, 0.5, 0.75, 1.0]);
    {
        let mut slice = primitive.attribute(2, 8).unwrap();
        assert_eq!(slice.set(&uvs, 8), Ok(()));
        assert_eq!(slice.get(0), Ok(uvs[..8].to_vec()));
        assert_eq!(slice.get(1), Ok(uvs[8..].to_vec()));
        assert_eq!(slice.get(2), Ok(vec![0; 8]));
    }
    let bones: Vec<u8> = vec![1, 2, 3, 4, 5, 6, 7, 8, 9, 10, 11, 12];
    {
        let mut slice = primitive.attribute(3, 4).unwrap();
        assert_eq!(slice.set(&bones, 4), Ok(()));
    }
    let slice = primitive.attribute(0, 12).unwrap();
    let mut expected = vec![0u8; 108];
    expected[24..32].copy_from_slice(&uvs[..8]);
    expected[60..68].copy_from_slice(&uvs[8..]);
    expected[32..36].copy_from_slice(&bones[..4]);
    expected[68..72].copy_from_slice(&bones[4..8]);
    expected[104..108].copy_from_slice(&bones[8..]);
    assert_eq!(*slice.data, expected);
}

#[test]
fn narrower_elements_leave_the_rest_of_each_element() {
    let mut primitive = Primitive::interleaved_with_count(2, &layout()).unwrap();
    let mut slice = primitive.attribute(0, 12).unwrap();
    assert_eq!(slice.set(&[9; 24], 12), Ok(()));
    assert_eq!(slice.set(&[1, 2, 3, 4, 5, 6, 7, 8], 4), Ok(()));
    assert_eq!(slice.get(0), Ok(vec![1, 2, 3, 4, 9, 9, 9, 9, 9, 9, 9, 9]));
    assert_eq!(slice.get(1), Ok(vec![5, 6, 7, 8, 9, 9, 9, 9, 9, 9, 9, 9]));
    assert_eq!(slice.set(&[], 4), Ok(()));
    assert_eq!(slice.get(0), Ok(vec![1, 2, 3, 4, 9, 9, 9, 9, 9, 9, 9, 9]));
}

#[test]
fn elements_that_do_not_fit_the_format_are_refused() {
    let mut primitive = Primitive::interleaved_with_count(2, &layout()).unwrap();
    let mut slice = primitive.attribute(2, 8).unwrap();
    assert_eq!(slice.set(&[0; 12], 12), Err(Error::FormatMismatch));
    assert_eq!(slice.set(&[0; 8], 0), Err(Error::FormatMismatch));
    assert_eq!(slice.set(&[0; 9], 8), Err(Error::FormatMismatch));
    assert_eq!(slice.set(&[0; 7], 4), Err(Error::FormatMismatch));
    assert!(slice.data.iter().all(|&byte| byte == 0));
}

#[test]
fn more_elements_than_vertices_are_refused() {
    let mut primitive = Primitive::interleaved_with_count(2, &layout()).unwrap();
    let mut slice = primitive.attribute(1, 12).unwrap();
    assert_eq!(slice.set(&[7; 36], 12), Err(Error::IndexOutOfRange));
    assert!(slice.data.iter().all(|&byte| byte == 0));
    assert_eq!(slice.set(&[7; 24], 12), Ok(()));
    assert_eq!(slice.get(1), Ok(vec![7; 12]));
    assert_eq!(slice.get(2), Err(Error::IndexOutOfRange));
    assert_eq!(slice.get(usize::MAX), Err(Error::IndexOutOfRange));
}

#[test]
fn a_slice_made_by_hand_is_checked_too() {
    let mut data = vec![0u8; 10];
    let mut slice = albedo_rtx::AttributeSlice {
        data: &mut data,
        byte_offset: 8,
        byte_end: 10,
        stride: 4,
        size: 4,
    };
    // two elements would fit by the stride, but the first already ends past the buffer
    assert_eq!(slice.len(), 2);
    assert_eq!(slice.get(0), Err(Error::IndexOutOfRange));
    assert_eq!(slice.set(&[1, 2, 3, 4], 4), Err(Error::IndexOutOfRange));
    assert_eq!(slice.set(&[1, 2], 2), Ok(()));
    assert_eq!(*slice.data, vec![0, 0, 0, 0, 0, 0, 0, 0, 1, 2]);
    slice.byte_end = 4;
    slice.size = 2;
    assert_eq!(slice.get(0), Err(Error::IndexOutOfRange));
    slice.byte_offset = 0;
    slice.size = 3;
    assert_eq!(slice.get(0), Ok(vec![0, 0, 0]));
    assert_eq!(slice.get(1), Err(Error::IndexOutOfRange));
    slice.stride = 2;
    assert_eq!(slice.set(&[5, 6, 7], 3), Err(Error::FormatMismatch));
}

#[test]
fn lending_checks_the_attribute_and_the_size() {
    let mut primitive = Primitive::interleaved_with_count(2, &layout()).unwrap();
    assert_eq!(primitive.attribute(4, 4).err(), Some(Error::IndexOutOfRange));
    assert_eq!(primitive.attribute(usize::MAX, 0).err(), Some(Error::IndexOutOfRange));
    assert_eq!(primitive.attribute(2, 12).err(), Some(Error::FormatMismatch));
    assert_eq!(primitive.attribute(2, 0).err(), Some(Error::FormatMismatch));
    assert!(primitive.attribute(2, 8).is_ok());
    assert!(primitive.attribute(2, 4).is_ok());
}

#[test]
fn typed_lending_checks_the_class() {
    let mut descriptors = layout();
    descriptors.push(AttributeDescriptor::new(AttributeId("PACKED"), SNORM));
    let mut primitive = Primitive::interleaved_with_count(2, &descriptors).unwrap();
    assert!(primitive.typed_attribute(0, ComponentClass::Float, 12).is_ok());
    assert!(primitive.typed_attribute(0, ComponentClass::Float, 4).is_ok());
    assert!(primitive.typed_attribute(3, ComponentClass::Unsigned, 4).is_ok());
    assert!(primitive.typed_attribute(4, ComponentClass::Other, 4).is_ok());
    for (attribute, class, size, error) in [
        (0, ComponentClass::Unsigned, 12, Error::FormatMismatch),
        (3, ComponentClass::Float, 4, Error::FormatMismatch),
        (4, ComponentClass::Float, 4, Error::FormatMismatch),
        (4, ComponentClass::Unsigned, 4, Error::FormatMismatch),
        (0, ComponentClass::Float, 16, Error::FormatMismatch),
        (0, ComponentClass::Float, 0, Error::FormatMismatch),
        (5, ComponentClass::Float, 4, Error::IndexOutOfRange),
        (5, ComponentClass::Other, 0, Error::IndexOutOfRange),
    ] {
        assert_eq!(primitive.typed_attribute(attribute, class, size).err(), Some(error));
    }
}

#[test]
fn separate_buffers_hold_nothing_yet() {
    let mut primitive = Primitive::soa_with_count(4, &layout()).unwrap();
    assert_eq!(primitive.count(), Ok(0));
    for (attribute, size) in [(0usize, 12usize), (1, 12), (2, 8), (3, 4)] {
        let mut slice = primitive.attribute(attribute, size).unwrap();
        assert_eq!(slice.byte_offset, 0);
        assert_eq!(slice.stride, size);
        assert_eq!(slice.byte_end, 0);
        assert_eq!(slice.len(), 0);
        assert!(slice.data.is_empty());
        assert_eq!(slice.get(0), Err(Error::IndexOutOfRange));
        assert_eq!(slice.set(&vec![1; size], size), Err(Error::IndexOutOfRange));
        assert_eq!(slice.set(&[], size), Ok(()));
    }
}

#[test]
fn separate_buffers_are_written_one_at_a_time() {
    let mut primitive = Primitive::soa_with_count(2, &layout()).unwrap();
    {
        let slice = primitive.attribute(2, 8).unwrap();
        slice.data.extend_from_slice(&[0; 16]);
    }
    {
        let mut slice = primitive.attribute(2, 8).unwrap();
        assert_eq!(slice.byte_end, 16);
        assert_eq!(slice.len(), 2);
        assert_eq!(slice.set(&[3; 8], 8), Ok(()));
        assert_eq!(slice.get(0), Ok(vec![3; 8]));
        assert_eq!(slice.get(1), Ok(vec![0; 8]));
    }
    assert!(primitive.attribute(0, 12).unwrap().data.is_empty());
    assert!(primitive.attribute(3, 4).unwrap().data.is_empty());
    assert_eq!(*primitive.attribute(2, 8).unwrap().data, [3, 3, 3, 3, 3, 3, 3, 3, 0, 0, 0, 0, 0, 0, 0, 0]);
}

#[test]
fn count_needs_something_to_divide_by() {
    let empty = AttributeFormat { size: 0, class: ComponentClass::Other };
    let nothing = Primitive::interleaved_with_count(3, &[]).unwrap();
    assert_eq!(nothing.count(), Err(Error::FormatMismatch));
    let nothing = Primitive::soa_with_count(3, &[]).unwrap();
    assert_eq!(nothing.count(), Err(Error::FormatMismatch));
    let hollow = [AttributeDescriptor::position(empty)];
    assert_eq!(Primitive::interleaved_with_count(3, &hollow).unwrap().count(), Err(Error::FormatMismatch));
    assert_eq!(Primitive::soa_with_count(3, &hollow).unwrap().count(), Err(Error::FormatMismatch));
    let one = [AttributeDescriptor::position(empty), AttributeDescriptor::normal(UINT)];
    assert_eq!(Primitive::interleaved_with_count(3, &one).unwrap().count(), Ok(3));
    assert_eq!(Primitive::soa_with_count(3, &one).unwrap().count(), Err(Error::FormatMismatch));
}

#[test]
fn storage_that_cannot_fit_exceeds_capacity() {
    let huge = AttributeFormat { size: usize::MAX, class: ComponentClass::Other };
    let pair = [AttributeDescriptor::position(huge), AttributeDescriptor::normal(UINT)];
    assert_eq!(Primitive::interleaved_with_count(0, &pair).err(), Some(Error::CapacityExceeded));
    assert_eq!(Primitive::soa_with_count(0, &pair).err(), Some(Error::CapacityExceeded));
    let single = [AttributeDescriptor::position(huge)];
    assert!(Primitive::interleaved_with_count(0, &single).is_ok());
    assert_eq!(Primitive::interleaved_with_count(1, &single).err(), Some(Error::CapacityExceeded));
    assert_eq!(Primitive::soa_with_count(1, &single).err(), Some(Error::CapacityExceeded));
    assert_eq!(Primitive::interleaved_with_count(u64::MAX, &layout()).err(), Some(Error::CapacityExceeded));
    assert_eq!(Primitive::soa_with_count(u64::MAX, &layout()).err(), Some(Error::CapacityExceeded));
    assert_eq!(
        Primitive::interleaved_with_count(isize::MAX as u64 / 36 + 1, &layout()).err(),
        Some(Error::CapacityExceeded)
    );
    assert!(Primitive::soa_with_count(isize::MAX as u64 / 36, &layout()).is_ok());
}

#[test]
fn indices_can_be_given_in_either_width() {
    let mut primitive = Primitive::interleaved_with_count(3, &layout()).unwrap();
    primitive.set_indices(IndexData::U16(vec![0, 1, 2]));
    primitive.set_indices_u16(vec![2, 1, 0]);
    primitive.set_indices_u32(vec![0, 2, 1]);
    assert_eq!(primitive.count(), Ok(3));
    assert_eq!(primitive.attribute_count(), 4);
}

#[test]
fn all_elements_are_handed_out_in_order() {
    let mut primitive = Primitive::interleaved_with_count(3, &layout()).unwrap();
    let mut slice = primitive.attribute(3, 4).unwrap();
    slice.set(&[1, 2, 3, 4, 5, 6, 7, 8, 9, 10, 11, 12], 4).unwrap();
    assert_eq!(slice.to_vec(), Ok(vec![vec![1, 2, 3, 4], vec![5, 6, 7, 8], vec![9, 10, 11, 12]]));
    slice.size = 2;
    assert_eq!(slice.to_vec(), Ok(vec![vec![1, 2], vec![5, 6], vec![9, 10]]));
    slice.size = 5;
    assert_eq!(slice.to_vec(), Err(Error::IndexOutOfRange));
    slice.size = 4;
    slice.byte_end = 40;
    assert_eq!(slice.to_vec(), Err(Error::IndexOutOfRange));
    let mut none = Primitive::soa_with_count(3, &layout()).unwrap();
    assert_eq!(none.attribute(0, 12).unwrap().to_vec(), Ok(vec![]));
}
