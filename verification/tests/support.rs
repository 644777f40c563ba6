use albedo_rtx::{
    align_row, filter_iteration, get_dispatch_size, unpad_rows, AttributeId, Error,
    FilterIteration, ImageSlice, IndexData, SceneSettingsGPU,
};

#[test]
fn dispatch_covers_the_size() {
    assert_eq!(get_dispatch_size(&(640, 480, 1), &(8, 8, 1)), (80, 60, 1));
    assert_eq!(get_dispatch_size(&(641, 479, 1), &(8, 8, 1)), (81, 60, 1));
    assert_eq!(get_dispatch_size(&(1, 7, 9), &(8, 8, 8)), (1, 1, 2));
    assert_eq!(get_dispatch_size(&(0, 0, 0), &(8, 8, 1)), (0, 0, 0));
    assert_eq!(get_dispatch_size(&(10, 10, 10), &(1, 10, 11)), (10, 1, 1));
}

#[test]
fn dispatch_is_exact_for_large_sizes() {
    assert_eq!(get_dispatch_size(&(u32::MAX, u32::MAX, u32::MAX), &(1, 2, u32::MAX)), (u32::MAX, 0x8000_0000, 1));
    assert_eq!(get_dispatch_size(&(16_777_217, 33_554_433, 3), &(1, 2, 4)), (16_777_217, 16_777_217, 1));
}

#[test]
fn dispatch_with_an_empty_workgroup_saturates() {
    assert_eq!(get_dispatch_size(&(5, 0, 1), &(0, 0, 0)), (u32::MAX, 0, u32::MAX));
}

#[test]
fn rows_lose_their_padding() {
    let padded = [1u8, 2, 3, 0, 0, 4, 5, 6, 0, 0, 7, 8, 9, 0, 0];
    assert_eq!(unpad_rows(&padded, 5, 3, 3), Ok(vec![1, 2, 3, 4, 5, 6, 7, 8, 9]));
    assert_eq!(unpad_rows(&padded, 5, 5, 3), Ok(padded.to_vec()));
    assert_eq!(unpad_rows(&padded, 5, 1, 2), Ok(vec![1, 4]));
    assert_eq!(unpad_rows(&padded, 5, 3, 0), Ok(vec![]));
}

#[test]
fn rows_that_are_missing_are_zero() {
    let padded = [1u8, 2, 3, 0, 4, 5, 6, 0, 7, 8];
    assert_eq!(unpad_rows(&padded, 4, 3, 4), Ok(vec![1, 2, 3, 4, 5, 6, 0, 0, 0, 0, 0, 0]));
    assert_eq!(unpad_rows(&[], 4, 2, 2), Ok(vec![0, 0, 0, 0]));
}

#[test]
fn rows_must_fit_between_row_starts() {
    let padded = [0u8; 16];
    assert_eq!(unpad_rows(&padded, 4, 5, 1), Err(Error::FormatMismatch));
    assert_eq!(unpad_rows(&padded, 4, 0, 1), Err(Error::FormatMismatch));
    assert_eq!(unpad_rows(&padded, 0, 0, 1), Err(Error::FormatMismatch));
    assert_eq!(unpad_rows(&padded, 0, 1, 1), Err(Error::FormatMismatch));
}

#[test]
fn image_too_large_for_memory_exceeds_capacity() {
    let padded = [0u8; 16];
    assert_eq!(unpad_rows(&padded, 4, 4, usize::MAX), Err(Error::CapacityExceeded));
    assert_eq!(unpad_rows(&padded, 4, 2, usize::MAX / 2 + 1), Err(Error::CapacityExceeded));
}

#[test]
fn image_holds_four_bytes_to_a_pixel() {
    let mut image = ImageSlice::new(3, 2).unwrap();
    assert_eq!((image.width, image.height), (3, 2));
    assert_eq!(image.data, vec![0u8; 24]);
    let pixels: Vec<u8> = (0..24).collect();
    assert_eq!(image.copy_from(&pixels), Ok(()));
    assert_eq!(image.data, pixels);
    assert_eq!(image.copy_from(&pixels[..23]), Err(Error::FormatMismatch));
    assert_eq!(image.copy_from(&[]), Err(Error::FormatMismatch));
    assert_eq!(image.data, pixels);
    assert_eq!((image.width, image.height), (3, 2));
    let empty = ImageSlice::new(0, 7).unwrap();
    assert!(empty.data.is_empty());
}

#[test]
fn image_whose_size_leaves_32_bits_exceeds_capacity() {
    assert_eq!(ImageSlice::new(0x8000, 0x8000).err(), Some(Error::CapacityExceeded));
    assert_eq!(ImageSlice::new(u32::MAX, u32::MAX).err(), Some(Error::CapacityExceeded));
    assert_eq!(ImageSlice::new(u32::MAX, 1).err(), Some(Error::CapacityExceeded));
}

#[test]
fn narrow_indices_are_widened() {
    let narrow = IndexData::U16(vec![0, 1, 65535, 7]);
    assert_eq!(narrow.len(), 4);
    assert_eq!(narrow.to_u32(), vec![0, 1, 65535, 7]);
    let wide = IndexData::U32(vec![70000, 3]);
    assert_eq!(wide.len(), 2);
    assert_eq!(wide.to_u32(), vec![70000, 3]);
    assert_eq!(IndexData::U16(vec![]).to_u32(), Vec::<u32>::new());
}

#[test]
fn attributes_have_their_names() {
    assert_eq!(AttributeId::position(), AttributeId("POSITION"));
    assert_eq!(AttributeId::normal(), AttributeId("NORMAL"));
    assert_eq!(AttributeId::tex_coords_0(), AttributeId("TEX_COORDS_0"));
    assert_ne!(AttributeId::position(), AttributeId::normal());
    assert_eq!(AttributeId::default(), AttributeId(""));
}

#[test]
fn scene_settings_start_empty() {
    let settings = SceneSettingsGPU::default();
    assert_eq!(settings, SceneSettingsGPU { instance_count: 0, light_count: 0 });
}

#[test]
fn rows_start_at_multiples_of_the_alignment() {
    assert_eq!(align_row(0, 256), Ok(0));
    assert_eq!(align_row(1, 256), Ok(256));
    assert_eq!(align_row(255, 256), Ok(256));
    assert_eq!(align_row(256, 256), Ok(256));
    assert_eq!(align_row(257, 256), Ok(512));
    assert_eq!(align_row(4 * 641, 256), Ok(2816));
    assert_eq!(align_row(7, 1), Ok(7));
    assert_eq!(align_row(7, 3), Ok(9));
    assert_eq!(align_row(7, 0), Err(Error::FormatMismatch));
    assert_eq!(align_row(0, 0), Err(Error::FormatMismatch));
    assert_eq!(align_row(usize::MAX, 256), Err(Error::CapacityExceeded));
    assert_eq!(align_row(usize::MAX - 256, 256), Ok(usize::MAX - 255));
    assert_eq!(align_row(usize::MAX, usize::MAX), Ok(usize::MAX));
    assert_eq!(align_row(usize::MAX, 1), Ok(usize::MAX));
}

#[test]
fn padded_rows_round_trip() {
    let width = 3usize;
    let row = 4 * width;
    let padded_row = align_row(row, 16).unwrap();
    assert_eq!(padded_row, 16);
    let mut padded = vec![0xffu8; 2 * padded_row];
    for r in 0..2 {
        for c in 0..row {
            padded[r * padded_row + c] = (r * row + c) as u8;
        }
    }
    assert_eq!(unpad_rows(&padded, padded_row, row, 2), Ok((0..24).collect::<Vec<u8>>()));
}

#[test]
fn filter_iterations_alternate_and_double() {
    assert_eq!(
        filter_iteration(0),
        Some(FilterIteration { bind_group: 0, step_width: 1, retains_output: true })
    );
    assert_eq!(
        filter_iteration(1),
        Some(FilterIteration { bind_group: 1, step_width: 2, retains_output: false })
    );
    assert_eq!(
        filter_iteration(2),
        Some(FilterIteration { bind_group: 0, step_width: 4, retains_output: false })
    );
    assert_eq!(
        filter_iteration(3),
        Some(FilterIteration { bind_group: 1, step_width: 8, retains_output: false })
    );
    assert_eq!(
        filter_iteration(31),
        Some(FilterIteration { bind_group: 1, step_width: 0x8000_0000, retains_output: false })
    );
    assert_eq!(filter_iteration(32), None);
    assert_eq!(filter_iteration(u32::MAX), None);
}
