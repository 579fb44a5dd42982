use favilla::buffer::{
    check_copy_length, element_range_bytes, mapped_write_in_bounds, plan_buffer_growth,
    BufferCopyError,
};
use favilla::memory::{find_memory_type_index, try_find_memory_type_index};

#[test]
fn copy_length_guard() {
    assert!(check_copy_length(10, 10, 10).is_ok());
    assert!(check_copy_length(10, 20, 10).is_ok());
    assert_eq!(
        check_copy_length(9, 20, 10),
        Err(BufferCopyError::SpecifiedLengthExceedsBounds)
    );
    assert_eq!(
        check_copy_length(20, 9, 10),
        Err(BufferCopyError::SpecifiedLengthExceedsBounds)
    );
    assert!(check_copy_length(0, 0, 0).is_ok());
}

#[test]
fn element_range_in_bytes() {
    assert_eq!(element_range_bytes(6, 4), Some(24));
    assert_eq!(element_range_bytes(0, 8), Some(0));
    assert_eq!(element_range_bytes(u64::MAX, 2), None);
}

#[test]
fn mapped_write_bounds() {
    assert!(mapped_write_in_bounds(64, 0, 64));
    assert!(mapped_write_in_bounds(64, 60, 4));
    assert!(!mapped_write_in_bounds(64, 60, 5));
    assert!(!mapped_write_in_bounds(64, 65, 0));
    assert!(mapped_write_in_bounds(64, 64, 0));
    // offset + len may exceed u64 range without tripping the check
    assert!(!mapped_write_in_bounds(64, u64::MAX, u64::MAX));
}

#[test]
fn buffer_growth_uses_capacity_as_oracle() {
    // data outgrew the buffer: replace it, sized by the push buffer capacity
    assert_eq!(plan_buffer_growth(3, 6, 8), Some(8));
    // data still fits: keep the buffer
    assert_eq!(plan_buffer_growth(8, 6, 8), None);
    assert_eq!(plan_buffer_growth(6, 6, 8), None);
}

#[test]
fn memory_type_selection() {
    // type 0 lacks the flags, type 1 is masked out, type 2 fits
    let flags = vec![0b0001u32, 0b0011, 0b0011, 0b0011];
    let mask = 0b1101u32;
    assert_eq!(try_find_memory_type_index(mask, &flags, 0b0011), Some(2));
    assert_eq!(find_memory_type_index(mask, &flags, 0b0011), 2);

    // no type carries the required flags
    assert_eq!(try_find_memory_type_index(mask, &flags, 0b0100), None);
    // nothing allowed by the mask
    assert_eq!(try_find_memory_type_index(0, &flags, 0b0001), None);
    // first suitable index wins
    assert_eq!(try_find_memory_type_index(0b1111, &flags, 0b0001), Some(0));
}
