//! Bounds rules for buffer copies, staging writes and frame-local buffer
//! sizing.
//!
//! The device-facing buffer objects live with the application; the rules
//! that keep their use in bounds are verified here on plain lengths and
//! offsets, and the application consults them before every copy, mapped
//! write or buffer replacement.

use vstd::prelude::*;

verus! {

#[derive(Clone, Copy, Debug, PartialEq, Eq, Structural)]
pub enum BufferCopyError {
    SpecifiedLengthExceedsBounds,
}

/// Guard for copying `length` elements from a buffer holding `src_length`
/// elements into one holding `dst_length`: the copy is allowed exactly
/// when neither side would be overrun.
pub fn check_copy_length(src_length: u64, dst_length: u64, length: u64) -> (r: Result<
    (),
    BufferCopyError,
>)
    ensures
        r is Ok <==> length <= src_length && length <= dst_length,
        r is Err ==> r == Err::<(), BufferCopyError>(BufferCopyError::SpecifiedLengthExceedsBounds),
{
    if src_length < length || dst_length < length {
        Err(BufferCopyError::SpecifiedLengthExceedsBounds)
    } else {
        Ok(())
    }
}

/// The number of bytes covered by `count` elements of `element_size`
/// bytes each, or `None` when that exceeds the address space.
pub fn element_range_bytes(count: u64, element_size: u64) -> (r: Option<u64>)
    ensures
        r == if count * element_size <= u64::MAX {
            Some((count * element_size) as u64)
        } else {
            None::<u64>
        },
{
    count.checked_mul(element_size)
}

/// Bounds check for a write into a mapped staging region: `len` bytes at
/// byte offset `offset` must lie inside a region of `region_size` bytes.
pub fn mapped_write_in_bounds(region_size: u64, offset: u64, len: u64) -> (r: bool)
    ensures
        r <==> offset + len <= region_size,
{
    offset <= region_size && len <= region_size - offset
}

/// Sizing rule for frame-local buffers: a buffer holding `buffer_length`
/// elements must be replaced as soon as the frame's data outgrows it, and
/// the replacement is sized by the push buffer's capacity so that a
/// steady-state frame never reallocates.
pub fn plan_buffer_growth(buffer_length: u64, data_length: u64, capacity: u64) -> (r: Option<u64>)
    requires
        data_length <= capacity,
    ensures
        r == if buffer_length < data_length {
            Some(capacity)
        } else {
            None::<u64>
        },
{
    if buffer_length < data_length {
        Some(capacity)
    } else {
        None
    }
}

} // verus!
