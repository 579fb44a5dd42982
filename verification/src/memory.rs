//! Memory-type selection.
//!
//! A device advertises up to 32 memory types; a resource restricts the
//! usable ones through a bitmask and the caller demands a set of property
//! flags. The functions here pick the first memory type that satisfies
//! both, from the type bitmask and the per-type property flags as plain
//! values.

use vstd::prelude::*;

verus! {

/// Memory type `i` is allowed by the resource's type bitmask and carries
/// every required property flag.
pub open spec fn spec_memory_type_suitable(
    memory_type_bits: u32,
    property_flags: Seq<u32>,
    required_flags: u32,
    i: int,
) -> bool {
    &&& 0 <= i < property_flags.len()
    &&& (1u32 << (i as u32)) & memory_type_bits != 0
    &&& property_flags[i] & required_flags == required_flags
}

/// Find the first memory type index suitable for the given requirements
/// and flags. `property_flags` holds the property flags of each of the
/// device's memory types, in device order.
pub fn try_find_memory_type_index(
    memory_type_bits: u32,
    property_flags: &Vec<u32>,
    required_flags: u32,
) -> (r: Option<u32>)
    requires
        property_flags@.len() <= 32,
    ensures
        r matches Some(i) ==> {
            &&& spec_memory_type_suitable(memory_type_bits, property_flags@, required_flags, i as int)
            &&& forall|j: int|
                0 <= j < i ==> !spec_memory_type_suitable(
                    memory_type_bits,
                    property_flags@,
                    required_flags,
                    j,
                )
        },
        r is None ==> forall|j: int|
            !spec_memory_type_suitable(memory_type_bits, property_flags@, required_flags, j),
    {
    let n = property_flags.len();
    let mut i: usize = 0;
    while i < n
        invariant
            i <= n,
            n == property_flags@.len() <= 32,
            forall|j: int|
                0 <= j < i ==> !spec_memory_type_suitable(
                    memory_type_bits,
                    property_flags@,
                    required_flags,
                    j,
                ),
        decreases n - i,
    {
        let allowed = (1u32 << (i as u32)) & memory_type_bits != 0;
        let has_flags = property_flags[i] & required_flags == required_flags;
        if allowed && has_flags {
            return Some(i as u32);
        }
        i = i + 1;
    }
    None
}

/// Find the first suitable memory type index, for callers that know one
/// exists. Where the original would panic, the precondition demands a
/// suitable type up front.
pub fn find_memory_type_index(
    memory_type_bits: u32,
    property_flags: &Vec<u32>,
    required_flags: u32,
) -> (r: u32)
    requires
        property_flags@.len() <= 32,
        exists|j: int|
            spec_memory_type_suitable(memory_type_bits, property_flags@, required_flags, j),
    ensures
        spec_memory_type_suitable(memory_type_bits, property_flags@, required_flags, r as int),
        forall|j: int|
            0 <= j < r ==> !spec_memory_type_suitable(
                memory_type_bits,
                property_flags@,
                required_flags,
                j,
            ),
{
    match try_find_memory_type_index(memory_type_bits, property_flags, required_flags) {
        Some(i) => i,
        None => vstd::pervasive::unreached(),
    }
}

} // verus!
