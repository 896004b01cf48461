//! The pattern written to and read back from DDR after training.
use vstd::prelude::*;

verus! {

/// Number of 64-bit words in the pattern.
pub const TEST_LEN: usize = 64;

/// The word at index `offset`: `offset * 0x9E37_79B9_7F4A_7C15` (wrapping) xor
/// `0xDEAD_BEEF_CAFE_BABE`.
pub open spec fn spec_pattern(offset: u64) -> u64 {
    offset.wrapping_mul(0x9E37_79B9_7F4A_7C15u64) ^ 0xDEAD_BEEF_CAFE_BABEu64
}

/// The pattern word at index `offset`.
pub fn pattern_value(offset: u64) -> (v: u64)
    ensures
        v == spec_pattern(offset),
{
    offset.wrapping_mul(0x9E37_79B9_7F4A_7C15u64) ^ 0xDEAD_BEEF_CAFE_BABEu64
}

/// The 64 words written from the verify base, in address order.
pub fn test_pattern() -> (v: Vec<u64>)
    ensures
        v@.len() == TEST_LEN,
        forall|i: int| 0 <= i < TEST_LEN ==> #[trigger] v@[i] == spec_pattern(i as u64),
{
    let mut v: Vec<u64> = Vec::new();
    let mut i: usize = 0;
    while i < TEST_LEN
        invariant
            i <= TEST_LEN,
            v@.len() == i,
            forall|k: int| 0 <= k < i ==> #[trigger] v@[k] == spec_pattern(k as u64),
        decreases TEST_LEN - i,
    {
        v.push(pattern_value(i as u64));
        i = i + 1;
    }
    v
}

/// The first index whose word read back differs from the pattern, if any.
pub fn first_mismatch(read: &[u64]) -> (r: Option<usize>)
    requires
        read.len() == TEST_LEN,
    ensures
        match r {
            Some(i) => i < TEST_LEN && read[i as int] != spec_pattern(i as u64)
                && forall|k: int| 0 <= k < i ==> #[trigger] read[k] == spec_pattern(k as u64),
            None => forall|k: int| 0 <= k < TEST_LEN ==> #[trigger] read[k] == spec_pattern(k as u64),
        },
{
    let mut i: usize = 0;
    while i < TEST_LEN
        invariant
            i <= TEST_LEN,
            read.len() == TEST_LEN,
            forall|k: int| 0 <= k < i ==> #[trigger] read[k] == spec_pattern(k as u64),
        decreases TEST_LEN - i,
    {
        if read[i] != pattern_value(i as u64) {
            return Some(i);
        }
        i = i + 1;
    }
    None
}

} // verus!
