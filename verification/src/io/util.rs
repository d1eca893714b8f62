//! Utility functions for encoding.

use crate::bits::lemma_leading_zeros_thresholds;
use crate::varint::{lemma_var_i32_bytes_len, var_i32_bytes};
use vstd::prelude::*;

verus! {

/// Returns the number of bytes required to encode the given value as a
/// varint: one byte per started group of seven significant bits, and one byte
/// for zero.
pub fn varint_bytes(value: i32) -> (n: usize)
    ensures
        n == var_i32_bytes(value).len(),
        1 <= n <= 5,
{
    proof {
        lemma_var_i32_bytes_len(value);
        broadcast use vstd::std_specs::bits::axiom_u32_leading_zeros;
    }
    let u = value as u32;
    let lz = u.leading_zeros();
    if lz == 32 {
        // Special case for zero
        1
    } else {
        proof {
            lemma_leading_zeros_thresholds(u, lz);
        }
        ((38 - lz) / 7) as usize
    }
}

} // verus!
