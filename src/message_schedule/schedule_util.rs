//! Row layout of the message schedule.
use vstd::prelude::*;

use crate::constants::BLOCK_SIZE;

verus! {

/// Rows needed for each decomposition gate.
pub const DECOMPOSE_WORD_ROWS: usize = 2;

/// The row at which a message word is placed.
pub fn get_word_row(word_idx: usize) -> (r: usize)
    requires
        word_idx <= BLOCK_SIZE,
    ensures
        r == word_idx * BLOCK_SIZE,
{
    word_idx * BLOCK_SIZE
}

} // verus!
