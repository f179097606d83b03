//! Loading a message block: each word with its two looked-up halves, bound
//! together by the decomposition gate.
use vstd::prelude::*;

use crate::compression::{RoundWordDense, assign_word_and_halves, block_of};
use crate::constants::BLOCK_SIZE;
use crate::gates::dense_pair;
use crate::spread_table::SpreadWord;

pub mod schedule_util;

pub use schedule_util::{DECOMPOSE_WORD_ROWS, get_word_row};

verus! {

/// A word of the block with the rows of its halves.
pub fn assign_msgblk_word_and_halves(word: u32, word_idx: usize) -> (r: (
    u32,
    (SpreadWord, SpreadWord),
    usize,
))
    requires
        word_idx <= BLOCK_SIZE,
    ensures
        r.0 == word,
        r.1.0.is_row(),
        r.1.1.is_row(),
        dense_pair(r.1.0.dense as int, r.1.1.dense as int) == word,
        r.2 == word_idx * BLOCK_SIZE,
{
    let row = get_word_row(word_idx);
    let w = assign_word_and_halves(word);
    let lo = SpreadWord::new(w.dense_halves.0);
    let hi = SpreadWord::new(w.dense_halves.1);
    (word, (lo, hi), row)
}

/// The halves of the sixteen words of a block, in order.
pub fn process(input: [u32; BLOCK_SIZE]) -> (r: Vec<RoundWordDense>)
    ensures
        r@.len() == BLOCK_SIZE,
        block_of(r@) == input@,
{
    let mut w_halves: Vec<RoundWordDense> = Vec::new();
    let mut i: usize = 0;
    while i < BLOCK_SIZE
        invariant
            i <= BLOCK_SIZE,
            w_halves@.len() == i,
            forall|k: int| 0 <= k < i ==> (#[trigger] w_halves@[k]).spec_value() == input@[k],
        decreases BLOCK_SIZE - i,
    {
        let (_, (lo, hi), _) = assign_msgblk_word_and_halves(input[i], i);
        w_halves.push(RoundWordDense(lo.dense, hi.dense));
        i = i + 1;
    }
    assert(block_of(w_halves@) =~= input@);
    w_halves
}

} // verus!
