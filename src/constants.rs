//! Sizes, initial values and the per-round tables of RIPEMD-160.
use vstd::prelude::*;

verus! {

/// Number of 32-bit words in a message block.
pub const BLOCK_SIZE: usize = 16;

/// Number of bytes in a message block.
pub const BLOCK_SIZE_BYTES: usize = 64;

/// Number of 32-bit words in the chaining state and in the digest.
pub const DIGEST_SIZE: usize = 5;

/// Number of bytes in a digest.
pub const DIGEST_SIZE_BYTES: usize = 20;

/// Number of rounds run on each lane for one block.
pub const ROUNDS: usize = 80;

/// Number of consecutive rounds that share a round function and a constant.
pub const ROUND_PHASE_SIZE: usize = 16;

/// The chaining state before the first block.
pub const INITIAL_VALUES: [u32; 5] = [
    0x67452301, 0xEFCDAB89, 0x98BADCFE, 0x10325476, 0xC3D2E1F0,
];

/// Message-word selection of the left lane, by round.
pub const MSG_SEL_IDX_LEFT: [usize; 80] = [
    0, 1, 2, 3, 4, 5, 6, 7, 8, 9, 10, 11, 12, 13, 14, 15,
    7, 4, 13, 1, 10, 6, 15, 3, 12, 0, 9, 5, 2, 14, 11, 8,
    3, 10, 14, 4, 9, 15, 8, 1, 2, 7, 0, 6, 13, 11, 5, 12,
    1, 9, 11, 10, 0, 8, 12, 4, 13, 3, 7, 15, 14, 5, 6, 2,
    4, 0, 5, 9, 7, 12, 2, 10, 14, 1, 3, 8, 11, 6, 15, 13,
];

/// Message-word selection of the right lane, by round.
pub const MSG_SEL_IDX_RIGHT: [usize; 80] = [
    5, 14, 7, 0, 9, 2, 11, 4, 13, 6, 15, 8, 1, 10, 3, 12,
    6, 11, 3, 7, 0, 13, 5, 10, 14, 15, 8, 12, 4, 9, 1, 2,
    15, 5, 1, 3, 7, 14, 6, 9, 11, 8, 12, 2, 10, 0, 4, 13,
    8, 6, 4, 1, 3, 11, 15, 0, 5, 12, 2, 13, 9, 7, 10, 14,
    12, 15, 10, 4, 1, 5, 8, 7, 6, 2, 13, 14, 0, 3, 9, 11,
];

/// Rotation amounts of the left lane, by round.
pub const ROL_AMOUNT_LEFT: [u8; 80] = [
    11, 14, 15, 12, 5, 8, 7, 9, 11, 13, 14, 15, 6, 7, 9, 8,
    7, 6, 8, 13, 11, 9, 7, 15, 7, 12, 15, 9, 11, 7, 13, 12,
    11, 13, 6, 7, 14, 9, 13, 15, 14, 8, 13, 6, 5, 12, 7, 5,
    11, 12, 14, 15, 14, 15, 9, 8, 9, 14, 5, 6, 8, 6, 5, 12,
    9, 15, 5, 11, 6, 8, 13, 12, 5, 12, 13, 14, 11, 8, 5, 6,
];

/// Rotation amounts of the right lane, by round.
pub const ROL_AMOUNT_RIGHT: [u8; 80] = [
    8, 9, 9, 11, 13, 15, 15, 5, 7, 7, 8, 11, 14, 14, 12, 6,
    9, 13, 15, 7, 12, 8, 9, 11, 7, 7, 12, 7, 6, 15, 13, 11,
    9, 7, 15, 11, 8, 6, 6, 14, 12, 13, 5, 14, 13, 13, 7, 5,
    15, 5, 8, 11, 14, 14, 6, 14, 6, 9, 12, 9, 12, 5, 15, 8,
    8, 5, 12, 9, 12, 5, 14, 6, 8, 13, 6, 5, 15, 13, 11, 11,
];

/// Additive constants of the left lane, by phase.
pub const ROUND_CONSTANTS_LEFT: [u32; 5] = [
    0x00000000, 0x5A827999, 0x6ED9EBA1, 0x8F1BBCDC, 0xA953FD4E,
];

/// Additive constants of the right lane, by phase.
pub const ROUND_CONSTANTS_RIGHT: [u32; 5] = [
    0x50A28BE6, 0x5C4DD124, 0x6D703EF3, 0x7A6D76E9, 0x00000000,
];

/// Every message-word index selects a word of the block, and every rotation
/// amount lies in 5..=15, the range that the rotation gates cover.
pub proof fn lemma_round_tables_in_range(j: int)
    requires
        0 <= j < 80,
    ensures
        MSG_SEL_IDX_LEFT@[j] < 16,
        MSG_SEL_IDX_RIGHT@[j] < 16,
        5 <= ROL_AMOUNT_LEFT@[j] <= 15,
        5 <= ROL_AMOUNT_RIGHT@[j] <= 15,
{
}

} // verus!
