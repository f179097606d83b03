//! The constraints of the compression gates, evaluated on the integer values
//! of their cells, and proofs that a satisfied gate (together with the
//! lookups that feed it) fixes its output to the correct 32-bit result.
//!
//! A cell that holds the spread of a 16-bit half is written `spread_*`; a
//! 32-bit quantity in spread form is its low spread half plus 2^32 times its
//! high spread half.
use vstd::prelude::*;

use crate::native::{f1_spec, f2_spec, f3_spec, f4_spec, f5_spec, rol_spec};
use crate::spread_table::{lemma_tag_bound, tag_bits, tag_of};
use vstd::arithmetic::power2::{
    pow2, lemma2_to64, lemma_pow2_adds, lemma_pow2_strictly_increases,
};
use vstd::bits::{lemma_u64_pow2_no_overflow, lemma_u64_shl_is_mul};
use crate::util::{
    MASK_EVEN_32, lemma_spread_add, lemma_spread_complement,
    lemma_spread_halves, lemma_spread_injective, lemma_spread_interleave_unique, spread,
};

verus! {

pub const TWO_POW_32: u64 = 0x1_0000_0000;

/// A 32-bit quantity in spread form, from its two spread halves.
pub open spec fn spread_pair(lo: int, hi: int) -> int {
    lo + 0x1_0000_0000 * hi
}

/// A 32-bit word from its two 16-bit halves.
pub open spec fn dense_pair(lo: int, hi: int) -> int {
    lo + 0x1_0000 * hi
}

/// The spread of a word, in halves.
pub proof fn lemma_word_spread(w: u32)
    ensures
        spread(w as nat) == spread_pair(
            spread((w % 65536) as nat) as int,
            spread((w / 65536) as nat) as int,
        ),
{
    lemma_spread_halves((w % 65536) as nat, (w / 65536) as nat);
}

/// The word whose halves are `lo` and `hi`.
pub open spec fn word_of(lo: u16, hi: u16) -> u32 {
    (lo + 0x1_0000 * hi) as u32
}

/// Three spread words added: the even bits hold the XOR of the three, the
/// odd bits their majority.
pub proof fn lemma_spread_add3(x: u32, y: u32, z: u32)
    ensures
        spread(x as nat) + spread(y as nat) + spread(z as nat) == spread((x ^ y ^ z) as nat) + 2
            * spread(((x & y) ^ ((x ^ y) & z)) as nat),
{
    lemma_spread_add(x, y);
    lemma_spread_add(x ^ y, z);
    let p = x & y;
    let q = (x ^ y) & z;
    assert(p & q == 0) by (bit_vector)
        requires
            p == x & y,
            q == (x ^ y) & z,
    ;
    lemma_spread_add(p, q);
    assert(spread(0) == 0);
}

/// A spread sum that splits into even and odd parts given as words.
pub proof fn lemma_split_spread_sum(even: u32, odd: u32, x: u32, y: u32)
    requires
        spread(x as nat) + spread(y as nat) == spread(even as nat) + 2 * spread(odd as nat),
    ensures
        even == x ^ y,
        odd == x & y,
{
    lemma_spread_add(x, y);
    lemma_spread_interleave_unique(even as nat, odd as nat, (x ^ y) as nat, (x & y) as nat);
}

/// The bitwise facts that the round-function gates rest on.
pub proof fn lemma_round_function_bits(x: u32, y: u32, z: u32)
    ensures
        !x == 0xFFFF_FFFF - x,
        (x & y) & (!x & z) == 0,
        (x & y) + (!x & z) == f2_spec(x, y, z),
        f2_spec(z, x, y) == f4_spec(x, y, z),
        (x ^ !y) & (x & !y) == 0,
        (x ^ !y) ^ (x & !y) == x | !y,
        ((x | !y) ^ z) == f3_spec(x, y, z),
        f3_spec(y, z, x) == f5_spec(x, y, z),
{
    assert(!x == 0xFFFF_FFFF - x && (x & y) & (!x & z) == 0 && (x & y) + (!x & z) == (x & y) | (
    !x & z) && (z & x) | (!z & y) == (x & z) | (y & !z) && (x ^ !y) & (x & !y) == 0 && (x ^ !y)
        ^ (x & !y) == x | !y && (y | !z) ^ x == x ^ (y | !z)) by (bit_vector);
}

/// The complement of a word, in halves.
pub proof fn lemma_not_halves(x: u32)
    ensures
        (!x) % 65536 == 65535 - x % 65536,
        (!x) / 65536 == 65535 - x / 65536,
{
    lemma_round_function_bits(x, 0, 0);
}

/// `lo + 2^32 * hi` without overflow.
pub fn spread_pair_exec(lo: u64, hi: u64) -> (r: u128)
    ensures
        r == spread_pair(lo as int, hi as int),
{
    assert(hi * 0x1_0000_0000 <= 0xFFFF_FFFF_FFFF_FFFFu64 * 0x1_0000_0000) by (nonlinear_arith);
    lo as u128 + hi as u128 * TWO_POW_32 as u128
}

/// `lo + 2^16 * hi` without overflow.
pub fn dense_pair_exec(lo: u128, hi: u128) -> (r: u128)
    requires
        lo <= 0x4_0000_0000_0000_0000,
        hi <= 0x4_0000_0000_0000_0000,
    ensures
        r == dense_pair(lo as int, hi as int),
{
    lo + hi * 0x1_0000u128
}

/// Holds the constraint checks of the compression function.
pub struct CompressionGate;

// ---------------------------------------------------------------------------
// f1: B ^ C ^ D
// ---------------------------------------------------------------------------
/// Cells of the f1 gate: the spread halves of B, C, D and the looked-up
/// even and odd halves of their spread sum.
#[derive(Clone, Copy, Debug)]
pub struct F1Cells {
    pub spread_r0_even: u64,
    pub spread_r0_odd: u64,
    pub spread_r1_even: u64,
    pub spread_r1_odd: u64,
    pub spread_b_lo: u64,
    pub spread_b_hi: u64,
    pub spread_c_lo: u64,
    pub spread_c_hi: u64,
    pub spread_d_lo: u64,
    pub spread_d_hi: u64,
}

impl F1Cells {
    /// spread(B) + spread(C) + spread(D) == even + 2 * odd.
    pub open spec fn holds(self) -> bool {
        spread_pair(self.spread_b_lo as int, self.spread_b_hi as int) + spread_pair(
            self.spread_c_lo as int,
            self.spread_c_hi as int,
        ) + spread_pair(self.spread_d_lo as int, self.spread_d_hi as int) == spread_pair(
            self.spread_r0_even as int,
            self.spread_r1_even as int,
        ) + 2 * spread_pair(self.spread_r0_odd as int, self.spread_r1_odd as int)
    }

    /// The spread cells of the inputs hold the spreads of the halves of b, c, d.
    pub open spec fn inputs_are(self, b: u32, c: u32, d: u32) -> bool {
        &&& self.spread_b_lo == spread((b % 65536) as nat)
        &&& self.spread_b_hi == spread((b / 65536) as nat)
        &&& self.spread_c_lo == spread((c % 65536) as nat)
        &&& self.spread_c_hi == spread((c / 65536) as nat)
        &&& self.spread_d_lo == spread((d % 65536) as nat)
        &&& self.spread_d_hi == spread((d / 65536) as nat)
    }

    /// The output cells are the spreads of the looked-up dense values.
    pub open spec fn outputs_are(self, r0e: u16, r0o: u16, r1e: u16, r1o: u16) -> bool {
        &&& self.spread_r0_even == spread(r0e as nat)
        &&& self.spread_r0_odd == spread(r0o as nat)
        &&& self.spread_r1_even == spread(r1e as nat)
        &&& self.spread_r1_odd == spread(r1o as nat)
    }
}

impl CompressionGate {
    pub fn f1_gate(cells: &F1Cells) -> (r: bool)
        ensures
            r == cells.holds(),
    {
        let b = spread_pair_exec(cells.spread_b_lo, cells.spread_b_hi);
        let c = spread_pair_exec(cells.spread_c_lo, cells.spread_c_hi);
        let d = spread_pair_exec(cells.spread_d_lo, cells.spread_d_hi);
        let xor_even = spread_pair_exec(cells.spread_r0_even, cells.spread_r1_even);
        let xor_odd = spread_pair_exec(cells.spread_r0_odd, cells.spread_r1_odd);
        b + c + d == xor_even + 2 * xor_odd
    }
}

/// A satisfied f1 gate whose inputs and outputs come from the spread table
/// outputs exactly B ^ C ^ D in its even halves.
pub proof fn lemma_f1_gate_sound(
    cells: F1Cells,
    b: u32,
    c: u32,
    d: u32,
    r0e: u16,
    r0o: u16,
    r1e: u16,
    r1o: u16,
)
    requires
        cells.holds(),
        cells.inputs_are(b, c, d),
        cells.outputs_are(r0e, r0o, r1e, r1o),
    ensures
        dense_pair(r0e as int, r1e as int) == f1_spec(b, c, d),
{
    lemma_word_spread(b);
    lemma_word_spread(c);
    lemma_word_spread(d);
    let e = word_of(r0e, r1e);
    let o = word_of(r0o, r1o);
    lemma_spread_halves(r0e as nat, r1e as nat);
    lemma_spread_halves(r0o as nat, r1o as nat);
    lemma_spread_add3(b, c, d);
    lemma_spread_interleave_unique(
        e as nat,
        o as nat,
        (b ^ c ^ d) as nat,
        ((b & c) ^ ((b ^ c) & d)) as nat,
    );
}

// ---------------------------------------------------------------------------
// f2 / f4: (X & Y) | (!X & Z)
// ---------------------------------------------------------------------------
/// Cells for f2 and f4, which share constraints. P = spread(X) + spread(Y) and
/// Q = spread(!X) + spread(Z) are looked up in even and odd halves; the odd
/// halves of P and Q (X & Y and !X & Z) are added with a zero carry.
#[derive(Clone, Copy, Debug)]
pub struct F2Cells {
    pub spread_p0_even: u64,
    pub spread_p0_odd: u64,
    pub spread_p1_even: u64,
    pub spread_p1_odd: u64,
    pub p0_odd: u64,
    pub p1_odd: u64,
    pub spread_q0_even: u64,
    pub spread_q0_odd: u64,
    pub spread_q1_even: u64,
    pub spread_q1_odd: u64,
    pub q0_odd: u64,
    pub q1_odd: u64,
    pub spread_x_lo: u64,
    pub spread_x_hi: u64,
    pub spread_y_lo: u64,
    pub spread_y_hi: u64,
    pub spread_z_lo: u64,
    pub spread_z_hi: u64,
    pub spread_neg_x_lo: u64,
    pub spread_neg_x_hi: u64,
    pub sum_lo: u64,
    pub sum_hi: u64,
    pub carry: u64,
}

impl F2Cells {
    pub open spec fn neg_check(self) -> bool {
        &&& self.spread_neg_x_lo + self.spread_x_lo == MASK_EVEN_32
        &&& self.spread_neg_x_hi + self.spread_x_hi == MASK_EVEN_32
    }

    pub open spec fn p_check(self) -> bool {
        spread_pair(self.spread_x_lo as int, self.spread_x_hi as int) + spread_pair(
            self.spread_y_lo as int,
            self.spread_y_hi as int,
        ) == spread_pair(self.spread_p0_even as int, self.spread_p1_even as int) + 2
            * spread_pair(self.spread_p0_odd as int, self.spread_p1_odd as int)
    }

    pub open spec fn q_check(self) -> bool {
        spread_pair(self.spread_neg_x_lo as int, self.spread_neg_x_hi as int) + spread_pair(
            self.spread_z_lo as int,
            self.spread_z_hi as int,
        ) == spread_pair(self.spread_q0_even as int, self.spread_q1_even as int) + 2
            * spread_pair(self.spread_q0_odd as int, self.spread_q1_odd as int)
    }

    pub open spec fn sum_check(self) -> bool {
        dense_pair(self.p0_odd + self.q0_odd, self.p1_odd + self.q1_odd) - self.carry
            * 0x1_0000_0000 == dense_pair(self.sum_lo as int, self.sum_hi as int)
    }

    pub open spec fn holds(self) -> bool {
        &&& self.neg_check()
        &&& self.p_check()
        &&& self.q_check()
        &&& self.sum_check()
        &&& self.carry == 0
    }

    pub open spec fn inputs_are(self, x: u32, y: u32, z: u32) -> bool {
        &&& self.spread_x_lo == spread((x % 65536) as nat)
        &&& self.spread_x_hi == spread((x / 65536) as nat)
        &&& self.spread_y_lo == spread((y % 65536) as nat)
        &&& self.spread_y_hi == spread((y / 65536) as nat)
        &&& self.spread_z_lo == spread((z % 65536) as nat)
        &&& self.spread_z_hi == spread((z / 65536) as nat)
    }

    /// The eight looked-up rows: dense values and their spreads.
    pub open spec fn outputs_are(
        self,
        p0e: u16,
        p0o: u16,
        p1e: u16,
        p1o: u16,
        q0e: u16,
        q0o: u16,
        q1e: u16,
        q1o: u16,
    ) -> bool {
        &&& self.spread_p0_even == spread(p0e as nat)
        &&& self.spread_p0_odd == spread(p0o as nat)
        &&& self.spread_p1_even == spread(p1e as nat)
        &&& self.spread_p1_odd == spread(p1o as nat)
        &&& self.p0_odd == p0o
        &&& self.p1_odd == p1o
        &&& self.spread_q0_even == spread(q0e as nat)
        &&& self.spread_q0_odd == spread(q0o as nat)
        &&& self.spread_q1_even == spread(q1e as nat)
        &&& self.spread_q1_odd == spread(q1o as nat)
        &&& self.q0_odd == q0o
        &&& self.q1_odd == q1o
    }
}

impl CompressionGate {
    pub fn f2_gate(cells: &F2Cells) -> (r: bool)
        ensures
            r == cells.holds(),
    {
        let mask = MASK_EVEN_32 as u128;
        let neg_ok = cells.spread_neg_x_lo as u128 + cells.spread_x_lo as u128 == mask
            && cells.spread_neg_x_hi as u128 + cells.spread_x_hi as u128 == mask;
        let x = spread_pair_exec(cells.spread_x_lo, cells.spread_x_hi);
        let y = spread_pair_exec(cells.spread_y_lo, cells.spread_y_hi);
        let z = spread_pair_exec(cells.spread_z_lo, cells.spread_z_hi);
        let neg_x = spread_pair_exec(cells.spread_neg_x_lo, cells.spread_neg_x_hi);
        let p_even = spread_pair_exec(cells.spread_p0_even, cells.spread_p1_even);
        let p_odd = spread_pair_exec(cells.spread_p0_odd, cells.spread_p1_odd);
        let q_even = spread_pair_exec(cells.spread_q0_even, cells.spread_q1_even);
        let q_odd = spread_pair_exec(cells.spread_q0_odd, cells.spread_q1_odd);
        let sum = dense_pair_exec(
            cells.p0_odd as u128 + cells.q0_odd as u128,
            cells.p1_odd as u128 + cells.q1_odd as u128,
        );
        let mod_sum = dense_pair_exec(cells.sum_lo as u128, cells.sum_hi as u128);
        let sum_ok = sum == spread_pair_exec(0, cells.carry) + mod_sum;
        neg_ok && x + y == p_even + 2 * p_odd && neg_x + z == q_even + 2 * q_odd && sum_ok
            && cells.carry == 0
    }
}

/// The complement check fixes the spread cells of !X.
pub proof fn lemma_neg_check(x: u32, spread_neg_lo: int, spread_neg_hi: int)
    requires
        spread_neg_lo + spread((x % 65536) as nat) == MASK_EVEN_32,
        spread_neg_hi + spread((x / 65536) as nat) == MASK_EVEN_32,
    ensures
        spread_pair(spread_neg_lo, spread_neg_hi) == spread((!x) as nat),
{
    lemma_not_halves(x);
    lemma_spread_complement((x % 65536) as nat);
    lemma_spread_complement((x / 65536) as nat);
    lemma_word_spread(!x);
}

/// A satisfied f2 gate fed by the spread table outputs (X & Y) | (!X & Z).
pub proof fn lemma_f2_gate_sound(
    cells: F2Cells,
    x: u32,
    y: u32,
    z: u32,
    p0e: u16,
    p0o: u16,
    p1e: u16,
    p1o: u16,
    q0e: u16,
    q0o: u16,
    q1e: u16,
    q1o: u16,
)
    requires
        cells.holds(),
        cells.inputs_are(x, y, z),
        cells.outputs_are(p0e, p0o, p1e, p1o, q0e, q0o, q1e, q1o),
    ensures
        word_of(p0o, p1o) == x & y,
        word_of(q0o, q1o) == !x & z,
        dense_pair(cells.sum_lo as int, cells.sum_hi as int) == f2_spec(x, y, z),
{
    lemma_word_spread(x);
    lemma_word_spread(y);
    lemma_word_spread(z);
    lemma_neg_check(x, cells.spread_neg_x_lo as int, cells.spread_neg_x_hi as int);
    lemma_spread_halves(p0e as nat, p1e as nat);
    lemma_spread_halves(p0o as nat, p1o as nat);
    lemma_spread_halves(q0e as nat, q1e as nat);
    lemma_spread_halves(q0o as nat, q1o as nat);
    lemma_split_spread_sum(word_of(p0e, p1e), word_of(p0o, p1o), x, y);
    lemma_split_spread_sum(word_of(q0e, q1e), word_of(q0o, q1o), !x, z);
    lemma_round_function_bits(x, y, z);
}

// ---------------------------------------------------------------------------
// f3 / f5: (X | !Y) ^ Z
// ---------------------------------------------------------------------------
/// Cells for f3 and f5, which share constraints. spread(X) + spread(!Y) is
/// looked up in even and odd halves (X ^ !Y and X & !Y); their sum is the spread of
/// X | !Y, looked up as `or`; spread(or) + spread(Z) is looked up in even
/// and odd halves, whose even halves are the output.
#[derive(Clone, Copy, Debug)]
pub struct F3Cells {
    pub spread_r0_even: u64,
    pub spread_r0_odd: u64,
    pub spread_r1_even: u64,
    pub spread_r1_odd: u64,
    pub spread_or_lo: u64,
    pub spread_or_hi: u64,
    pub spread_sum0_even: u64,
    pub spread_sum0_odd: u64,
    pub spread_sum1_even: u64,
    pub spread_sum1_odd: u64,
    pub spread_x_lo: u64,
    pub spread_x_hi: u64,
    pub spread_y_lo: u64,
    pub spread_y_hi: u64,
    pub spread_y_neg_lo: u64,
    pub spread_y_neg_hi: u64,
    pub spread_z_lo: u64,
    pub spread_z_hi: u64,
}

impl F3Cells {
    pub open spec fn neg_check(self) -> bool {
        &&& self.spread_y_neg_lo + self.spread_y_lo == MASK_EVEN_32
        &&& self.spread_y_neg_hi + self.spread_y_hi == MASK_EVEN_32
    }

    pub open spec fn sum_check(self) -> bool {
        spread_pair(self.spread_x_lo as int, self.spread_x_hi as int) + spread_pair(
            self.spread_y_neg_lo as int,
            self.spread_y_neg_hi as int,
        ) == spread_pair(self.spread_sum0_even as int, self.spread_sum1_even as int) + 2
            * spread_pair(self.spread_sum0_odd as int, self.spread_sum1_odd as int)
    }

    pub open spec fn or_check(self) -> bool {
        spread_pair(
            self.spread_sum0_even + self.spread_sum0_odd,
            self.spread_sum1_even + self.spread_sum1_odd,
        ) == spread_pair(self.spread_or_lo as int, self.spread_or_hi as int)
    }

    pub open spec fn xor_check(self) -> bool {
        spread_pair(self.spread_or_lo as int, self.spread_or_hi as int) + spread_pair(
            self.spread_z_lo as int,
            self.spread_z_hi as int,
        ) == spread_pair(self.spread_r0_even as int, self.spread_r1_even as int) + 2
            * spread_pair(self.spread_r0_odd as int, self.spread_r1_odd as int)
    }

    pub open spec fn holds(self) -> bool {
        &&& self.neg_check()
        &&& self.sum_check()
        &&& self.or_check()
        &&& self.xor_check()
    }

    pub open spec fn inputs_are(self, x: u32, y: u32, z: u32) -> bool {
        &&& self.spread_x_lo == spread((x % 65536) as nat)
        &&& self.spread_x_hi == spread((x / 65536) as nat)
        &&& self.spread_y_lo == spread((y % 65536) as nat)
        &&& self.spread_y_hi == spread((y / 65536) as nat)
        &&& self.spread_z_lo == spread((z % 65536) as nat)
        &&& self.spread_z_hi == spread((z / 65536) as nat)
    }

    /// The ten looked-up rows: four for the sum, two for `or`, four for the
    /// result.
    pub open spec fn outputs_are(
        self,
        s0e: u16,
        s0o: u16,
        s1e: u16,
        s1o: u16,
        or_lo: u16,
        or_hi: u16,
        r0e: u16,
        r0o: u16,
        r1e: u16,
        r1o: u16,
    ) -> bool {
        &&& self.spread_sum0_even == spread(s0e as nat)
        &&& self.spread_sum0_odd == spread(s0o as nat)
        &&& self.spread_sum1_even == spread(s1e as nat)
        &&& self.spread_sum1_odd == spread(s1o as nat)
        &&& self.spread_or_lo == spread(or_lo as nat)
        &&& self.spread_or_hi == spread(or_hi as nat)
        &&& self.spread_r0_even == spread(r0e as nat)
        &&& self.spread_r0_odd == spread(r0o as nat)
        &&& self.spread_r1_even == spread(r1e as nat)
        &&& self.spread_r1_odd == spread(r1o as nat)
    }
}

impl CompressionGate {
    pub fn f3_gate(cells: &F3Cells) -> (r: bool)
        ensures
            r == cells.holds(),
    {
        let mask = MASK_EVEN_32 as u128;
        let neg_ok = cells.spread_y_neg_lo as u128 + cells.spread_y_lo as u128 == mask
            && cells.spread_y_neg_hi as u128 + cells.spread_y_hi as u128 == mask;
        let x = spread_pair_exec(cells.spread_x_lo, cells.spread_x_hi);
        let neg_y = spread_pair_exec(cells.spread_y_neg_lo, cells.spread_y_neg_hi);
        let z = spread_pair_exec(cells.spread_z_lo, cells.spread_z_hi);
        let sum_even = spread_pair_exec(cells.spread_sum0_even, cells.spread_sum1_even);
        let sum_odd = spread_pair_exec(cells.spread_sum0_odd, cells.spread_sum1_odd);
        let or = spread_pair_exec(cells.spread_or_lo, cells.spread_or_hi);
        let r_even = spread_pair_exec(cells.spread_r0_even, cells.spread_r1_even);
        let r_odd = spread_pair_exec(cells.spread_r0_odd, cells.spread_r1_odd);
        neg_ok && x + neg_y == sum_even + 2 * sum_odd && sum_even + sum_odd == or && or + z
            == r_even + 2 * r_odd
    }
}

/// A satisfied f3 gate fed by the spread table outputs (X | !Y) ^ Z in the
/// even halves of its result.
pub proof fn lemma_f3_gate_sound(
    cells: F3Cells,
    x: u32,
    y: u32,
    z: u32,
    s0e: u16,
    s0o: u16,
    s1e: u16,
    s1o: u16,
    or_lo: u16,
    or_hi: u16,
    r0e: u16,
    r0o: u16,
    r1e: u16,
    r1o: u16,
)
    requires
        cells.holds(),
        cells.inputs_are(x, y, z),
        cells.outputs_are(s0e, s0o, s1e, s1o, or_lo, or_hi, r0e, r0o, r1e, r1o),
    ensures
        word_of(s0e, s1e) == x ^ !y,
        word_of(s0o, s1o) == x & !y,
        word_of(or_lo, or_hi) == x | !y,
        dense_pair(r0e as int, r1e as int) == f3_spec(x, y, z),
{
    lemma_word_spread(x);
    lemma_word_spread(z);
    lemma_neg_check(y, cells.spread_y_neg_lo as int, cells.spread_y_neg_hi as int);
    let se = word_of(s0e, s1e);
    let so = word_of(s0o, s1o);
    let or = word_of(or_lo, or_hi);
    lemma_spread_halves(s0e as nat, s1e as nat);
    lemma_spread_halves(s0o as nat, s1o as nat);
    lemma_spread_halves(or_lo as nat, or_hi as nat);
    lemma_spread_halves(r0e as nat, r1e as nat);
    lemma_spread_halves(r0o as nat, r1o as nat);
    lemma_split_spread_sum(se, so, x, !y);
    lemma_round_function_bits(x, y, z);
    lemma_spread_add(se, so);
    assert(spread(0) == 0);
    lemma_spread_injective((se ^ so) as nat, or as nat);
    lemma_split_spread_sum(word_of(r0e, r1e), word_of(r0o, r1o), or, z);
}

/// f4 is the f2 gate on the operands (Z, X, Y): satisfied and fed by the
/// spread table, it outputs (X & Z) | (Y & !Z).
pub proof fn lemma_f4_gate_sound(
    cells: F2Cells,
    x: u32,
    y: u32,
    z: u32,
    p0e: u16,
    p0o: u16,
    p1e: u16,
    p1o: u16,
    q0e: u16,
    q0o: u16,
    q1e: u16,
    q1o: u16,
)
    requires
        cells.holds(),
        cells.inputs_are(z, x, y),
        cells.outputs_are(p0e, p0o, p1e, p1o, q0e, q0o, q1e, q1o),
    ensures
        dense_pair(cells.sum_lo as int, cells.sum_hi as int) == f4_spec(x, y, z),
{
    lemma_f2_gate_sound(cells, z, x, y, p0e, p0o, p1e, p1o, q0e, q0o, q1e, q1o);
    lemma_round_function_bits(x, y, z);
}

/// f5 is the f3 gate on the operands (Y, Z, X): satisfied and fed by the
/// spread table, it outputs X ^ (Y | !Z).
pub proof fn lemma_f5_gate_sound(
    cells: F3Cells,
    x: u32,
    y: u32,
    z: u32,
    s0e: u16,
    s0o: u16,
    s1e: u16,
    s1o: u16,
    or_lo: u16,
    or_hi: u16,
    r0e: u16,
    r0o: u16,
    r1e: u16,
    r1o: u16,
)
    requires
        cells.holds(),
        cells.inputs_are(y, z, x),
        cells.outputs_are(s0e, s0o, s1e, s1o, or_lo, or_hi, r0e, r0o, r1e, r1o),
    ensures
        dense_pair(r0e as int, r1e as int) == f5_spec(x, y, z),
{
    lemma_f3_gate_sound(cells, y, z, x, s0e, s0o, s1e, s1o, or_lo, or_hi, r0e, r0o, r1e, r1o);
    lemma_round_function_bits(x, y, z);
}

// ---------------------------------------------------------------------------
// Rotations by 5..=15
// ---------------------------------------------------------------------------
// The word is cut into an s-bit high chunk a, a (16 - s)-bit middle chunk b
// and the 16-bit low half c. One of a and b is looked up in the spread
// table, whose tag bounds its length; the other is split in two parts that
// are range-checked directly:
//   s in 5..=8:   b looked up (tag <= 8 - s), a = (a_lo, a_hi)
//   s in 9..=12:  a looked up (tag <= s - 8), b = (b_lo, b_hi)
//   s in 13..=15: a looked up (tag <= s - 8), b range-checked whole
/// Bits of the low part of the split chunk, for shifts 5 to 15.
pub const ROT_SPLIT_LO_BITS: [u32; 11] = [2, 3, 3, 4, 3, 3, 2, 2, 3, 2, 1];

/// Bits of the high part of the split chunk (0: the chunk is not split).
pub const ROT_SPLIT_HI_BITS: [u32; 11] = [3, 3, 4, 4, 4, 3, 3, 2, 0, 0, 0];

/// Largest tag allowed for the looked-up chunk.
pub const ROT_TAG_BOUND: [u32; 11] = [3, 2, 1, 0, 1, 2, 3, 4, 5, 6, 7];

/// Cells of a rotation gate for the shift `shift`.
#[derive(Clone, Copy, Debug)]
pub struct RotateLeftCells {
    pub shift: u32,
    pub split_lo: u64,
    pub split_hi: u64,
    pub chunk: u64,
    pub tag_chunk: u64,
    pub c: u64,
    pub word_lo: u64,
    pub word_hi: u64,
    pub rol_word_lo: u64,
    pub rol_word_hi: u64,
}

impl RotateLeftCells {
    pub open spec fn lo_bits(self) -> nat {
        ROT_SPLIT_LO_BITS@[self.shift - 5] as nat
    }

    pub open spec fn hi_bits(self) -> nat {
        ROT_SPLIT_HI_BITS@[self.shift - 5] as nat
    }

    pub open spec fn range_checks(self) -> bool {
        &&& 5 <= self.shift <= 15
        &&& self.tag_chunk <= ROT_TAG_BOUND@[self.shift - 5]
        &&& self.split_lo < pow2(self.lo_bits())
        &&& self.split_hi < pow2(self.hi_bits())
    }

    /// The chunks put back at their places give the word.
    pub open spec fn word_check(self) -> bool {
        let s = self.shift as nat;
        let lw = self.lo_bits();
        let word = dense_pair(self.word_lo as int, self.word_hi as int);
        if s <= 8 {
            self.c + self.chunk * pow2(16) + self.split_lo * pow2((32 - s) as nat) + self.split_hi
                * pow2((32 - s + lw) as nat) == word
        } else {
            self.c + self.split_lo * pow2(16) + self.split_hi * pow2(16 + lw) + self.chunk * pow2(
                (32 - s) as nat,
            ) == word
        }
    }

    /// The chunks in rotated order, as one number.
    pub open spec fn rol_formula(self) -> int {
        let s = self.shift as nat;
        let lw = self.lo_bits();
        if s <= 8 {
            self.split_lo + self.split_hi * pow2(lw) + self.c * pow2(s) + self.chunk * pow2(16 + s)
        } else {
            self.chunk + self.c * pow2(s) + self.split_lo * pow2(16 + s) + self.split_hi * pow2(
                16 + s + lw,
            )
        }
    }

    /// The chunks rotated cyclically give the rotated word.
    pub open spec fn rol_check(self) -> bool {
        self.rol_formula() == dense_pair(self.rol_word_lo as int, self.rol_word_hi as int)
    }

    pub open spec fn holds(self) -> bool {
        &&& self.range_checks()
        &&& self.word_check()
        &&& self.rol_check()
    }
}

/// 2^k.
pub fn pow2_exec(k: u32) -> (r: u64)
    requires
        k < 64,
    ensures
        r == pow2(k as nat),
        r >= 1,
{
    proof {
        lemma_u64_pow2_no_overflow(k as nat);
        lemma_u64_shl_is_mul(1, k as u64);
    }
    1u64 << k
}

/// `v * 2^k` without overflow.
fn mul_pow2(v: u64, k: u32) -> (r: u128)
    requires
        k <= 48,
    ensures
        r == v * pow2(k as nat),
        r < 0x1_0000_0000_0000_0000_0000_0000_0000u128,
{
    let p = pow2_exec(k);
    proof {
        if k < 48 {
            lemma_pow2_strictly_increases(k as nat, 48);
        }
        lemma2_to64();
        assert(pow2(48) == 0x1_0000_0000_0000) by {
            lemma_pow2_adds(32, 16);
        }
    }
    assert(v * p <= 0xFFFF_FFFF_FFFF_FFFFu64 * 0x1_0000_0000_0000u64) by (nonlinear_arith)
        requires
            p <= 0x1_0000_0000_0000u64,
    ;
    v as u128 * p as u128
}

impl CompressionGate {
    /// The rotation gate for any shift from 5 to 15.
    pub fn rotate_left_gate(cells: &RotateLeftCells) -> (r: bool)
        ensures
            r == cells.holds(),
    {
        if cells.shift < 5 || cells.shift > 15 {
            return false;
        }
        let s = cells.shift;
        let idx = (s - 5) as usize;
        let lw = ROT_SPLIT_LO_BITS[idx];
        let hw = ROT_SPLIT_HI_BITS[idx];
        let ranges = cells.tag_chunk <= ROT_TAG_BOUND[idx] as u64 && cells.split_lo < pow2_exec(
            lw,
        ) && cells.split_hi < pow2_exec(hw);
        let word = dense_pair_exec(cells.word_lo as u128, cells.word_hi as u128);
        let rol = dense_pair_exec(cells.rol_word_lo as u128, cells.rol_word_hi as u128);
        let (word_ok, rol_ok) = if s <= 8 {
            (cells.c as u128 + mul_pow2(cells.chunk, 16) + mul_pow2(cells.split_lo, 32 - s)
                + mul_pow2(cells.split_hi, 32 - s + lw) == word, cells.split_lo as u128
                + mul_pow2(cells.split_hi, lw) + mul_pow2(cells.c, s) + mul_pow2(
                cells.chunk,
                16 + s,
            ) == rol)
        } else {
            (cells.c as u128 + mul_pow2(cells.split_lo, 16) + mul_pow2(cells.split_hi, 16 + lw)
                + mul_pow2(cells.chunk, 32 - s) == word, cells.chunk as u128 + mul_pow2(cells.c, s)
                + mul_pow2(cells.split_lo, 16 + s) + mul_pow2(cells.split_hi, 16 + s + lw) == rol)
        };
        ranges && word_ok && rol_ok
    }

    /// The rotation gate for a shift of 5.
    pub fn rotate_left_5_gate(cells: &RotateLeftCells) -> (r: bool)
        requires
            cells.shift == 5,
        ensures
            r == cells.holds(),
    {
        CompressionGate::rotate_left_gate(cells)
    }

    /// The rotation gate for a shift of 6.
    pub fn rotate_left_6_gate(cells: &RotateLeftCells) -> (r: bool)
        requires
            cells.shift == 6,
        ensures
            r == cells.holds(),
    {
        CompressionGate::rotate_left_gate(cells)
    }

    /// The rotation gate for a shift of 7.
    pub fn rotate_left_7_gate(cells: &RotateLeftCells) -> (r: bool)
        requires
            cells.shift == 7,
        ensures
            r == cells.holds(),
    {
        CompressionGate::rotate_left_gate(cells)
    }

    /// The rotation gate for a shift of 8.
    pub fn rotate_left_8_gate(cells: &RotateLeftCells) -> (r: bool)
        requires
            cells.shift == 8,
        ensures
            r == cells.holds(),
    {
        CompressionGate::rotate_left_gate(cells)
    }

    /// The rotation gate for a shift of 9.
    pub fn rotate_left_9_gate(cells: &RotateLeftCells) -> (r: bool)
        requires
            cells.shift == 9,
        ensures
            r == cells.holds(),
    {
        CompressionGate::rotate_left_gate(cells)
    }

    /// The rotation gate for a shift of 10.
    pub fn rotate_left_10_gate(cells: &RotateLeftCells) -> (r: bool)
        requires
            cells.shift == 10,
        ensures
            r == cells.holds(),
    {
        CompressionGate::rotate_left_gate(cells)
    }

    /// The rotation gate for a shift of 11.
    pub fn rotate_left_11_gate(cells: &RotateLeftCells) -> (r: bool)
        requires
            cells.shift == 11,
        ensures
            r == cells.holds(),
    {
        CompressionGate::rotate_left_gate(cells)
    }

    /// The rotation gate for a shift of 12.
    pub fn rotate_left_12_gate(cells: &RotateLeftCells) -> (r: bool)
        requires
            cells.shift == 12,
        ensures
            r == cells.holds(),
    {
        CompressionGate::rotate_left_gate(cells)
    }

    /// The rotation gate for a shift of 13.
    pub fn rotate_left_13_gate(cells: &RotateLeftCells) -> (r: bool)
        requires
            cells.shift == 13,
        ensures
            r == cells.holds(),
    {
        CompressionGate::rotate_left_gate(cells)
    }

    /// The rotation gate for a shift of 14.
    pub fn rotate_left_14_gate(cells: &RotateLeftCells) -> (r: bool)
        requires
            cells.shift == 14,
        ensures
            r == cells.holds(),
    {
        CompressionGate::rotate_left_gate(cells)
    }

    /// The rotation gate for a shift of 15.
    pub fn rotate_left_15_gate(cells: &RotateLeftCells) -> (r: bool)
        requires
            cells.shift == 15,
        ensures
            r == cells.holds(),
    {
        CompressionGate::rotate_left_gate(cells)
    }
}

/// The arithmetic form of a rotation by 5..=15.
pub proof fn lemma_rol_arith(w: u32, s: u32)
    requires
        5 <= s <= 15,
    ensures
        rol_spec(w, s) as nat == (w as nat % pow2((32 - s) as nat)) * pow2(s as nat) + w as nat
            / pow2((32 - s) as nat),
{
    lemma2_to64();
    if s == 5 {
        assert(rol_spec(w, 5) == (w % 0x800_0000) * 0x20 + w / 0x800_0000) by (bit_vector);
    } else if s == 6 {
        assert(rol_spec(w, 6) == (w % 0x400_0000) * 0x40 + w / 0x400_0000) by (bit_vector);
    } else if s == 7 {
        assert(rol_spec(w, 7) == (w % 0x200_0000) * 0x80 + w / 0x200_0000) by (bit_vector);
    } else if s == 8 {
        assert(rol_spec(w, 8) == (w % 0x100_0000) * 0x100 + w / 0x100_0000) by (bit_vector);
    } else if s == 9 {
        assert(rol_spec(w, 9) == (w % 0x80_0000) * 0x200 + w / 0x80_0000) by (bit_vector);
    } else if s == 10 {
        assert(rol_spec(w, 10) == (w % 0x40_0000) * 0x400 + w / 0x40_0000) by (bit_vector);
    } else if s == 11 {
        assert(rol_spec(w, 11) == (w % 0x20_0000) * 0x800 + w / 0x20_0000) by (bit_vector);
    } else if s == 12 {
        assert(rol_spec(w, 12) == (w % 0x10_0000) * 0x1000 + w / 0x10_0000) by (bit_vector);
    } else if s == 13 {
        assert(rol_spec(w, 13) == (w % 0x8_0000) * 0x2000 + w / 0x8_0000) by (bit_vector);
    } else if s == 14 {
        assert(rol_spec(w, 14) == (w % 0x4_0000) * 0x4000 + w / 0x4_0000) by (bit_vector);
    } else {
        assert(rol_spec(w, 15) == (w % 0x2_0000) * 0x8000 + w / 0x2_0000) by (bit_vector);
    }
}

/// Rotating a word made of an s-bit chunk a, a (16 - s)-bit chunk b and a
/// 16-bit chunk c (from the top) moves a to the bottom.
pub proof fn lemma_rotate_chunks(w: int, s: u32, a: int, b: int, c: int)
    requires
        5 <= s <= 15,
        0 <= a < pow2(s as nat),
        0 <= b < pow2((16 - s) as nat),
        0 <= c < 65536,
        w == c + 65536 * b + a * pow2((32 - s) as nat),
    ensures
        0 <= w < 0x1_0000_0000,
        rol_spec(w as u32, s) == a + c * pow2(s as nat) + b * pow2((16 + s) as nat),
{
    let p = pow2((32 - s) as nat);
    lemma_pow2_adds(16, (16 - s) as nat);
    lemma_pow2_adds(16, s as nat);
    lemma_pow2_adds((32 - s) as nat, s as nat);
    lemma2_to64();
    let low = c + 65536 * b;
    assert(low < p) by (nonlinear_arith)
        requires
            p == 65536 * pow2((16 - s) as nat),
            0 <= b < pow2((16 - s) as nat),
            0 <= c < 65536,
            low == c + 65536 * b,
    ;
    assert(w < 0x1_0000_0000) by (nonlinear_arith)
        requires
            w == low + a * p,
            low < p,
            0 <= a < pow2(s as nat),
            p * pow2(s as nat) == 0x1_0000_0000,
    ;
    lemma_rol_arith(w as u32, s);
    vstd::arithmetic::div_mod::lemma_fundamental_div_mod_converse(w, p as int, a, low);
    assert(low * pow2(s as nat) == c * pow2(s as nat) + b * pow2((16 + s) as nat)) by (
    nonlinear_arith)
        requires
            low == c + 65536 * b,
            pow2((16 + s) as nat) == 65536 * pow2(s as nat),
    ;
}

/// A satisfied rotation gate whose looked-up chunks come from the spread
/// table outputs the word rotated left by its shift.
pub proof fn lemma_rotate_left_gate_sound(cells: RotateLeftCells)
    requires
        cells.holds(),
        cells.chunk < 65536,
        cells.tag_chunk == tag_of(cells.chunk as nat),
        cells.c < 65536,
    ensures
        dense_pair(cells.word_lo as int, cells.word_hi as int) < 0x1_0000_0000,
        dense_pair(cells.rol_word_lo as int, cells.rol_word_hi as int) == rol_spec(
            dense_pair(cells.word_lo as int, cells.word_hi as int) as u32,
            cells.shift,
        ),
{
    lemma_rotate_left_formula(cells);
}

/// When the chunks are in range and make up the word, the chunks in rotated
/// order make up the rotated word.
pub proof fn lemma_rotate_left_formula(cells: RotateLeftCells)
    requires
        cells.range_checks(),
        cells.word_check(),
        cells.chunk < 65536,
        cells.tag_chunk == tag_of(cells.chunk as nat),
        cells.c < 65536,
    ensures
        dense_pair(cells.word_lo as int, cells.word_hi as int) < 0x1_0000_0000,
        cells.rol_formula() == rol_spec(
            dense_pair(cells.word_lo as int, cells.word_hi as int) as u32,
            cells.shift,
        ),
{
    let s = cells.shift;
    let lw = cells.lo_bits();
    let hw = cells.hi_bits();
    let w = dense_pair(cells.word_lo as int, cells.word_hi as int);
    let tb = ROT_TAG_BOUND@[s - 5] as nat;
    lemma_tag_bound(cells.chunk as nat, tb);
    lemma2_to64();
    assert(lw + hw + (if s <= 8 {
        16 - s as int
    } else {
        s as int
    }) == 16);
    lemma_pow2_adds(lw, hw);
    if s <= 8 {
        assert(tag_bits(tb) == 16 - s);
        let a = cells.split_lo + cells.split_hi * pow2(lw);
        lemma_pow2_adds((32 - s) as nat, lw);
        assert(a < pow2(s as nat)) by (nonlinear_arith)
            requires
                a == cells.split_lo + cells.split_hi * pow2(lw),
                cells.split_lo < pow2(lw),
                cells.split_hi < pow2(hw),
                pow2(s as nat) == pow2(lw) * pow2(hw),
        ;
        assert(cells.split_lo * pow2((32 - s) as nat) + cells.split_hi * pow2((32 - s + lw) as nat)
            == a * pow2((32 - s) as nat)) by (nonlinear_arith)
            requires
                a == cells.split_lo + cells.split_hi * pow2(lw),
                pow2((32 - s + lw) as nat) == pow2((32 - s) as nat) * pow2(lw),
        ;
        lemma_rotate_chunks(w, s, a, cells.chunk as int, cells.c as int);
    } else {
        assert(tag_bits(tb) == s);
        let b = cells.split_lo + cells.split_hi * pow2(lw);
        lemma_pow2_adds(16, lw);
        lemma_pow2_adds((16 + s) as nat, lw);
        assert(b < pow2((16 - s) as nat)) by (nonlinear_arith)
            requires
                b == cells.split_lo + cells.split_hi * pow2(lw),
                cells.split_lo < pow2(lw),
                cells.split_hi < pow2(hw),
                pow2((16 - s) as nat) == pow2(lw) * pow2(hw),
        ;
        assert(cells.split_lo * pow2(16) + cells.split_hi * pow2(16 + lw) == 65536 * b) by (
        nonlinear_arith)
            requires
                b == cells.split_lo + cells.split_hi * pow2(lw),
                pow2(16 + lw) == pow2(16) * pow2(lw),
                pow2(16) == 65536,
        ;
        assert(cells.split_lo * pow2((16 + s) as nat) + cells.split_hi * pow2(
            (16 + s + lw) as nat,
        ) == b * pow2((16 + s) as nat)) by (nonlinear_arith)
            requires
                b == cells.split_lo + cells.split_hi * pow2(lw),
                pow2((16 + s + lw) as nat) == pow2((16 + s) as nat) * pow2(lw),
        ;
        lemma_rotate_chunks(w, s, cells.chunk as int, b, cells.c as int);
    }
}

// ---------------------------------------------------------------------------
// Additions modulo 2^32
// ---------------------------------------------------------------------------
/// The sum gates: the operands' low halves and high halves add up to
/// carry * 2^32 + sum, with the carry range-checked to 0..=max_carry.
pub open spec fn sum_gate_holds(
    lo_total: int,
    hi_total: int,
    sum_lo: int,
    sum_hi: int,
    carry: int,
    max_carry: int,
) -> bool {
    &&& 0 <= carry <= max_carry
    &&& dense_pair(lo_total, hi_total) - carry * 0x1_0000_0000 == dense_pair(sum_lo, sum_hi)
}

fn sum_gate_exec(
    lo_total: u128,
    hi_total: u128,
    sum_lo: u64,
    sum_hi: u64,
    carry: u64,
    max_carry: u64,
) -> (r: bool)
    requires
        lo_total <= 0x4_0000_0000_0000_0000,
        hi_total <= 0x4_0000_0000_0000_0000,
    ensures
        r == sum_gate_holds(
            lo_total as int,
            hi_total as int,
            sum_lo as int,
            sum_hi as int,
            carry as int,
            max_carry as int,
        ),
{
    let total = dense_pair_exec(lo_total, hi_total);
    let mod_sum = dense_pair_exec(sum_lo as u128, sum_hi as u128);
    carry <= max_carry && total == spread_pair_exec(0, carry) + mod_sum
}

impl CompressionGate {
    /// A + f + X + K: four operands, carry 0..=3.
    pub fn sum_afxk_gate(
        sum_lo: u64,
        sum_hi: u64,
        carry: u64,
        a_lo: u64,
        a_hi: u64,
        f_lo: u64,
        f_hi: u64,
        x_lo: u64,
        x_hi: u64,
        k_lo: u64,
        k_hi: u64,
    ) -> (r: bool)
        ensures
            r == sum_gate_holds(
                a_lo + f_lo + x_lo + k_lo,
                a_hi + f_hi + x_hi + k_hi,
                sum_lo as int,
                sum_hi as int,
                carry as int,
                3,
            ),
    {
        sum_gate_exec(
            a_lo as u128 + f_lo as u128 + x_lo as u128 + k_lo as u128,
            a_hi as u128 + f_hi as u128 + x_hi as u128 + k_hi as u128,
            sum_lo,
            sum_hi,
            carry,
            3,
        )
    }

    /// rol + E: two operands, carry 0..=1.
    pub fn sum_re_gate(
        sum_lo: u64,
        sum_hi: u64,
        carry: u64,
        rol_lo: u64,
        rol_hi: u64,
        e_lo: u64,
        e_hi: u64,
    ) -> (r: bool)
        ensures
            r == sum_gate_holds(
                rol_lo + e_lo,
                rol_hi + e_hi,
                sum_lo as int,
                sum_hi as int,
                carry as int,
                1,
            ),
    {
        sum_gate_exec(
            rol_lo as u128 + e_lo as u128,
            rol_hi as u128 + e_hi as u128,
            sum_lo,
            sum_hi,
            carry,
            1,
        )
    }

    /// initial + left + right: three operands, carry 0..=2.
    pub fn sum_combine_ilr(
        sum_lo: u64,
        sum_hi: u64,
        carry: u64,
        init_state_lo: u64,
        init_state_hi: u64,
        left_state_lo: u64,
        left_state_hi: u64,
        right_state_lo: u64,
        right_state_hi: u64,
    ) -> (r: bool)
        ensures
            r == sum_gate_holds(
                init_state_lo + left_state_lo + right_state_lo,
                init_state_hi + left_state_hi + right_state_hi,
                sum_lo as int,
                sum_hi as int,
                carry as int,
                2,
            ),
    {
        sum_gate_exec(
            init_state_lo as u128 + left_state_lo as u128 + right_state_lo as u128,
            init_state_hi as u128 + left_state_hi as u128 + right_state_hi as u128,
            sum_lo,
            sum_hi,
            carry,
            2,
        )
    }

    /// lo + 2^16 * hi == word.
    pub fn s_decompose_word(lo: u64, hi: u64, word: u64) -> (r: bool)
        ensures
            r == (dense_pair(lo as int, hi as int) == word),
    {
        dense_pair_exec(lo as u128, hi as u128) == word as u128
    }
}

/// A satisfied sum gate whose output halves are 16-bit (they are looked up)
/// holds the total modulo 2^32, and its carry is the number of wraps.
pub proof fn lemma_sum_gate_sound(
    lo_total: int,
    hi_total: int,
    sum_lo: int,
    sum_hi: int,
    carry: int,
    max_carry: int,
)
    requires
        sum_gate_holds(lo_total, hi_total, sum_lo, sum_hi, carry, max_carry),
        0 <= sum_lo < 65536,
        0 <= sum_hi < 65536,
    ensures
        dense_pair(sum_lo, sum_hi) == dense_pair(lo_total, hi_total) % 0x1_0000_0000,
        carry == dense_pair(lo_total, hi_total) / 0x1_0000_0000,
{
    vstd::arithmetic::div_mod::lemma_fundamental_div_mod_converse(
        dense_pair(lo_total, hi_total),
        0x1_0000_0000,
        carry,
        dense_pair(sum_lo, sum_hi),
    );
}

} // verus!
