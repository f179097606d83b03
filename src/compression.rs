//! Witness generation for the compression function: the values placed in
//! the cells of every gate, round by round, with proofs that each gate is
//! satisfied, that each looked-up triple is a row of the spread table, and
//! that the words carried from round to round are those of RIPEMD-160.
use vstd::prelude::*;

use crate::constants::{
    BLOCK_SIZE, DIGEST_SIZE, INITIAL_VALUES, MSG_SEL_IDX_LEFT, MSG_SEL_IDX_RIGHT, ROL_AMOUNT_LEFT,
    ROL_AMOUNT_RIGHT, ROUNDS, ROUND_CONSTANTS_LEFT, ROUND_CONSTANTS_RIGHT, ROUND_PHASE_SIZE,
    lemma_round_tables_in_range,
};
use crate::gates::{
    F1Cells, F2Cells, F3Cells, ROT_SPLIT_HI_BITS, ROT_SPLIT_LO_BITS, ROT_TAG_BOUND,
    RotateLeftCells, dense_pair, lemma_f1_gate_sound, lemma_f3_gate_sound, lemma_neg_check,
    lemma_rotate_left_formula, lemma_rotate_left_gate_sound, lemma_round_function_bits,
    lemma_split_spread_sum, lemma_sum_gate_sound, lemma_word_spread, pow2_exec, spread_pair,
    sum_gate_holds, word_of,
};
use crate::native::{
    RoundFunction, State as NativeState, add32, combine_spec, compress_spec, f1_spec, f2_spec,
    f3_spec, f4_spec, f5_spec, initial_state, left_rounds, left_step_spec, right_rounds,
    right_step_spec, rol, rol_spec,
};
use crate::spread_table::{SpreadWord, lemma_tag_bound, tag_of};
use crate::util::{
    even_bits, halves_total, lemma_even_odd_parts, lemma_halves_total_push,
    lemma_interleave_bound, lemma_spread_add, lemma_spread_complement, lemma_spread_halves,
    negate_spread, odd_bits, spread, sum_with_carry,
};
use vstd::arithmetic::div_mod::{
    lemma_div_denominator, lemma_fundamental_div_mod, lemma_multiply_divide_lt,
};
use vstd::arithmetic::power2::{
    lemma2_to64, lemma2_to64_rest, lemma_pow2_adds, lemma_pow2_pos, pow2,
};

verus! {

/// A 32-bit word as its two dense 16-bit halves (low, high).
#[derive(Clone, Copy, Debug, PartialEq, Eq, Structural)]
pub struct RoundWordDense(pub u16, pub u16);

/// The spreads of the two halves of a 32-bit word (low, high).
#[derive(Clone, Copy, Debug, PartialEq, Eq, Structural)]
pub struct RoundWordSpread(pub u32, pub u32);

/// A word in both forms: needed where it enters both a sum and a round
/// function.
#[derive(Clone, Copy, Debug, PartialEq, Eq, Structural)]
pub struct RoundWord {
    pub dense_halves: RoundWordDense,
    pub spread_halves: RoundWordSpread,
}

impl RoundWordDense {
    pub open spec fn spec_value(self) -> u32 {
        word_of(self.0, self.1)
    }

    pub open spec fn of(w: u32) -> RoundWordDense {
        RoundWordDense((w % 65536) as u16, (w / 65536) as u16)
    }

    pub fn value(&self) -> (r: u32)
        ensures
            r == self.spec_value(),
    {
        self.0 as u32 + 65536 * (self.1 as u32)
    }

    /// The halves of a word.
    pub fn from_word(w: u32) -> (r: RoundWordDense)
        ensures
            r == RoundWordDense::of(w),
            r.spec_value() == w,
    {
        RoundWordDense((w % 65536) as u16, (w / 65536) as u16)
    }
}

impl RoundWordSpread {
    pub open spec fn spec_value(self) -> int {
        spread_pair(self.0 as int, self.1 as int)
    }

    pub fn value(&self) -> (r: u64)
        ensures
            r == self.spec_value(),
    {
        self.0 as u64 + 0x1_0000_0000 * (self.1 as u64)
    }
}

impl RoundWord {
    /// The spread halves are the spreads of the dense halves.
    pub open spec fn wf(self) -> bool {
        &&& self.spread_halves.0 == spread(self.dense_halves.0 as nat)
        &&& self.spread_halves.1 == spread(self.dense_halves.1 as nat)
    }

    pub open spec fn spec_value(self) -> u32 {
        self.dense_halves.spec_value()
    }

    pub fn new(dense_halves: RoundWordDense, spread_halves: RoundWordSpread) -> (r: RoundWord)
        ensures
            r.dense_halves == dense_halves,
            r.spread_halves == spread_halves,
    {
        RoundWord { dense_halves, spread_halves }
    }

    /// The word built from two looked-up rows.
    pub fn from_rows(lo: SpreadWord, hi: SpreadWord) -> (r: RoundWord)
        requires
            lo.is_row(),
            hi.is_row(),
        ensures
            r.wf(),
            r.dense_halves == RoundWordDense(lo.dense, hi.dense),
    {
        RoundWord {
            dense_halves: RoundWordDense(lo.dense, hi.dense),
            spread_halves: RoundWordSpread(lo.spread, hi.spread),
        }
    }
}

/// The halves of a well-formed word are the halves of its value.
proof fn lemma_round_word_halves(w: RoundWord)
    ensures
        w.dense_halves == RoundWordDense::of(w.spec_value()),
{
}

/// The looked-up even and odd halves of a 64-bit spread sum.
#[derive(Clone, Copy, Debug)]
pub struct SpreadOutputs {
    pub r0_even: SpreadWord,
    pub r0_odd: SpreadWord,
    pub r1_even: SpreadWord,
    pub r1_odd: SpreadWord,
}

impl SpreadOutputs {
    pub open spec fn rows_ok(self) -> bool {
        &&& self.r0_even.is_row()
        &&& self.r0_odd.is_row()
        &&& self.r1_even.is_row()
        &&& self.r1_odd.is_row()
    }

    /// The even halves as a word.
    pub open spec fn even(self) -> u32 {
        word_of(self.r0_even.dense, self.r1_even.dense)
    }

    /// The odd halves as a word.
    pub open spec fn odd(self) -> u32 {
        word_of(self.r0_odd.dense, self.r1_odd.dense)
    }
}

/// Splits a spread sum into its even and odd bits, each in two looked-up
/// 16-bit halves.
pub fn assign_spread_outputs(m: u64) -> (r: SpreadOutputs)
    ensures
        r.rows_ok(),
        m == spread_pair(r.r0_even.spread as int, r.r1_even.spread as int) + 2 * spread_pair(
            r.r0_odd.spread as int,
            r.r1_odd.spread as int,
        ),
        m == spread(r.even() as nat) + 2 * spread(r.odd() as nat),
{
    let r_0: u32 = (m % 0x1_0000_0000) as u32;
    let r_1: u32 = (m / 0x1_0000_0000) as u32;
    let r = SpreadOutputs {
        r0_even: SpreadWord::new(even_bits(r_0)),
        r0_odd: SpreadWord::new(odd_bits(r_0)),
        r1_even: SpreadWord::new(even_bits(r_1)),
        r1_odd: SpreadWord::new(odd_bits(r_1)),
    };
    proof {
        lemma_even_odd_parts(r_0 as nat);
        lemma_even_odd_parts(r_1 as nat);
        lemma_spread_halves(r.r0_even.dense as nat, r.r1_even.dense as nat);
        lemma_spread_halves(r.r0_odd.dense as nat, r.r1_odd.dense as nat);
    }
    r
}

/// spread(x) + spread(y) for two words given by their spread halves.
fn spread_sum2(x: RoundWordSpread, y: RoundWordSpread, xw: Ghost<u32>, yw: Ghost<u32>) -> (r: u64)
    requires
        x.spec_value() == spread(xw@ as nat),
        y.spec_value() == spread(yw@ as nat),
    ensures
        r == x.spec_value() + y.spec_value(),
{
    proof {
        lemma_spread_add(xw@, yw@);
        lemma2_to64();
        lemma2_to64_rest();
        lemma_interleave_bound((xw@ ^ yw@) as nat, (xw@ & yw@) as nat, 32);
    }
    x.value() + y.value()
}

/// spread(x) + spread(y) + spread(z) for three words given by their spread
/// halves.
fn spread_sum3(
    x: RoundWordSpread,
    y: RoundWordSpread,
    z: RoundWordSpread,
    xw: Ghost<u32>,
    yw: Ghost<u32>,
    zw: Ghost<u32>,
) -> (r: u64)
    requires
        x.spec_value() == spread(xw@ as nat),
        y.spec_value() == spread(yw@ as nat),
        z.spec_value() == spread(zw@ as nat),
    ensures
        r == x.spec_value() + y.spec_value() + z.spec_value(),
{
    proof {
        crate::gates::lemma_spread_add3(xw@, yw@, zw@);
        lemma2_to64();
        lemma2_to64_rest();
        lemma_interleave_bound(
            (xw@ ^ yw@ ^ zw@) as nat,
            ((xw@ & yw@) ^ ((xw@ ^ yw@) & zw@)) as nat,
            32,
        );
    }
    x.value() + y.value() + z.value()
}

/// The spread form of a word, in halves, is the spread of the word.
proof fn lemma_round_word_spread(w: RoundWord)
    requires
        w.wf(),
    ensures
        w.spread_halves.spec_value() == spread(w.spec_value() as nat),
{
    lemma_spread_halves(w.dense_halves.0 as nat, w.dense_halves.1 as nat);
}

/// f1(B, C, D) = B ^ C ^ D.
pub fn assign_f1(b: RoundWord, c: RoundWord, d: RoundWord) -> (r: (F1Cells, SpreadOutputs))
    requires
        b.wf(),
        c.wf(),
        d.wf(),
    ensures
        r.0.holds(),
        r.0.inputs_are(b.spec_value(), c.spec_value(), d.spec_value()),
        r.0.outputs_are(r.1.r0_even.dense, r.1.r0_odd.dense, r.1.r1_even.dense, r.1.r1_odd.dense),
        r.1.rows_ok(),
        r.1.even() == f1_spec(b.spec_value(), c.spec_value(), d.spec_value()),
{
    let ghost (bw, cw, dw) = (b.spec_value(), c.spec_value(), d.spec_value());
    proof {
        lemma_round_word_spread(b);
        lemma_round_word_spread(c);
        lemma_round_word_spread(d);
    }
    let m = spread_sum3(
        b.spread_halves,
        c.spread_halves,
        d.spread_halves,
        Ghost(bw),
        Ghost(cw),
        Ghost(dw),
    );
    let out = assign_spread_outputs(m);
    let cells = F1Cells {
        spread_r0_even: out.r0_even.spread as u64,
        spread_r0_odd: out.r0_odd.spread as u64,
        spread_r1_even: out.r1_even.spread as u64,
        spread_r1_odd: out.r1_odd.spread as u64,
        spread_b_lo: b.spread_halves.0 as u64,
        spread_b_hi: b.spread_halves.1 as u64,
        spread_c_lo: c.spread_halves.0 as u64,
        spread_c_hi: c.spread_halves.1 as u64,
        spread_d_lo: d.spread_halves.0 as u64,
        spread_d_hi: d.spread_halves.1 as u64,
    };
    proof {
        lemma_round_word_halves(b);
        lemma_round_word_halves(c);
        lemma_round_word_halves(d);
        lemma_f1_gate_sound(
            cells,
            bw,
            cw,
            dw,
            out.r0_even.dense,
            out.r0_odd.dense,
            out.r1_even.dense,
            out.r1_odd.dense,
        );
    }
    (cells, out)
}

/// Spread halves of the complement of a word, from its spread halves.
fn assign_negated(x: RoundWord) -> (r: RoundWordSpread)
    requires
        x.wf(),
    ensures
        r.0 + x.spread_halves.0 == crate::util::MASK_EVEN_32,
        r.1 + x.spread_halves.1 == crate::util::MASK_EVEN_32,
        r.spec_value() == spread((!x.spec_value()) as nat),
{
    proof {
        lemma_spread_complement(x.dense_halves.0 as nat);
        lemma_spread_complement(x.dense_halves.1 as nat);
    }
    let r = RoundWordSpread(negate_spread(x.spread_halves.0), negate_spread(x.spread_halves.1));
    proof {
        lemma_round_word_halves(x);
        lemma_neg_check(x.spec_value(), r.0 as int, r.1 as int);
    }
    r
}

/// (X & Y) | (!X & Z): one constraint set serves f2 and f4.
pub fn assign_f2(x: RoundWord, y: RoundWord, z: RoundWord) -> (r: (
    F2Cells,
    SpreadOutputs,
    SpreadOutputs,
))
    requires
        x.wf(),
        y.wf(),
        z.wf(),
    ensures
        r.0.holds(),
        r.0.inputs_are(x.spec_value(), y.spec_value(), z.spec_value()),
        r.0.outputs_are(
            r.1.r0_even.dense,
            r.1.r0_odd.dense,
            r.1.r1_even.dense,
            r.1.r1_odd.dense,
            r.2.r0_even.dense,
            r.2.r0_odd.dense,
            r.2.r1_even.dense,
            r.2.r1_odd.dense,
        ),
        r.1.rows_ok(),
        r.2.rows_ok(),
        r.0.sum_lo < 65536,
        r.0.sum_hi < 65536,
        dense_pair(r.0.sum_lo as int, r.0.sum_hi as int) == f2_spec(
            x.spec_value(),
            y.spec_value(),
            z.spec_value(),
        ),
{
    let ghost (xw, yw, zw) = (x.spec_value(), y.spec_value(), z.spec_value());
    proof {
        lemma_round_word_spread(x);
        lemma_round_word_spread(y);
        lemma_round_word_spread(z);
    }
    let p_m = spread_sum2(x.spread_halves, y.spread_halves, Ghost(xw), Ghost(yw));
    let p = assign_spread_outputs(p_m);
    let neg_x = assign_negated(x);
    let q_m = spread_sum2(neg_x, z.spread_halves, Ghost(!xw), Ghost(zw));
    let q = assign_spread_outputs(q_m);
    proof {
        lemma_split_spread_sum(p.even(), p.odd(), xw, yw);
        lemma_split_spread_sum(q.even(), q.odd(), !xw, zw);
        lemma_round_function_bits(xw, yw, zw);
    }
    let mut words: Vec<(u16, u16)> = Vec::new();
    words.push((p.r0_odd.dense, p.r1_odd.dense));
    proof {
        lemma_halves_total_push(Seq::empty(), (p.r0_odd.dense, p.r1_odd.dense));
        assert(Seq::<(u16, u16)>::empty().push((p.r0_odd.dense, p.r1_odd.dense)) =~= words@);
    }
    let ghost w1 = words@;
    words.push((q.r0_odd.dense, q.r1_odd.dense));
    proof {
        lemma_halves_total_push(w1, (q.r0_odd.dense, q.r1_odd.dense));
    }
    let (sum, carry) = sum_with_carry(&words);
    let cells = F2Cells {
        spread_p0_even: p.r0_even.spread as u64,
        spread_p0_odd: p.r0_odd.spread as u64,
        spread_p1_even: p.r1_even.spread as u64,
        spread_p1_odd: p.r1_odd.spread as u64,
        p0_odd: p.r0_odd.dense as u64,
        p1_odd: p.r1_odd.dense as u64,
        spread_q0_even: q.r0_even.spread as u64,
        spread_q0_odd: q.r0_odd.spread as u64,
        spread_q1_even: q.r1_even.spread as u64,
        spread_q1_odd: q.r1_odd.spread as u64,
        q0_odd: q.r0_odd.dense as u64,
        q1_odd: q.r1_odd.dense as u64,
        spread_x_lo: x.spread_halves.0 as u64,
        spread_x_hi: x.spread_halves.1 as u64,
        spread_y_lo: y.spread_halves.0 as u64,
        spread_y_hi: y.spread_halves.1 as u64,
        spread_z_lo: z.spread_halves.0 as u64,
        spread_z_hi: z.spread_halves.1 as u64,
        spread_neg_x_lo: neg_x.0 as u64,
        spread_neg_x_hi: neg_x.1 as u64,
        sum_lo: (sum % 65536) as u64,
        sum_hi: (sum / 65536) as u64,
        carry,
    };
    proof {
        lemma_round_word_halves(x);
        lemma_round_word_halves(y);
        lemma_round_word_halves(z);
    }
    (cells, p, q)
}

/// f4(X, Y, Z) = (X & Z) | (Y & !Z), computed by the f2 gate on (Z, X, Y).
pub fn assign_f4(x: RoundWord, y: RoundWord, z: RoundWord) -> (r: (
    F2Cells,
    SpreadOutputs,
    SpreadOutputs,
))
    requires
        x.wf(),
        y.wf(),
        z.wf(),
    ensures
        r.0.holds(),
        r.0.inputs_are(z.spec_value(), x.spec_value(), y.spec_value()),
        r.1.rows_ok(),
        r.2.rows_ok(),
        r.0.sum_lo < 65536,
        r.0.sum_hi < 65536,
        dense_pair(r.0.sum_lo as int, r.0.sum_hi as int) == f4_spec(
            x.spec_value(),
            y.spec_value(),
            z.spec_value(),
        ),
{
    proof {
        lemma_round_function_bits(x.spec_value(), y.spec_value(), z.spec_value());
    }
    assign_f2(z, x, y)
}

/// (X | !Y) ^ Z: one constraint set serves f3 and f5.
pub fn assign_f3(x: RoundWord, y: RoundWord, z: RoundWord) -> (r: (
    F3Cells,
    SpreadOutputs,
    SpreadWord,
    SpreadWord,
    SpreadOutputs,
))
    requires
        x.wf(),
        y.wf(),
        z.wf(),
    ensures
        r.0.holds(),
        r.0.inputs_are(x.spec_value(), y.spec_value(), z.spec_value()),
        r.0.outputs_are(
            r.1.r0_even.dense,
            r.1.r0_odd.dense,
            r.1.r1_even.dense,
            r.1.r1_odd.dense,
            r.2.dense,
            r.3.dense,
            r.4.r0_even.dense,
            r.4.r0_odd.dense,
            r.4.r1_even.dense,
            r.4.r1_odd.dense,
        ),
        r.1.rows_ok(),
        r.2.is_row(),
        r.3.is_row(),
        r.4.rows_ok(),
        r.4.even() == f3_spec(x.spec_value(), y.spec_value(), z.spec_value()),
{
    let ghost (xw, yw, zw) = (x.spec_value(), y.spec_value(), z.spec_value());
    proof {
        lemma_round_word_spread(x);
        lemma_round_word_spread(y);
        lemma_round_word_spread(z);
    }
    let neg_y = assign_negated(y);
    let sum_m = spread_sum2(x.spread_halves, neg_y, Ghost(xw), Ghost(!yw));
    let sum = assign_spread_outputs(sum_m);
    let or_word: u32 = x.dense_halves.0 as u32 + 65536 * (x.dense_halves.1 as u32) | !(
    y.dense_halves.0 as u32 + 65536 * (y.dense_halves.1 as u32));
    let or_lo = SpreadWord::new((or_word % 65536) as u16);
    let or_hi = SpreadWord::new((or_word / 65536) as u16);
    let or_spread = RoundWordSpread(or_lo.spread, or_hi.spread);
    proof {
        lemma_word_spread(or_word);
    }
    let xor_m = spread_sum2(or_spread, z.spread_halves, Ghost(or_word), Ghost(zw));
    let res = assign_spread_outputs(xor_m);
    let cells = F3Cells {
        spread_r0_even: res.r0_even.spread as u64,
        spread_r0_odd: res.r0_odd.spread as u64,
        spread_r1_even: res.r1_even.spread as u64,
        spread_r1_odd: res.r1_odd.spread as u64,
        spread_or_lo: or_lo.spread as u64,
        spread_or_hi: or_hi.spread as u64,
        spread_sum0_even: sum.r0_even.spread as u64,
        spread_sum0_odd: sum.r0_odd.spread as u64,
        spread_sum1_even: sum.r1_even.spread as u64,
        spread_sum1_odd: sum.r1_odd.spread as u64,
        spread_x_lo: x.spread_halves.0 as u64,
        spread_x_hi: x.spread_halves.1 as u64,
        spread_y_lo: y.spread_halves.0 as u64,
        spread_y_hi: y.spread_halves.1 as u64,
        spread_y_neg_lo: neg_y.0 as u64,
        spread_y_neg_hi: neg_y.1 as u64,
        spread_z_lo: z.spread_halves.0 as u64,
        spread_z_hi: z.spread_halves.1 as u64,
    };
    proof {
        lemma_round_word_halves(x);
        lemma_round_word_halves(y);
        lemma_round_word_halves(z);
        lemma_split_spread_sum(sum.even(), sum.odd(), xw, !yw);
        lemma_round_function_bits(xw, yw, zw);
        lemma_spread_add(sum.even(), sum.odd());
        assert(spread(0) == 0);
        lemma_spread_halves(sum.r0_even.dense as nat, sum.r1_even.dense as nat);
        lemma_spread_halves(sum.r0_odd.dense as nat, sum.r1_odd.dense as nat);
        lemma_f3_gate_sound(
            cells,
            xw,
            yw,
            zw,
            sum.r0_even.dense,
            sum.r0_odd.dense,
            sum.r1_even.dense,
            sum.r1_odd.dense,
            or_lo.dense,
            or_hi.dense,
            res.r0_even.dense,
            res.r0_odd.dense,
            res.r1_even.dense,
            res.r1_odd.dense,
        );
    }
    (cells, sum, or_lo, or_hi, res)
}

/// f5(X, Y, Z) = X ^ (Y | !Z), computed by the f3 gate on (Y, Z, X).
pub fn assign_f5(x: RoundWord, y: RoundWord, z: RoundWord) -> (r: (
    F3Cells,
    SpreadOutputs,
    SpreadWord,
    SpreadWord,
    SpreadOutputs,
))
    requires
        x.wf(),
        y.wf(),
        z.wf(),
    ensures
        r.0.holds(),
        r.0.inputs_are(y.spec_value(), z.spec_value(), x.spec_value()),
        r.1.rows_ok(),
        r.2.is_row(),
        r.3.is_row(),
        r.4.rows_ok(),
        r.4.even() == f5_spec(x.spec_value(), y.spec_value(), z.spec_value()),
{
    proof {
        lemma_round_function_bits(x.spec_value(), y.spec_value(), z.spec_value());
    }
    assign_f3(y, z, x)
}

/// Cuts the high half of a word into the chunks of the rotation gate for
/// `shift`, looks up the chunk that the table range-checks and the low half,
/// and computes the rotated word.
pub fn assign_rotate_left(word: RoundWordDense, shift: u32) -> (r: (
    RotateLeftCells,
    SpreadWord,
    SpreadWord,
    RoundWordDense,
))
    requires
        5 <= shift <= 15,
    ensures
        r.0.holds(),
        r.0.shift == shift,
        r.0.word_lo == word.0,
        r.0.word_hi == word.1,
        r.1.is_row(),
        r.1.dense == r.0.chunk,
        r.1.tag == r.0.tag_chunk,
        r.2.is_row(),
        r.2.dense == r.0.c,
        r.0.rol_word_lo == r.3.0,
        r.0.rol_word_hi == r.3.1,
        r.3.spec_value() == rol_spec(word.spec_value(), shift),
{
    let idx = (shift - 5) as usize;
    let lw = ROT_SPLIT_LO_BITS[idx];
    let hw = ROT_SPLIT_HI_BITS[idx];
    let hi = word.1 as u64;
    let (split_lo, split_hi, chunk) = if shift <= 8 {
        let pb = pow2_exec(16 - shift);
        let rest = hi / pb;
        (rest % pow2_exec(lw), rest / pow2_exec(lw), hi % pb)
    } else {
        let rest = hi / pow2_exec(lw);
        (hi % pow2_exec(lw), rest % pow2_exec(hw), hi / pow2_exec(16 - shift))
    };
    proof {
        lemma2_to64();
        lemma_rotate_split(hi as nat, shift);
    }
    let chunk_row = SpreadWord::new(chunk as u16);
    let c_row = SpreadWord::new(word.0);
    let rol_value = rol(word.value(), shift as u8);
    let out = RoundWordDense::from_word(rol_value);
    let cells = RotateLeftCells {
        shift,
        split_lo,
        split_hi,
        chunk,
        tag_chunk: chunk_row.tag as u64,
        c: word.0 as u64,
        word_lo: word.0 as u64,
        word_hi: word.1 as u64,
        rol_word_lo: out.0 as u64,
        rol_word_hi: out.1 as u64,
    };
    proof {
        let sb = (16 - shift) as nat;
        let pb = pow2(sb);
        let q = pow2(lw as nat);
        let s32 = (32 - shift) as nat;
        lemma_tag_bound(chunk as nat, ROT_TAG_BOUND@[shift - 5] as nat);
        lemma_pow2_adds(16, sb);
        lemma_pow2_adds(16, lw as nat);
        assert(16 + sb == s32);
        if shift <= 8 {
            lemma_pow2_adds(s32, lw as nat);
            assert(chunk * 65536 + split_lo * pow2(s32) + split_hi * pow2(s32 + lw as nat) == 65536
                * hi) by (nonlinear_arith)
                requires
                    hi == chunk + pb * (split_lo + q * split_hi),
                    pow2(s32) == 65536 * pb,
                    pow2(s32 + lw as nat) == pow2(s32) * q,
            ;
        } else {
            lemma_pow2_adds(lw as nat, hw as nat);
            assert(lw + hw == sb);
            assert(split_lo * 65536 + split_hi * pow2(16 + lw as nat) + chunk * pow2(s32) == 65536
                * hi) by (nonlinear_arith)
                requires
                    hi == split_lo + q * split_hi + pb * chunk,
                    pow2(s32) == 65536 * pb,
                    pow2(16 + lw as nat) == 65536 * q,
            ;
        }
        lemma_rotate_left_formula(cells);
    }
    (cells, chunk_row, c_row, out)
}

/// Cutting a number below p * q * h into three chunks, in either order.
proof fn lemma_three_chunks(hi: int, p: int, q: int, h: int)
    requires
        p > 0,
        q > 0,
        h > 0,
        0 <= hi < p * q * h,
    ensures
        hi == hi % p + p * ((hi / p) % q + q * ((hi / p) / q)),
        (hi / p) / q < h,
        hi == hi % q + q * ((hi / q) % h) + (q * h) * (hi / (q * h)),
        hi / (q * h) < p,
{
    lemma_fundamental_div_mod(hi, p);
    lemma_fundamental_div_mod(hi / p, q);
    assert((hi / p) % q + q * ((hi / p) / q) == hi / p);
    lemma_div_denominator(hi, p, q);
    lemma_multiply_divide_lt(hi, p * q, h);
    lemma_fundamental_div_mod(hi, q);
    lemma_fundamental_div_mod(hi / q, h);
    lemma_div_denominator(hi, q, h);
    let a = hi / q;
    let b = (hi / q) / h;
    assert(hi == hi % q + q * (a % h) + (q * h) * b) by (nonlinear_arith)
        requires
            hi == q * a + hi % q,
            a == h * b + a % h,
    ;
    assert(hi < (q * h) * p) by (nonlinear_arith)
        requires
            hi < p * q * h,
    ;
    lemma_multiply_divide_lt(hi, q * h, p);
}

/// The chunks that `assign_rotate_left` cuts from a 16-bit high half are in
/// range and put back together give the half.
proof fn lemma_rotate_split(hi: nat, shift: u32)
    requires
        hi < 65536,
        5 <= shift <= 15,
    ensures
        ({
            let lw = ROT_SPLIT_LO_BITS@[shift - 5] as nat;
            let hw = ROT_SPLIT_HI_BITS@[shift - 5] as nat;
            let pb = pow2((16 - shift) as nat);
            let tb = ROT_TAG_BOUND@[shift - 5] as nat;
            if shift <= 8 {
                let rest = hi / pb;
                &&& (rest / pow2(lw)) < pow2(hw)
                &&& hi == hi % pb + pb * (rest % pow2(lw) + pow2(lw) * (rest / pow2(lw)))
                &&& hi % pb < pow2(8 + tb)
            } else {
                let rest = hi / pow2(lw);
                &&& hi == hi % pow2(lw) + pow2(lw) * (rest % pow2(hw)) + pow2(lw + hw) * (hi / pb)
                &&& hi / pb < pow2(8 + tb)
            }
        }),
{
    let lw = ROT_SPLIT_LO_BITS@[shift - 5] as nat;
    let hw = ROT_SPLIT_HI_BITS@[shift - 5] as nat;
    let sb = (16 - shift) as nat;
    lemma2_to64();
    lemma_pow2_pos(lw);
    lemma_pow2_pos(hw);
    lemma_pow2_pos(sb);
    lemma_pow2_pos(shift as nat);
    lemma_pow2_adds(lw, hw);
    if shift <= 8 {
        assert(sb + (lw + hw) == 16);
        lemma_pow2_adds(sb, lw + hw);
        assert(hi < pow2(sb) * pow2(lw) * pow2(hw)) by (nonlinear_arith)
            requires
                pow2(sb + (lw + hw)) == pow2(sb) * pow2(lw + hw),
                pow2(lw + hw) == pow2(lw) * pow2(hw),
                pow2(sb + (lw + hw)) == 65536,
                hi < 65536,
        ;
        lemma_three_chunks(hi as int, pow2(sb) as int, pow2(lw) as int, pow2(hw) as int);
    } else {
        assert(lw + hw == sb);
        lemma_pow2_adds(sb, shift as nat);
        assert(sb + shift as nat == 16);
        assert(hi < pow2(shift as nat) * pow2(lw) * pow2(hw)) by (nonlinear_arith)
            requires
                pow2(sb) == pow2(lw) * pow2(hw),
                pow2(sb) * pow2(shift as nat) == 65536,
                hi < 65536,
        ;
        lemma_three_chunks(
            hi as int,
            pow2(shift as nat) as int,
            pow2(lw) as int,
            pow2(hw) as int,
        );
    }
}

/// The halves and the 16-bit rows of the sum of a list of words, modulo 2^32.
fn assign_sum_words(words: &Vec<(u16, u16)>) -> (r: (u64, SpreadWord, SpreadWord))
    requires
        words@.len() < 65536,
    ensures
        r.0 == halves_total(words@) / 0x1_0000_0000,
        r.1.is_row(),
        r.2.is_row(),
        dense_pair(r.1.dense as int, r.2.dense as int) == halves_total(words@) % 0x1_0000_0000,
{
    let (sum, carry) = sum_with_carry(words);
    let lo = SpreadWord::new((sum % 65536) as u16);
    let hi = SpreadWord::new((sum / 65536) as u16);
    (carry, lo, hi)
}

/// Sum of words modulo 2^32 in terms of `add32`.
proof fn lemma_add32_chain(a: u32, b: u32, c: u32, d: u32)
    ensures
        add32(a, b) == (a + b) % 0x1_0000_0000,
        add32(add32(a, b), c) == (a + b + c) % 0x1_0000_0000,
        add32(add32(add32(a, b), c), d) == (a + b + c + d) % 0x1_0000_0000,
{
    let m = 0x1_0000_0000int;
    vstd::arithmetic::div_mod::lemma_add_mod_noop(a + b, c as int, m);
    vstd::arithmetic::div_mod::lemma_add_mod_noop(a + b + c, d as int, m);
    vstd::arithmetic::div_mod::lemma_mod_twice(a + b, m);
    vstd::arithmetic::div_mod::lemma_mod_twice(a + b + c, m);
    vstd::arithmetic::div_mod::lemma_small_mod(c as nat, m as nat);
    vstd::arithmetic::div_mod::lemma_small_mod(d as nat, m as nat);
}

/// The words of a list, pushed one by one, and their total.
fn push_word(words: &mut Vec<(u16, u16)>, w: RoundWordDense)
    ensures
        final(words)@ == old(words)@.push((w.0, w.1)),
        halves_total(final(words)@) == halves_total(old(words)@) + w.spec_value(),
{
    proof {
        lemma_halves_total_push(old(words)@, (w.0, w.1));
    }
    words.push((w.0, w.1));
}

/// A + f + X + K modulo 2^32, with its carry (0..=3) and looked-up halves.
pub fn assign_sum_afxk(a: RoundWordDense, f: RoundWordDense, x: RoundWordDense, k: u32) -> (r: (
    u64,
    RoundWord,
))
    ensures
        sum_gate_holds(
            a.0 + f.0 + x.0 + k % 65536,
            a.1 + f.1 + x.1 + k / 65536,
            r.1.dense_halves.0 as int,
            r.1.dense_halves.1 as int,
            r.0 as int,
            3,
        ),
        r.1.wf(),
        r.1.spec_value() == add32(
            add32(add32(a.spec_value(), f.spec_value()), x.spec_value()),
            k,
        ),
        r.0 == (a.spec_value() + f.spec_value() + x.spec_value() + k) / 0x1_0000_0000,
{
    let kw = RoundWordDense::from_word(k);
    let mut words: Vec<(u16, u16)> = Vec::new();
    push_word(&mut words, a);
    push_word(&mut words, f);
    push_word(&mut words, x);
    push_word(&mut words, kw);
    let (carry, lo, hi) = assign_sum_words(&words);
    proof {
        assert(halves_total(Seq::empty()) == 0);
        lemma_add32_chain(a.spec_value(), f.spec_value(), x.spec_value(), k);
    }
    (carry, RoundWord::from_rows(lo, hi))
}

/// rol + E modulo 2^32, with its carry (0..=1) and looked-up halves.
pub fn assign_sum_re(rol_word: RoundWordDense, e: RoundWordDense) -> (r: (u64, RoundWord))
    ensures
        sum_gate_holds(
            rol_word.0 + e.0,
            rol_word.1 + e.1,
            r.1.dense_halves.0 as int,
            r.1.dense_halves.1 as int,
            r.0 as int,
            1,
        ),
        r.1.wf(),
        r.1.spec_value() == add32(rol_word.spec_value(), e.spec_value()),
        r.0 == (rol_word.spec_value() + e.spec_value()) / 0x1_0000_0000,
{
    let mut words: Vec<(u16, u16)> = Vec::new();
    push_word(&mut words, rol_word);
    push_word(&mut words, e);
    let (carry, lo, hi) = assign_sum_words(&words);
    proof {
        assert(halves_total(Seq::empty()) == 0);
        lemma_add32_chain(rol_word.spec_value(), e.spec_value(), 0, 0);
    }
    (carry, RoundWord::from_rows(lo, hi))
}

/// initial + left + right modulo 2^32, with its carry (0..=2) and looked-up
/// halves.
pub fn assign_sum_combine_ilr(
    init_state_word: RoundWordDense,
    left_state_word: RoundWordDense,
    right_state_word: RoundWordDense,
) -> (r: (u64, RoundWord))
    ensures
        sum_gate_holds(
            init_state_word.0 + left_state_word.0 + right_state_word.0,
            init_state_word.1 + left_state_word.1 + right_state_word.1,
            r.1.dense_halves.0 as int,
            r.1.dense_halves.1 as int,
            r.0 as int,
            2,
        ),
        r.1.wf(),
        r.1.spec_value() == add32(
            add32(init_state_word.spec_value(), left_state_word.spec_value()),
            right_state_word.spec_value(),
        ),
        r.0 == (init_state_word.spec_value() + left_state_word.spec_value()
            + right_state_word.spec_value()) / 0x1_0000_0000,
{
    let mut words: Vec<(u16, u16)> = Vec::new();
    push_word(&mut words, init_state_word);
    push_word(&mut words, left_state_word);
    push_word(&mut words, right_state_word);
    let (carry, lo, hi) = assign_sum_words(&words);
    proof {
        assert(halves_total(Seq::empty()) == 0);
        lemma_add32_chain(
            init_state_word.spec_value(),
            left_state_word.spec_value(),
            right_state_word.spec_value(),
            0,
        );
    }
    (carry, RoundWord::from_rows(lo, hi))
}

/// Looks up both halves of a dense word, giving it its spread form.
pub fn assign_spread_dense_word(word: RoundWordDense) -> (r: RoundWord)
    ensures
        r.wf(),
        r.dense_halves == word,
{
    RoundWord::from_rows(SpreadWord::new(word.0), SpreadWord::new(word.1))
}

/// A chaining word, tagged by its slot. A and E are only ever added, so
/// they are kept in dense form; B, C and D also enter round functions.
#[derive(Clone, Copy, Debug, PartialEq, Eq, Structural)]
pub enum StateWord {
    A(RoundWordDense),
    B(RoundWord),
    C(RoundWord),
    D(RoundWord),
    E(RoundWordDense),
}

/// Which of the two parallel lanes a round belongs to.
#[derive(Clone, Copy, Debug, PartialEq, Eq, Structural)]
pub enum RoundSide {
    Left,
    Right,
}

/// The five chaining words of the circuit.
#[derive(Clone, Copy, Debug, PartialEq, Eq, Structural)]
pub struct State {
    pub a: Option<StateWord>,
    pub b: Option<StateWord>,
    pub c: Option<StateWord>,
    pub d: Option<StateWord>,
    pub e: Option<StateWord>,
}

/// The dense halves held in a slot.
pub open spec fn slot_dense(w: Option<StateWord>) -> RoundWordDense {
    match w {
        Some(StateWord::A(d)) => d,
        Some(StateWord::B(r)) => r.dense_halves,
        Some(StateWord::C(r)) => r.dense_halves,
        Some(StateWord::D(r)) => r.dense_halves,
        Some(StateWord::E(d)) => d,
        None => RoundWordDense(0, 0),
    }
}

impl State {
    pub fn new(a: StateWord, b: StateWord, c: StateWord, d: StateWord, e: StateWord) -> (r: State)
        ensures
            r == (State { a: Some(a), b: Some(b), c: Some(c), d: Some(d), e: Some(e) }),
    {
        State { a: Some(a), b: Some(b), c: Some(c), d: Some(d), e: Some(e) }
    }

    pub fn empty_state() -> (r: State)
        ensures
            r == (State { a: None, b: None, c: None, d: None, e: None }),
    {
        State { a: None, b: None, c: None, d: None, e: None }
    }

    /// Each slot holds a word tagged with its own slot; the words of B, C
    /// and D carry spreads that match their halves.
    pub open spec fn wf(self) -> bool {
        &&& self.a matches Some(StateWord::A(_))
        &&& self.b matches Some(StateWord::B(w)) && w.wf()
        &&& self.c matches Some(StateWord::C(w)) && w.wf()
        &&& self.d matches Some(StateWord::D(w)) && w.wf()
        &&& self.e matches Some(StateWord::E(_))
    }

    /// The chaining words as integers.
    pub open spec fn spec_value(self) -> NativeState {
        NativeState {
            a: slot_dense(self.a).spec_value(),
            b: slot_dense(self.b).spec_value(),
            c: slot_dense(self.c).spec_value(),
            d: slot_dense(self.d).spec_value(),
            e: slot_dense(self.e).spec_value(),
        }
    }
}

/// The five words of a well-formed state.
pub fn match_state(state: State) -> (r: (
    RoundWordDense,
    RoundWord,
    RoundWord,
    RoundWord,
    RoundWordDense,
))
    requires
        state.wf(),
    ensures
        r.0 == slot_dense(state.a),
        r.1.dense_halves == slot_dense(state.b),
        r.2.dense_halves == slot_dense(state.c),
        r.3.dense_halves == slot_dense(state.d),
        r.4 == slot_dense(state.e),
        r.1.wf(),
        r.2.wf(),
        r.3.wf(),
{
    let a = match state.a {
        Some(StateWord::A(a)) => a,
        _ => unreached(),
    };
    let b = match state.b {
        Some(StateWord::B(b)) => b,
        _ => unreached(),
    };
    let c = match state.c {
        Some(StateWord::C(c)) => c,
        _ => unreached(),
    };
    let d = match state.d {
        Some(StateWord::D(d)) => d,
        _ => unreached(),
    };
    let e = match state.e {
        Some(StateWord::E(e)) => e,
        _ => unreached(),
    };
    (a, b, c, d, e)
}

/// The sixteen block words from their halves.
pub open spec fn block_of(halves: Seq<RoundWordDense>) -> Seq<u32> {
    Seq::new(16, |i: int| halves[i].spec_value())
}

/// One round of the given lane.
pub open spec fn step_spec(
    side: RoundSide,
    j: int,
    s: NativeState,
    block: Seq<u32>,
) -> NativeState {
    match side {
        RoundSide::Left => left_step_spec(j, s, block),
        RoundSide::Right => right_step_spec(j, s, block),
    }
}

/// Rows taken by each round function.
pub open spec fn f_rows(f: RoundFunction) -> nat {
    match f {
        RoundFunction::F1 => 6,
        RoundFunction::F2 => 11,
        RoundFunction::F3 => 10,
        RoundFunction::F4 => 11,
        RoundFunction::F5 => 10,
    }
}

proof fn lemma_f_rows_bound(f: RoundFunction)
    ensures
        f_rows(f) <= 11,
{
}

/// The round function of a round on a lane.
pub open spec fn round_function(side: RoundSide, j: int) -> RoundFunction {
    match side {
        RoundSide::Left => RoundFunction::spec_left(j / 16),
        RoundSide::Right => RoundFunction::spec_right(j / 16),
    }
}

/// The output of the round function's gate, as dense halves.
fn assign_round_function(f: RoundFunction, b: RoundWord, c: RoundWord, d: RoundWord) -> (r:
    RoundWordDense)
    requires
        b.wf(),
        c.wf(),
        d.wf(),
    ensures
        r.spec_value() == f.spec_eval(b.spec_value(), c.spec_value(), d.spec_value()),
{
    match f {
        RoundFunction::F1 => {
            let (_, out) = assign_f1(b, c, d);
            RoundWordDense(out.r0_even.dense, out.r1_even.dense)
        },
        RoundFunction::F2 => {
            let (cells, _, _) = assign_f2(b, c, d);
            RoundWordDense(cells.sum_lo as u16, cells.sum_hi as u16)
        },
        RoundFunction::F3 => {
            let (_, _, _, _, out) = assign_f3(b, c, d);
            RoundWordDense(out.r0_even.dense, out.r1_even.dense)
        },
        RoundFunction::F4 => {
            let (cells, _, _) = assign_f4(b, c, d);
            RoundWordDense(cells.sum_lo as u16, cells.sum_hi as u16)
        },
        RoundFunction::F5 => {
            let (_, _, _, _, out) = assign_f5(b, c, d);
            RoundWordDense(out.r0_even.dense, out.r1_even.dense)
        },
    }
}

/// One round on one lane: the round function, A + f + X + K, its rotation,
/// the sum with E, and C rotated by ten. `row` advances past the rows used.
#[verifier::rlimit(60)]
pub fn assign_round(
    round_idx: usize,
    state: State,
    message_word_halves: &Vec<RoundWordDense>,
    row: &mut usize,
    round_side: RoundSide,
) -> (r: State)
    requires
        round_idx < ROUNDS,
        state.wf(),
        message_word_halves@.len() == BLOCK_SIZE,
        *old(row) + 64 <= usize::MAX,
    ensures
        r.wf(),
        r.spec_value() == step_spec(
            round_side,
            round_idx as int,
            state.spec_value(),
            block_of(message_word_halves@),
        ),
        *final(row) == *old(row) + f_rows(round_function(round_side, round_idx as int)) + 19,
{
    proof {
        lemma_round_tables_in_range(round_idx as int);
        reveal(left_step_spec);
        reveal(right_step_spec);
    }
    let (a, b, c, d, e) = match_state(state);
    let phase_idx = 1 + round_idx / ROUND_PHASE_SIZE;
    let f = match round_side {
        RoundSide::Left => RoundFunction::left(phase_idx - 1),
        RoundSide::Right => RoundFunction::right(phase_idx - 1),
    };
    let fout = assign_round_function(f, b, c, d);
    *row = *row + match f {
        RoundFunction::F1 => 6,
        RoundFunction::F2 => 11,
        RoundFunction::F3 => 10,
        RoundFunction::F4 => 11,
        RoundFunction::F5 => 10,
    };
    let (x, k, shift) = match round_side {
        RoundSide::Left => (
            message_word_halves[MSG_SEL_IDX_LEFT[round_idx]],
            ROUND_CONSTANTS_LEFT[phase_idx - 1],
            ROL_AMOUNT_LEFT[round_idx] as u32,
        ),
        RoundSide::Right => (
            message_word_halves[MSG_SEL_IDX_RIGHT[round_idx]],
            ROUND_CONSTANTS_RIGHT[phase_idx - 1],
            ROL_AMOUNT_RIGHT[round_idx] as u32,
        ),
    };
    let (afxk_carry, sum_afxk) = assign_sum_afxk(a, fout, x, k);
    *row = *row + 3;
    let (rot, _, _, rol_word) = assign_rotate_left(sum_afxk.dense_halves, shift);
    *row = *row + 6;
    let (re_carry, t) = assign_sum_re(rol_word, e);
    *row = *row + 2;
    let (rot10, _, _, rol10_c_dense) = assign_rotate_left(c.dense_halves, 10);
    *row = *row + 6;
    let rol10_c = assign_spread_dense_word(rol10_c_dense);
    *row = *row + 2;
    proof {
        let block = block_of(message_word_halves@);
        let j = round_idx as int;
        assert(x.spec_value() == round_message_word(round_side, j, block));
        lemma_word_total_4(
            a.spec_value(),
            fout.spec_value(),
            x.spec_value(),
            round_constant(round_side, j),
        );
        lemma_round_sound(
            round_side,
            j,
            state.spec_value(),
            block,
            fout.spec_value(),
            sum_afxk.dense_halves.0 as int,
            sum_afxk.dense_halves.1 as int,
            afxk_carry as int,
            rot,
            t.dense_halves.0 as int,
            t.dense_halves.1 as int,
            re_carry as int,
            rot10,
        );
    }
    State::new(
        StateWord::A(e),
        StateWord::B(t),
        StateWord::C(b),
        StateWord::D(rol10_c),
        StateWord::E(d.dense_halves),
    )
}

/// The combination after eighty rounds: each new word is an initial word
/// plus a left-lane word plus a right-lane word.
pub fn assign_combine_ilr(
    init_state: State,
    left_state: State,
    right_state: State,
    row: &mut usize,
) -> (r: State)
    requires
        init_state.wf(),
        left_state.wf(),
        right_state.wf(),
        *old(row) + 15 <= usize::MAX,
    ensures
        r.wf(),
        r.spec_value() == combine_spec(
            init_state.spec_value(),
            left_state.spec_value(),
            right_state.spec_value(),
        ),
        *final(row) == *old(row) + 15,
{
    let (h0, h1, h2, h3, h4) = match_state(init_state);
    let (a_left, b_left, c_left, d_left, e_left) = match_state(left_state);
    let (a_right, b_right, c_right, d_right, e_right) = match_state(right_state);
    let (_, a) = assign_sum_combine_ilr(h1.dense_halves, c_left.dense_halves, d_right.dense_halves);
    *row = *row + 3;
    let (_, b) = assign_sum_combine_ilr(h2.dense_halves, d_left.dense_halves, e_right);
    *row = *row + 3;
    let (_, c) = assign_sum_combine_ilr(h3.dense_halves, e_left, a_right);
    *row = *row + 3;
    let (_, d) = assign_sum_combine_ilr(h4, a_left, b_right.dense_halves);
    *row = *row + 3;
    let (_, e) = assign_sum_combine_ilr(h0, b_left.dense_halves, c_right.dense_halves);
    *row = *row + 3;
    State::new(
        StateWord::A(a.dense_halves),
        StateWord::B(b),
        StateWord::C(c),
        StateWord::D(d),
        StateWord::E(e.dense_halves),
    )
}

/// Round `j` on both lanes.
fn assign_round_pair(
    j: usize,
    left_state: State,
    right_state: State,
    w_halves: &Vec<RoundWordDense>,
    row: &mut usize,
) -> (r: (State, State))
    requires
        j < ROUNDS,
        left_state.wf(),
        right_state.wf(),
        w_halves@.len() == BLOCK_SIZE,
        *old(row) <= j * 60,
    ensures
        r.0.wf(),
        r.1.wf(),
        r.0.spec_value() == left_step_spec(j as int, left_state.spec_value(), block_of(w_halves@)),
        r.1.spec_value() == right_step_spec(
            j as int,
            right_state.spec_value(),
            block_of(w_halves@),
        ),
        *final(row) <= (j + 1) * 60,
{
    proof {
        lemma_f_rows_bound(round_function(RoundSide::Left, j as int));
        lemma_f_rows_bound(round_function(RoundSide::Right, j as int));
    }
    let l = assign_round(j, left_state, w_halves, row, RoundSide::Left);
    let r = assign_round(j, right_state, w_halves, row, RoundSide::Right);
    (l, r)
}

/// The compression function on one block: eighty rounds on each lane from
/// the same initial state, then the combination.
pub fn compress(initialized_state: State, w_halves: &Vec<RoundWordDense>) -> (r: State)
    requires
        initialized_state.wf(),
        w_halves@.len() == BLOCK_SIZE,
    ensures
        r.wf(),
        r.spec_value() == compress_spec(initialized_state.spec_value(), block_of(w_halves@)),
{
    let ghost s0 = initialized_state.spec_value();
    let ghost block = block_of(w_halves@);
    let mut left_state = initialized_state;
    let mut right_state = initialized_state;
    let mut row: usize = 0;
    let mut j: usize = 0;
    while j < ROUNDS
        invariant
            j <= ROUNDS,
            row <= j * 60,
            w_halves@.len() == BLOCK_SIZE,
            initialized_state.wf(),
            left_state.wf(),
            right_state.wf(),
            block == block_of(w_halves@),
            s0 == initialized_state.spec_value(),
            left_state.spec_value() == left_rounds(s0, block, j as nat),
            right_state.spec_value() == right_rounds(s0, block, j as nat),
        decreases ROUNDS - j,
    {
        let (l, r) = assign_round_pair(j, left_state, right_state, w_halves, &mut row);
        proof {
            assert(left_rounds(s0, block, (j + 1) as nat) == left_step_spec(
                j as int,
                left_rounds(s0, block, j as nat),
                block,
            ));
            assert(right_rounds(s0, block, (j + 1) as nat) == right_step_spec(
                j as int,
                right_rounds(s0, block, j as nat),
                block,
            ));
        }
        left_state = l;
        right_state = r;
        j = j + 1;
    }
    assign_combine_ilr(initialized_state, left_state, right_state, &mut row)
}

/// A word with both halves looked up (and the decomposition of the word
/// into them).
pub fn assign_word_and_halves(word: u32) -> (r: RoundWord)
    ensures
        r.wf(),
        r.spec_value() == word,
        dense_pair(r.dense_halves.0 as int, r.dense_halves.1 as int) == word,
{
    let halves = RoundWordDense::from_word(word);
    assign_spread_dense_word(halves)
}

/// The state holding the given initial values.
pub fn init_iv(iv: [u32; DIGEST_SIZE]) -> (r: State)
    ensures
        r.wf(),
        r.spec_value() == NativeState::spec_from_words(iv@),
{
    let a = assign_word_and_halves(iv[0]);
    let b = assign_word_and_halves(iv[1]);
    let c = assign_word_and_halves(iv[2]);
    let d = assign_word_and_halves(iv[3]);
    let e = assign_word_and_halves(iv[4]);
    State::new(
        StateWord::A(a.dense_halves),
        StateWord::B(b),
        StateWord::C(c),
        StateWord::D(d),
        StateWord::E(e.dense_halves),
    )
}

/// The state holding RIPEMD-160's initial values.
pub fn init_with_iv() -> (r: State)
    ensures
        r.wf(),
        r.spec_value() == initial_state(),
{
    init_iv(INITIAL_VALUES)
}

/// The five words of the final state, each checked against its halves by
/// the decomposition gate.
pub fn assign_digest(state: State) -> (r: [u32; DIGEST_SIZE])
    requires
        state.wf(),
    ensures
        r@ == seq![
            state.spec_value().a,
            state.spec_value().b,
            state.spec_value().c,
            state.spec_value().d,
            state.spec_value().e,
        ],
{
    let (a, b, c, d, e) = match_state(state);
    let r: [u32; DIGEST_SIZE] = [
        a.value(),
        b.dense_halves.value(),
        c.dense_halves.value(),
        d.dense_halves.value(),
        e.value(),
    ];
    assert(r@ =~= seq![
        state.spec_value().a,
        state.spec_value().b,
        state.spec_value().c,
        state.spec_value().d,
        state.spec_value().e,
    ]);
    r
}

/// The message word that round `j` of a lane adds.
pub open spec fn round_message_word(side: RoundSide, j: int, block: Seq<u32>) -> u32 {
    match side {
        RoundSide::Left => block[MSG_SEL_IDX_LEFT@[j] as int],
        RoundSide::Right => block[MSG_SEL_IDX_RIGHT@[j] as int],
    }
}

/// The constant that round `j` of a lane adds.
pub open spec fn round_constant(side: RoundSide, j: int) -> u32 {
    match side {
        RoundSide::Left => ROUND_CONSTANTS_LEFT@[j / 16],
        RoundSide::Right => ROUND_CONSTANTS_RIGHT@[j / 16],
    }
}

/// The rotation amount of round `j` of a lane.
pub open spec fn round_shift(side: RoundSide, j: int) -> u32 {
    match side {
        RoundSide::Left => ROL_AMOUNT_LEFT@[j] as u32,
        RoundSide::Right => ROL_AMOUNT_RIGHT@[j] as u32,
    }
}

/// The low-half sum and the high-half sum of a list of words.
pub open spec fn low_sum(words: Seq<u32>) -> int
    decreases words.len(),
{
    if words.len() == 0 {
        0
    } else {
        low_sum(words.drop_last()) + words.last() % 65536
    }
}

pub open spec fn high_sum(words: Seq<u32>) -> int
    decreases words.len(),
{
    if words.len() == 0 {
        0
    } else {
        high_sum(words.drop_last()) + words.last() / 65536
    }
}

/// The halves of words, summed apart, make up the sum of the words.
proof fn lemma_half_sums(words: Seq<u32>)
    ensures
        dense_pair(low_sum(words), high_sum(words)) == word_total(words),
    decreases words.len(),
{
    if words.len() > 0 {
        lemma_half_sums(words.drop_last());
    }
}

/// The sum of a list of words.
pub open spec fn word_total(words: Seq<u32>) -> int
    decreases words.len(),
{
    if words.len() == 0 {
        0
    } else {
        word_total(words.drop_last()) + words.last()
    }
}

/// A sum gate over words, satisfied, with its result halves looked up,
/// holds the sum modulo 2^32 and counts the wraps in its carry.
pub proof fn lemma_word_sum_sound(
    words: Seq<u32>,
    sum_lo: int,
    sum_hi: int,
    carry: int,
    max_carry: int,
)
    requires
        sum_gate_holds(low_sum(words), high_sum(words), sum_lo, sum_hi, carry, max_carry),
        0 <= sum_lo < 65536,
        0 <= sum_hi < 65536,
    ensures
        dense_pair(sum_lo, sum_hi) == word_total(words) % 0x1_0000_0000,
        carry == word_total(words) / 0x1_0000_0000,
{
    lemma_half_sums(words);
    lemma_sum_gate_sound(low_sum(words), high_sum(words), sum_lo, sum_hi, carry, max_carry);
}

proof fn lemma_word_total_2(a: u32, b: u32)
    ensures
        word_total(seq![a, b]) == a + b,
        low_sum(seq![a, b]) == a % 65536 + b % 65536,
        high_sum(seq![a, b]) == a / 65536 + b / 65536,
{
    reveal_with_fuel(word_total, 3);
    reveal_with_fuel(low_sum, 3);
    reveal_with_fuel(high_sum, 3);
    assert(seq![a, b].drop_last() =~= seq![a]);
    assert(seq![a].drop_last() =~= Seq::<u32>::empty());
}

proof fn lemma_word_total_3(a: u32, b: u32, c: u32)
    ensures
        word_total(seq![a, b, c]) == a + b + c,
        low_sum(seq![a, b, c]) == a % 65536 + b % 65536 + c % 65536,
        high_sum(seq![a, b, c]) == a / 65536 + b / 65536 + c / 65536,
{
    lemma_word_total_2(a, b);
    assert(seq![a, b, c].drop_last() =~= seq![a, b]);
}

proof fn lemma_word_total_4(a: u32, b: u32, c: u32, d: u32)
    ensures
        word_total(seq![a, b, c, d]) == a + b + c + d,
        low_sum(seq![a, b, c, d]) == a % 65536 + b % 65536 + c % 65536 + d % 65536,
        high_sum(seq![a, b, c, d]) == a / 65536 + b / 65536 + c / 65536 + d / 65536,
{
    lemma_word_total_3(a, b, c);
    assert(seq![a, b, c, d].drop_last() =~= seq![a, b, c]);
}

/// One round whose gates are all satisfied, whose looked-up cells are rows
/// of the spread table and whose copied cells agree, moves the chaining
/// words exactly as a round of RIPEMD-160 on that lane: the new B is the sum
/// that the rol + E gate holds and the new D is the output of the rotation
/// of C by ten.
pub proof fn lemma_round_sound(
    side: RoundSide,
    j: int,
    s: NativeState,
    block: Seq<u32>,
    f_out: u32,
    afxk_lo: int,
    afxk_hi: int,
    afxk_carry: int,
    rot: RotateLeftCells,
    re_lo: int,
    re_hi: int,
    re_carry: int,
    rot10: RotateLeftCells,
)
    requires
        0 <= j < 80,
        block.len() == 16,
        f_out == round_function(side, j).spec_eval(s.b, s.c, s.d),
        sum_gate_holds(
            low_sum(seq![s.a, f_out, round_message_word(side, j, block), round_constant(side, j)]),
            high_sum(seq![s.a, f_out, round_message_word(side, j, block), round_constant(side, j)]),
            afxk_lo,
            afxk_hi,
            afxk_carry,
            3,
        ),
        0 <= afxk_lo < 65536,
        0 <= afxk_hi < 65536,
        rot.holds(),
        rot.shift == round_shift(side, j),
        rot.word_lo == afxk_lo,
        rot.word_hi == afxk_hi,
        rot.chunk < 65536,
        rot.tag_chunk == tag_of(rot.chunk as nat),
        rot.c < 65536,
        sum_gate_holds(
            rot.rol_word_lo + s.e % 65536,
            rot.rol_word_hi + s.e / 65536,
            re_lo,
            re_hi,
            re_carry,
            1,
        ),
        0 <= re_lo < 65536,
        0 <= re_hi < 65536,
        rot10.holds(),
        rot10.shift == 10,
        rot10.word_lo == s.c % 65536,
        rot10.word_hi == s.c / 65536,
        rot10.chunk < 65536,
        rot10.tag_chunk == tag_of(rot10.chunk as nat),
        rot10.c < 65536,
    ensures
        step_spec(side, j, s, block) == (NativeState {
            a: s.e,
            b: dense_pair(re_lo, re_hi) as u32,
            c: s.b,
            d: dense_pair(rot10.rol_word_lo as int, rot10.rol_word_hi as int) as u32,
            e: s.d,
        }),
{
    reveal(left_step_spec);
    reveal(right_step_spec);
    let x = round_message_word(side, j, block);
    let k = round_constant(side, j);
    lemma_word_total_4(s.a, f_out, x, k);
    lemma_word_sum_sound(seq![s.a, f_out, x, k], afxk_lo, afxk_hi, afxk_carry, 3);
    lemma_add32_chain(s.a, f_out, x, k);
    lemma_rotate_left_gate_sound(rot);
    let rol_value = dense_pair(rot.rol_word_lo as int, rot.rol_word_hi as int);
    assert(dense_pair(rot.rol_word_lo + s.e % 65536, rot.rol_word_hi + s.e / 65536) == rol_value
        + s.e);
    lemma_sum_gate_sound(
        rot.rol_word_lo + s.e % 65536,
        rot.rol_word_hi + s.e / 65536,
        re_lo,
        re_hi,
        re_carry,
        1,
    );
    lemma_add32_chain(rol_value as u32, s.e, 0, 0);
    lemma_rotate_left_gate_sound(rot10);
}

/// The five combination gates, satisfied with their result halves looked
/// up, give the next chaining state.
pub proof fn lemma_combine_sound(
    init: NativeState,
    left: NativeState,
    right: NativeState,
    sums: Seq<(int, int, int)>,
)
    requires
        sums.len() == 5,
        forall|i: int|
            0 <= i < 5 ==> 0 <= (#[trigger] sums[i]).0 < 65536 && 0 <= sums[i].1 < 65536,
        sum_gate_holds(
            low_sum(seq![init.b, left.c, right.d]),
            high_sum(seq![init.b, left.c, right.d]),
            sums[0].0,
            sums[0].1,
            sums[0].2,
            2,
        ),
        sum_gate_holds(
            low_sum(seq![init.c, left.d, right.e]),
            high_sum(seq![init.c, left.d, right.e]),
            sums[1].0,
            sums[1].1,
            sums[1].2,
            2,
        ),
        sum_gate_holds(
            low_sum(seq![init.d, left.e, right.a]),
            high_sum(seq![init.d, left.e, right.a]),
            sums[2].0,
            sums[2].1,
            sums[2].2,
            2,
        ),
        sum_gate_holds(
            low_sum(seq![init.e, left.a, right.b]),
            high_sum(seq![init.e, left.a, right.b]),
            sums[3].0,
            sums[3].1,
            sums[3].2,
            2,
        ),
        sum_gate_holds(
            low_sum(seq![init.a, left.b, right.c]),
            high_sum(seq![init.a, left.b, right.c]),
            sums[4].0,
            sums[4].1,
            sums[4].2,
            2,
        ),
    ensures
        combine_spec(init, left, right) == (NativeState {
            a: dense_pair(sums[0].0, sums[0].1) as u32,
            b: dense_pair(sums[1].0, sums[1].1) as u32,
            c: dense_pair(sums[2].0, sums[2].1) as u32,
            d: dense_pair(sums[3].0, sums[3].1) as u32,
            e: dense_pair(sums[4].0, sums[4].1) as u32,
        }),
{
    let w0 = seq![init.b, left.c, right.d];
    let w1 = seq![init.c, left.d, right.e];
    let w2 = seq![init.d, left.e, right.a];
    let w3 = seq![init.e, left.a, right.b];
    let w4 = seq![init.a, left.b, right.c];
    lemma_word_total_3(init.b, left.c, right.d);
    lemma_word_total_3(init.c, left.d, right.e);
    lemma_word_total_3(init.d, left.e, right.a);
    lemma_word_total_3(init.e, left.a, right.b);
    lemma_word_total_3(init.a, left.b, right.c);
    assert(0 <= sums[0].0 < 65536 && 0 <= sums[0].1 < 65536);
    assert(0 <= sums[1].0 < 65536 && 0 <= sums[1].1 < 65536);
    assert(0 <= sums[2].0 < 65536 && 0 <= sums[2].1 < 65536);
    assert(0 <= sums[3].0 < 65536 && 0 <= sums[3].1 < 65536);
    assert(0 <= sums[4].0 < 65536 && 0 <= sums[4].1 < 65536);
    lemma_word_sum_sound(w0, sums[0].0, sums[0].1, sums[0].2, 2);
    lemma_word_sum_sound(w1, sums[1].0, sums[1].1, sums[1].2, 2);
    lemma_word_sum_sound(w2, sums[2].0, sums[2].1, sums[2].2, 2);
    lemma_word_sum_sound(w3, sums[3].0, sums[3].1, sums[3].2, 2);
    lemma_word_sum_sound(w4, sums[4].0, sums[4].1, sums[4].2, 2);
    lemma_add32_chain(init.b, left.c, right.d, 0);
    lemma_add32_chain(init.c, left.d, right.e, 0);
    lemma_add32_chain(init.d, left.e, right.a, 0);
    lemma_add32_chain(init.e, left.a, right.b, 0);
    lemma_add32_chain(init.a, left.b, right.c, 0);
}

} // verus!
