use ripemd160_circuit::compression::{
    assign_f1, assign_f2, assign_f3, assign_f4, assign_f5, assign_rotate_left, assign_sum_afxk,
    assign_sum_combine_ilr, assign_sum_re, assign_word_and_halves, RoundWord, RoundWordDense,
};
use ripemd160_circuit::gates::{CompressionGate, RotateLeftCells};
use ripemd160_circuit::native::{f1, f2, f3, f4, f5, rol};

struct Xorshift(u64);

impl Xorshift {
    fn next(&mut self) -> u32 {
        self.0 ^= self.0 << 13;
        self.0 ^= self.0 >> 7;
        self.0 ^= self.0 << 17;
        (self.0 >> 16) as u32
    }
}

fn word(w: &RoundWord) -> u32 {
    w.dense_halves.value()
}

fn dense(lo: u64, hi: u64) -> u32 {
    (lo + (hi << 16)) as u32
}

fn check_all_gates(b: u32, c: u32, d: u32, k: u32) {
    let bw = assign_word_and_halves(b);
    let cw = assign_word_and_halves(c);
    let dw = assign_word_and_halves(d);
    assert_eq!(word(&bw), b);

    let (cells, out) = assign_f1(bw, cw, dw);
    assert!(CompressionGate::f1_gate(&cells));
    assert_eq!(dense(out.r0_even.dense as u64, out.r1_even.dense as u64), f1(b, c, d));

    let (cells, _, _) = assign_f2(bw, cw, dw);
    assert!(CompressionGate::f2_gate(&cells));
    assert_eq!(cells.carry, 0);
    assert_eq!(dense(cells.sum_lo, cells.sum_hi), f2(b, c, d));

    let (cells, _, _) = assign_f4(bw, cw, dw);
    assert!(CompressionGate::f2_gate(&cells));
    assert_eq!(dense(cells.sum_lo, cells.sum_hi), f4(b, c, d));

    let (cells, _, _, _, out) = assign_f3(bw, cw, dw);
    assert!(CompressionGate::f3_gate(&cells));
    assert_eq!(dense(out.r0_even.dense as u64, out.r1_even.dense as u64), f3(b, c, d));

    let (cells, _, _, _, out) = assign_f5(bw, cw, dw);
    assert!(CompressionGate::f3_gate(&cells));
    assert_eq!(dense(out.r0_even.dense as u64, out.r1_even.dense as u64), f5(b, c, d));

    for shift in 5u32..=15 {
        let (cells, chunk_row, _, out) = assign_rotate_left(bw.dense_halves, shift);
        assert!(CompressionGate::rotate_left_gate(&cells), "shift {}", shift);
        assert_eq!(out.value(), rol(b, shift as u8), "shift {}", shift);
        assert_eq!(out.value(), b.rotate_left(shift), "shift {}", shift);
        assert_eq!(chunk_row.dense as u64, cells.chunk);
    }

    let kw = RoundWordDense::from_word(k);
    let (carry, sum) = assign_sum_afxk(bw.dense_halves, cw.dense_halves, dw.dense_halves, k);
    let total = b as u64 + c as u64 + d as u64 + k as u64;
    assert_eq!(word(&sum), b.wrapping_add(c).wrapping_add(d).wrapping_add(k));
    assert_eq!(carry, total >> 32);
    assert!(CompressionGate::sum_afxk_gate(
        sum.dense_halves.0 as u64,
        sum.dense_halves.1 as u64,
        carry,
        bw.dense_halves.0 as u64,
        bw.dense_halves.1 as u64,
        cw.dense_halves.0 as u64,
        cw.dense_halves.1 as u64,
        dw.dense_halves.0 as u64,
        dw.dense_halves.1 as u64,
        kw.0 as u64,
        kw.1 as u64,
    ));
    assert!(CompressionGate::s_decompose_word(
        sum.dense_halves.0 as u64,
        sum.dense_halves.1 as u64,
        b.wrapping_add(c).wrapping_add(d).wrapping_add(k) as u64,
    ));

    let (carry, sum) = assign_sum_re(bw.dense_halves, cw.dense_halves);
    assert_eq!(word(&sum), b.wrapping_add(c));
    assert_eq!(carry, (b as u64 + c as u64) >> 32);
    assert!(CompressionGate::sum_re_gate(
        sum.dense_halves.0 as u64,
        sum.dense_halves.1 as u64,
        carry,
        bw.dense_halves.0 as u64,
        bw.dense_halves.1 as u64,
        cw.dense_halves.0 as u64,
        cw.dense_halves.1 as u64,
    ));

    let (carry, sum) = assign_sum_combine_ilr(bw.dense_halves, cw.dense_halves, dw.dense_halves);
    assert_eq!(word(&sum), b.wrapping_add(c).wrapping_add(d));
    assert_eq!(carry, (b as u64 + c as u64 + d as u64) >> 32);
    assert!(CompressionGate::sum_combine_ilr(
        sum.dense_halves.0 as u64,
        sum.dense_halves.1 as u64,
        carry,
        bw.dense_halves.0 as u64,
        bw.dense_halves.1 as u64,
        cw.dense_halves.0 as u64,
        cw.dense_halves.1 as u64,
        dw.dense_halves.0 as u64,
        dw.dense_halves.1 as u64,
    ));
}

#[test]
fn test_gates() {
    let mut rng = Xorshift(0x9e37_79b9_7f4a_7c15);
    for _ in 0..200 {
        let (b, c, d, k) = (rng.next(), rng.next(), rng.next(), rng.next());
        check_all_gates(b, c, d, k);
    }
}

#[test]
fn gates_on_extreme_words() {
    for &(b, c, d, k) in &[
        (0u32, 0u32, 0u32, 0u32),
        (u32::MAX, u32::MAX, u32::MAX, u32::MAX),
        (0x8000_0000, 0x7fff_ffff, 0xffff_0000, 0x0000_ffff),
        (0x5555_5555, 0xaaaa_aaaa, 0x0f0f_0f0f, 0xf0f0_f0f0),
    ] {
        check_all_gates(b, c, d, k);
    }
}

#[test]
fn sum_gates_carry_up_to_operand_count_minus_one() {
    let m = RoundWordDense::from_word(u32::MAX);
    let (carry, sum) = assign_sum_afxk(m, m, m, u32::MAX);
    assert_eq!(carry, 3);
    assert_eq!(sum.dense_halves.value(), 0xffff_fffc);
    let (carry, _) = assign_sum_combine_ilr(m, m, m);
    assert_eq!(carry, 2);
    let (carry, sum) = assign_sum_re(m, RoundWordDense::from_word(1));
    assert_eq!(carry, 1);
    assert_eq!(sum.dense_halves.value(), 0);
    let z = RoundWordDense::from_word(0);
    let (carry, _) = assign_sum_afxk(z, z, z, 0);
    assert_eq!(carry, 0);
}

#[test]
fn sum_gate_rejects_wrong_carry_or_sum() {
    // 0xffff_ffff + 1 wraps to 0 with carry 1.
    assert!(CompressionGate::sum_re_gate(0, 0, 1, 0xffff, 0xffff, 1, 0));
    assert!(!CompressionGate::sum_re_gate(0, 0, 0, 0xffff, 0xffff, 1, 0));
    assert!(!CompressionGate::sum_re_gate(1, 0, 1, 0xffff, 0xffff, 1, 0));
    // A carry of 2 is out of range for two operands.
    assert!(!CompressionGate::sum_re_gate(0x1_0000, 0xffff, 2, 0xffff, 0xffff, 0xffff, 0xffff + 0x1_0000));
    // Four operands may carry 3.
    assert!(CompressionGate::sum_afxk_gate(
        0xfffc, 0xffff, 3, 0xffff, 0xffff, 0xffff, 0xffff, 0xffff, 0xffff, 0xffff, 0xffff
    ));
    assert!(!CompressionGate::sum_afxk_gate(
        0xfffc, 0xffff, 4, 0xffff, 0xffff, 0xffff, 0xffff, 0xffff, 0xffff, 0xffff, 0xffff
    ));
}

#[test]
fn f_gates_reject_tampered_outputs() {
    let bw = assign_word_and_halves(0x1234_5678);
    let cw = assign_word_and_halves(0x9abc_def0);
    let dw = assign_word_and_halves(0x0fed_cba9);
    let (mut cells, _) = assign_f1(bw, cw, dw);
    cells.spread_r0_even += 1;
    assert!(!CompressionGate::f1_gate(&cells));

    let (mut cells, _, _) = assign_f2(bw, cw, dw);
    cells.sum_lo ^= 1;
    assert!(!CompressionGate::f2_gate(&cells));
    let (mut cells, _, _) = assign_f2(bw, cw, dw);
    cells.spread_neg_x_lo += 1;
    assert!(!CompressionGate::f2_gate(&cells));

    let (mut cells, _, _, _, _) = assign_f3(bw, cw, dw);
    cells.spread_or_hi += 4;
    assert!(!CompressionGate::f3_gate(&cells));
}

#[test]
fn rotation_gate_rejects_bad_chunks() {
    let w = RoundWordDense::from_word(0xdead_beef);
    for shift in 5u32..=15 {
        let (cells, _, _, _) = assign_rotate_left(w, shift);
        let mut bad: RotateLeftCells = cells;
        bad.rol_word_lo ^= 1;
        assert!(!CompressionGate::rotate_left_gate(&bad), "shift {}", shift);
        let mut bad: RotateLeftCells = cells;
        bad.tag_chunk = 8;
        assert!(!CompressionGate::rotate_left_gate(&bad), "shift {}", shift);
        let mut bad: RotateLeftCells = cells;
        bad.shift = 4;
        assert!(!CompressionGate::rotate_left_gate(&bad));
    }
}

#[test]
fn rotation_by_ten_example() {
    let w = RoundWordDense::from_word(0x1234_5678);
    let (cells, _, _, out) = assign_rotate_left(w, 10);
    assert!(CompressionGate::rotate_left_gate(&cells));
    assert_eq!(out.value(), 0xd159_e048);
}

#[test]
fn rotation_gates_by_shift() {
    let w = RoundWordDense::from_word(0x0123_4567);
    let gates: [fn(&RotateLeftCells) -> bool; 11] = [
        CompressionGate::rotate_left_5_gate,
        CompressionGate::rotate_left_6_gate,
        CompressionGate::rotate_left_7_gate,
        CompressionGate::rotate_left_8_gate,
        CompressionGate::rotate_left_9_gate,
        CompressionGate::rotate_left_10_gate,
        CompressionGate::rotate_left_11_gate,
        CompressionGate::rotate_left_12_gate,
        CompressionGate::rotate_left_13_gate,
        CompressionGate::rotate_left_14_gate,
        CompressionGate::rotate_left_15_gate,
    ];
    for (i, gate) in gates.iter().enumerate() {
        let shift = i as u32 + 5;
        let (cells, _, _, out) = assign_rotate_left(w, shift);
        assert!(gate(&cells), "shift {}", shift);
        assert_eq!(out.value(), 0x0123_4567u32.rotate_left(shift));
    }
}
