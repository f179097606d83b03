//! The spread encoding and the integer helpers that witness generation uses:
//! spreading a 16-bit value, splitting a spread sum into its even and odd
//! bits, the complement of a spread value, and multi-word addition with carry.
//!
//! A value's spread places its bit `i` at bit `2i` and leaves the odd
//! positions zero. Adding spread values never carries from one two-bit slot
//! into the next (while at most three are added), so the even bits of the
//! sum hold the XOR of the inputs and the odd bits hold their carries.
use vstd::prelude::*;
use vstd::arithmetic::power2::{pow2, lemma_pow2_unfold, lemma2_to64, lemma_pow2_pos};

verus! {

/// `spread` of the value with only the even positions set in 32 bits.
pub const MASK_EVEN_32: u32 = 0x5555_5555;

/// The spread of `x`: bit `i` of `x` moved to bit `2i`.
pub open spec fn spread(x: nat) -> nat
    decreases x,
{
    if x == 0 {
        0
    } else {
        x % 2 + 4 * spread(x / 2)
    }
}

/// The bits of `m` at even positions, packed together.
pub open spec fn even_part(m: nat) -> nat
    decreases m,
{
    if m == 0 {
        0
    } else {
        m % 2 + 2 * even_part(m / 4)
    }
}

/// The bits of `m` at odd positions, packed together.
pub open spec fn odd_part(m: nat) -> nat {
    even_part(m / 2)
}

/// The sum of a list of words given as (low half, high half) pairs.
pub open spec fn halves_total(words: Seq<(u16, u16)>) -> nat
    decreases words.len(),
{
    if words.len() == 0 {
        0
    } else {
        (halves_total(words.drop_last()) + words.last().0 + 65536 * words.last().1) as nat
    }
}

pub proof fn lemma_spread_unfold(x: nat)
    ensures
        spread(x) == x % 2 + 4 * spread(x / 2),
{
}

/// A value below 2^k spreads to a value below 2^(2k).
pub proof fn lemma_spread_bound(x: nat, k: nat)
    requires
        x < pow2(k),
    ensures
        spread(x) < pow2(2 * k),
    decreases k,
{
    if k == 0 {
        assert(pow2(0) == 1) by {
            lemma2_to64();
        }
        assert(x == 0);
        lemma_pow2_pos(0);
    } else {
        lemma_pow2_unfold(k);
        lemma_pow2_unfold(2 * k);
        lemma_pow2_unfold((2 * k - 1) as nat);
        assert((2 * k - 1 - 1) as nat == 2 * ((k - 1) as nat));
        lemma_spread_bound(x / 2, (k - 1) as nat);
    }
}

/// Spreading distributes over a split at bit `k`.
pub proof fn lemma_spread_split(lo: nat, hi: nat, k: nat)
    requires
        lo < pow2(k),
    ensures
        spread(lo + pow2(k) * hi) == spread(lo) + pow2(2 * k) * spread(hi),
    decreases k,
{
    if k == 0 {
        assert(pow2(0) == 1) by {
            lemma2_to64();
        }
        assert(lo == 0);
        assert(spread(0) == 0);
        assert(pow2(k) * hi == hi);
        assert(pow2(2 * k) * spread(hi) == spread(hi));
    } else {
        let pk1 = pow2((k - 1) as nat);
        let p2k2 = pow2(2 * ((k - 1) as nat));
        lemma_pow2_unfold(k);
        lemma_pow2_unfold(2 * k);
        lemma_pow2_unfold((2 * k - 1) as nat);
        assert(pow2(k) == 2 * pk1);
        assert(pow2(2 * k) == 4 * p2k2);
        let x = lo + pow2(k) * hi;
        let y = lo / 2 + pk1 * hi;
        assert(x % 2 == lo % 2 && x / 2 == y) by (nonlinear_arith)
            requires
                x == lo + pow2(k) * hi,
                y == lo / 2 + pk1 * hi,
                pow2(k) == 2 * pk1,
        ;
        lemma_spread_split(lo / 2, hi, (k - 1) as nat);
        assert(spread(y) == spread(lo / 2) + p2k2 * spread(hi));
        lemma_spread_unfold(lo);
        lemma_spread_unfold(x);
        assert(spread(x) == x % 2 + 4 * spread(x / 2));
        assert(4 * (p2k2 * spread(hi)) == pow2(2 * k) * spread(hi)) by (nonlinear_arith)
            requires
                pow2(2 * k) == 4 * p2k2,
        ;
    }
}

/// The spread of a 32-bit word is the spread of its low half plus 2^32 times
/// the spread of its high half.
pub proof fn lemma_spread_halves(lo: nat, hi: nat)
    requires
        lo < 65536,
    ensures
        spread(lo + 65536 * hi) == spread(lo) + 0x1_0000_0000 * spread(hi),
{
    lemma2_to64();
    lemma_spread_split(lo, hi, 16);
}

/// Bounds that witness arithmetic needs.
pub proof fn lemma_spread_bounds(x: nat)
    ensures
        x < 65536 ==> spread(x) < 0x1_0000_0000,
        x < 0x1_0000_0000 ==> spread(x) < 0x1_0000_0000_0000_0000,
        x < 32768 ==> spread(x) < 0x4000_0000,
{
    lemma2_to64();
    if x < 65536 {
        lemma_spread_bound(x, 16);
    }
    if x < 0x1_0000_0000 {
        lemma_spread_bound(x, 32);
        vstd::arithmetic::power2::lemma2_to64_rest();
    }
    if x < 32768 {
        lemma_spread_bound(x, 15);
    }
}

/// Adding two spread words: the even bits hold the XOR, the odd bits the AND.
pub proof fn lemma_spread_add(x: u32, y: u32)
    ensures
        spread(x as nat) + spread(y as nat) == spread((x ^ y) as nat) + 2 * spread((x & y) as nat),
    decreases x as nat + y as nat,
{
    if x == 0 && y == 0 {
        assert(x ^ y == 0 && x & y == 0) by (bit_vector)
            requires
                x == 0 && y == 0,
        ;
    } else {
        let hx = x >> 1;
        let hy = y >> 1;
        assert(hx == x / 2 && hy == y / 2 && (x ^ y) >> 1 == hx ^ hy && (x & y) >> 1 == hx & hy
            && (x ^ y) >> 1 == (x ^ y) / 2 && (x & y) >> 1 == (x & y) / 2 && (x ^ y) % 2 + 2 * ((
        x & y) % 2) == x % 2 + y % 2) by (bit_vector)
            requires
                hx == x >> 1,
                hy == y >> 1,
        ;
        lemma_spread_add(hx, hy);
        lemma_spread_unfold(x as nat);
        lemma_spread_unfold(y as nat);
        lemma_spread_unfold((x ^ y) as nat);
        lemma_spread_unfold((x & y) as nat);
    }
}

proof fn lemma_div_mod_4(m: nat, r: nat, q: nat)
    requires
        m == r + 4 * q,
        r < 4,
    ensures
        m % 4 == r,
        m / 4 == q,
{
    vstd::arithmetic::div_mod::lemma_fundamental_div_mod_converse(m as int, 4, q as int, r as int);
}

/// A sum of two interleaved spreads determines both of them.
pub proof fn lemma_spread_interleave_unique(a1: nat, b1: nat, a2: nat, b2: nat)
    requires
        spread(a1) + 2 * spread(b1) == spread(a2) + 2 * spread(b2),
    ensures
        a1 == a2,
        b1 == b2,
    decreases a1 + b1 + a2 + b2,
{
    lemma_spread_unfold(a1);
    lemma_spread_unfold(b1);
    lemma_spread_unfold(a2);
    lemma_spread_unfold(b2);
    let m = spread(a1) + 2 * spread(b1);
    let r1: nat = a1 % 2 + 2 * (b1 % 2);
    let r2: nat = a2 % 2 + 2 * (b2 % 2);
    let q1 = spread(a1 / 2) + 2 * spread(b1 / 2);
    let q2 = spread(a2 / 2) + 2 * spread(b2 / 2);
    assert(m == r1 + 4 * q1);
    assert(m == r2 + 4 * q2);
    lemma_div_mod_4(m, r1, q1);
    lemma_div_mod_4(m, r2, q2);
    assert(a1 % 2 == a2 % 2 && b1 % 2 == b2 % 2);
    if a1 + b1 + a2 + b2 > 0 {
        lemma_spread_interleave_unique(a1 / 2, b1 / 2, a2 / 2, b2 / 2);
    }
}

/// Spreading is injective.
pub proof fn lemma_spread_injective(a1: nat, a2: nat)
    requires
        spread(a1) == spread(a2),
    ensures
        a1 == a2,
{
    lemma_spread_interleave_unique(a1, 0, a2, 0);
}

/// Every value is the interleaving of its even and odd parts.
pub proof fn lemma_even_odd_parts(m: nat)
    ensures
        m == spread(even_part(m)) + 2 * spread(odd_part(m)),
    decreases m,
{
    if m == 1 {
        assert(even_part(1) == 1 + 2 * even_part(0));
        assert(odd_part(1) == even_part(0));
        assert(spread(1) == 1 + 4 * spread(0));
    } else if m > 1 {
        let q = m / 4;
        lemma_even_odd_parts(q);
        let e = even_part(m);
        let o = odd_part(m);
        assert(e == m % 2 + 2 * even_part(q));
        assert(m / 2 / 4 == q / 2);
        assert(o == (m / 2) % 2 + 2 * even_part(m / 2 / 4));
        assert(o == (m / 2) % 2 + 2 * odd_part(q));
        assert(e % 2 == m % 2 && e / 2 == even_part(q));
        assert(o % 2 == (m / 2) % 2 && o / 2 == odd_part(q));
        lemma_spread_unfold(e);
        lemma_spread_unfold(o);
        assert(m == 4 * q + 2 * ((m / 2) % 2) + m % 2);
    }
}

/// The even part of a value below 4^k is below 2^k.
pub proof fn lemma_even_part_bound(m: nat, k: nat)
    requires
        m < pow2(2 * k),
    ensures
        even_part(m) < pow2(k),
    decreases k,
{
    if k == 0 {
        assert(pow2(0) == 1) by {
            lemma2_to64();
        }
        assert(m == 0);
        lemma_pow2_pos(0);
    } else {
        lemma_pow2_unfold(k);
        lemma_pow2_unfold(2 * k);
        lemma_pow2_unfold((2 * k - 1) as nat);
        assert((2 * k - 1 - 1) as nat == 2 * ((k - 1) as nat));
        lemma_even_part_bound(m / 4, (k - 1) as nat);
    }
}

/// Both parts of a 64-bit value fit in 32 bits, and both parts of a 32-bit
/// value fit in 16 bits.
pub proof fn lemma_parts_bounds(m: nat)
    ensures
        m < 0x1_0000_0000 ==> even_part(m) < 65536 && odd_part(m) < 65536,
        m < 0x1_0000_0000_0000_0000 ==> even_part(m) < 0x1_0000_0000 && odd_part(m)
            < 0x1_0000_0000,
{
    lemma2_to64();
    vstd::arithmetic::power2::lemma2_to64_rest();
    if m < 0x1_0000_0000 {
        lemma_even_part_bound(m, 16);
        lemma_even_part_bound(m / 2, 16);
    }
    if m < 0x1_0000_0000_0000_0000 {
        lemma_even_part_bound(m, 32);
        lemma_even_part_bound(m / 2, 32);
    }
}

/// The spreads of a 16-bit value and of its complement add up to the mask of
/// even positions.
pub proof fn lemma_spread_complement(d: nat)
    requires
        d < 65536,
    ensures
        spread(d) + spread((65535 - d) as nat) == MASK_EVEN_32,
{
    let x = d as u32;
    let y = (65535 - d) as u32;
    assert(x ^ y == 65535 && x & y == 0) by (bit_vector)
        requires
            x < 65536,
            y == 65535 - x,
    ;
    lemma_spread_add(x, y);
    reveal_with_fuel(spread, 17);
    assert(spread(0) == 0);
    assert(spread(65535) == 0x5555_5555);
}

/// Two interleaved spreads of values below 2^k stay below 4^k.
pub proof fn lemma_interleave_bound(x: nat, y: nat, k: nat)
    requires
        x < pow2(k),
        y < pow2(k),
    ensures
        spread(x) + 2 * spread(y) < pow2(2 * k),
    decreases k,
{
    if k == 0 {
        assert(pow2(0) == 1) by {
            lemma2_to64();
        }
        assert(x == 0 && y == 0);
        lemma_pow2_pos(0);
    } else {
        lemma_pow2_unfold(k);
        lemma_pow2_unfold(2 * k);
        lemma_pow2_unfold((2 * k - 1) as nat);
        assert((2 * k - 1 - 1) as nat == 2 * ((k - 1) as nat));
        lemma_interleave_bound(x / 2, y / 2, (k - 1) as nat);
        lemma_spread_unfold(x);
        lemma_spread_unfold(y);
    }
}

/// Appending a word adds it to the total.
pub proof fn lemma_halves_total_push(words: Seq<(u16, u16)>, w: (u16, u16))
    ensures
        halves_total(words.push(w)) == halves_total(words) + w.0 + 65536 * w.1,
{
    assert(words.push(w).drop_last() =~= words);
}

/// The spread of a 16-bit value.
pub fn spread_u16(x: u16) -> (r: u32)
    ensures
        r == spread(x as nat),
    decreases x,
{
    if x == 0 {
        0
    } else {
        proof {
            lemma_spread_bounds((x / 2) as nat);
        }
        let h = spread_u16(x / 2);
        (x % 2) as u32 + 4 * h
    }
}

/// The even-position bits of a 32-bit value (`even_bits` of a 32-bit array).
pub fn even_bits(m: u32) -> (r: u16)
    ensures
        r == even_part(m as nat),
    decreases m,
{
    if m == 0 {
        0
    } else {
        proof {
            lemma_parts_bounds(m as nat);
        }
        let h = even_bits(m / 4);
        (m % 2) as u16 + 2 * h
    }
}

/// The odd-position bits of a 32-bit value.
pub fn odd_bits(m: u32) -> (r: u16)
    ensures
        r == odd_part(m as nat),
{
    even_bits(m / 2)
}

/// The complement of a spread 16-bit value, computed in spread form.
pub fn negate_spread(spread_x: u32) -> (r: u32)
    requires
        spread_x <= MASK_EVEN_32,
    ensures
        r == MASK_EVEN_32 - spread_x,
        forall|d: nat|
            d < 65536 && #[trigger] spread(d) == spread_x ==> r == spread((65535 - d) as nat),
{
    proof {
        assert forall|d: nat| d < 65536 && #[trigger] spread(d) == spread_x implies MASK_EVEN_32
            - spread_x == spread((65535 - d) as nat) by {
            lemma_spread_complement(d);
        }
    }
    MASK_EVEN_32 - spread_x
}

/// The sum of the words, cut to 32 bits, and the number of times it wrapped.
pub fn sum_with_carry(words: &Vec<(u16, u16)>) -> (r: (u32, u64))
    requires
        words@.len() < 65536,
    ensures
        r.0 == halves_total(words@) % 0x1_0000_0000,
        r.1 == halves_total(words@) / 0x1_0000_0000,
{
    let mut sum: u64 = 0;
    let mut i: usize = 0;
    while i < words.len()
        invariant
            i <= words@.len(),
            words@.len() < 65536,
            sum == halves_total(words@.subrange(0, i as int)),
            sum <= i * 0x1_0000_0000,
        decreases words@.len() - i,
    {
        let (lo, hi) = words[i];
        assert(words@.subrange(0, i + 1).drop_last() =~= words@.subrange(0, i as int));
        sum = sum + lo as u64 + 65536 * (hi as u64);
        i = i + 1;
    }
    assert(words@.subrange(0, i as int) =~= words@);
    ((sum % 0x1_0000_0000) as u32, sum / 0x1_0000_0000)
}

} // verus!
