//! Little-endian bit arrays and their conversions to and from integers.
use vstd::prelude::*;

use crate::util::{lemma_spread_unfold, spread};
use vstd::arithmetic::power2::{pow2, lemma_pow2_unfold, lemma2_to64, lemma2_to64_rest};

verus! {

/// The value of little-endian bits.
pub open spec fn bits_value(b: Seq<bool>) -> nat
    decreases b.len(),
{
    if b.len() == 0 {
        0
    } else {
        (if b[0] {
            1nat
        } else {
            0nat
        }) + 2 * bits_value(b.skip(1))
    }
}

/// The spread of little-endian bits: bit `i` at position `2i`, odd
/// positions clear.
pub open spec fn spread_seq(b: Seq<bool>) -> Seq<bool> {
    Seq::new(2 * b.len(), |j: int| j % 2 == 0 && b[j / 2])
}

/// The `n` low bits of `x`, least significant first.
pub open spec fn bits_of(x: nat, n: nat) -> Seq<bool> {
    Seq::new(n, |i: int| (x / pow2(i as nat)) % 2 == 1)
}

pub proof fn lemma_bits_value_bound(b: Seq<bool>)
    ensures
        bits_value(b) < pow2(b.len()),
    decreases b.len(),
{
    if b.len() == 0 {
        lemma2_to64();
    } else {
        lemma_bits_value_bound(b.skip(1));
        lemma_pow2_unfold(b.len());
    }
}

pub proof fn lemma_spread_seq_value(b: Seq<bool>)
    ensures
        bits_value(spread_seq(b)) == spread(bits_value(b)),
    decreases b.len(),
{
    if b.len() == 0 {
        assert(spread(0) == 0);
    } else {
        let s = spread_seq(b);
        lemma_spread_seq_value(b.skip(1));
        assert(s.skip(1).skip(1) =~= spread_seq(b.skip(1)));
        assert(s[0] == b[0]);
        assert(!s.skip(1)[0]);
        assert(bits_value(s.skip(1)) == 2 * bits_value(s.skip(1).skip(1)));
        let v = bits_value(b);
        assert(v % 2 == (if b[0] {
            1nat
        } else {
            0nat
        }) && v / 2 == bits_value(b.skip(1)));
        lemma_spread_unfold(v);
    }
}

pub proof fn lemma_bits_of_value(x: nat, n: nat)
    ensures
        bits_value(bits_of(x, n)) == x % pow2(n),
    decreases n,
{
    if n == 0 {
        lemma2_to64();
    } else {
        lemma_bits_of_value(x / 2, (n - 1) as nat);
        assert forall|i: int| 0 <= i < n - 1 implies #[trigger] bits_of(x, n).skip(1)[i]
            == bits_of(x / 2, (n - 1) as nat)[i] by {
            lemma_pow2_unfold((i + 1) as nat);
            vstd::arithmetic::power2::lemma_pow2_pos(i as nat);
            vstd::arithmetic::div_mod::lemma_div_denominator(x as int, 2, pow2(i as nat) as int);
        }
        assert(bits_of(x, n).skip(1) =~= bits_of(x / 2, (n - 1) as nat));
        lemma2_to64();
        assert(pow2(0) == 1);
        assert(x / 1 == x);
        assert(bits_of(x, n)[0] == ((x / pow2(0)) % 2 == 1));
        assert(bits_of(x, n)[0] == (x % 2 == 1));
        lemma_pow2_unfold(n);
        vstd::arithmetic::power2::lemma_pow2_pos((n - 1) as nat);
        vstd::arithmetic::div_mod::lemma_mod_breakdown(x as int, 2, pow2((n - 1) as nat) as int);
    }
}

/// The integer that little-endian bits stand for.
pub fn lebs2ip<const K: usize>(bits: &[bool; K]) -> (r: u64)
    requires
        K <= 64,
    ensures
        r == bits_value(bits@),
{
    let mut acc: u64 = 0;
    let mut i: usize = K;
    while i > 0
        invariant
            i <= K,
            K <= 64,
            bits@.len() == K,
            acc == bits_value(bits@.subrange(i as int, K as int)),
        decreases i,
    {
        let ghost tail = bits@.subrange(i as int, K as int);
        proof {
            lemma_bits_value_bound(tail);
            if K - i < 63 {
                vstd::arithmetic::power2::lemma_pow2_strictly_increases((K - i) as nat, 63);
            }
            lemma2_to64_rest();
            assert(bits@.subrange(i - 1, K as int).skip(1) =~= tail);
        }
        i = i - 1;
        let bit: u64 = if bits[i] {
            1
        } else {
            0
        };
        acc = bit + 2 * acc;
    }
    assert(bits@.subrange(0, K as int) =~= bits@);
    acc
}

/// The `NUM_BITS` low bits of `value`, least significant first.
pub fn i2lebsp<const NUM_BITS: usize>(value: u64) -> (r: [bool; NUM_BITS])
    requires
        NUM_BITS <= 64,
    ensures
        r@ == bits_of(value as nat, NUM_BITS as nat),
        bits_value(r@) == value as nat % pow2(NUM_BITS as nat),
{
    let mut r: [bool; NUM_BITS] = [false; NUM_BITS];
    proof {
        lemma2_to64();
    }
    let mut cur: u64 = value;
    let mut i: usize = 0;
    while i < NUM_BITS
        invariant
            i <= NUM_BITS,
            r@.len() == NUM_BITS,
            cur == value as nat / pow2(i as nat),
            forall|k: int| 0 <= k < i ==> r@[k] == bits_of(value as nat, NUM_BITS as nat)[k],
        decreases NUM_BITS - i,
    {
        r[i] = cur % 2 == 1;
        proof {
            lemma_pow2_unfold((i + 1) as nat);
            vstd::arithmetic::power2::lemma_pow2_pos(i as nat);
            vstd::arithmetic::div_mod::lemma_div_denominator(
                value as int,
                pow2(i as nat) as int,
                2,
            );
        }
        cur = cur / 2;
        i = i + 1;
    }
    assert(r@ =~= bits_of(value as nat, NUM_BITS as nat));
    proof {
        lemma_bits_of_value(value as nat, NUM_BITS as nat);
    }
    r
}

/// Spreads little-endian bits: bit `i` goes to position `2i`.
pub fn spread_bits<const DENSE: usize, const SPREAD: usize>(bits: [bool; DENSE]) -> (r: [bool;
    SPREAD])
    requires
        SPREAD == 2 * DENSE,
    ensures
        r@ == spread_seq(bits@),
        bits_value(r@) == spread(bits_value(bits@)),
{
    let mut r: [bool; SPREAD] = [false; SPREAD];
    let mut i: usize = 0;
    while i < DENSE
        invariant
            i <= DENSE,
            SPREAD == 2 * DENSE,
            r@.len() == SPREAD,
            bits@.len() == DENSE,
            forall|j: int| 0 <= j < 2 * i ==> r@[j] == spread_seq(bits@)[j],
            forall|j: int| 2 * i <= j < SPREAD ==> !r@[j],
        decreases DENSE - i,
    {
        r[2 * i] = bits[i];
        i = i + 1;
    }
    assert(r@ =~= spread_seq(bits@));
    proof {
        lemma_spread_seq_value(bits@);
    }
    r
}

/// Little-endian bits, up to 64 of them.
#[derive(Clone, Copy, Debug)]
pub struct Bits<const LEN: usize>(pub [bool; LEN]);

impl<const LEN: usize> Bits<LEN> {
    pub open spec fn spec_value(self) -> nat {
        bits_value(self.0@)
    }

    /// The spread form of the bits.
    pub fn spread<const SPREAD: usize>(&self) -> (r: [bool; SPREAD])
        requires
            SPREAD == 2 * LEN,
        ensures
            r@ == spread_seq(self.0@),
            bits_value(r@) == spread(self.spec_value()),
    {
        spread_bits::<LEN, SPREAD>(self.0)
    }

    /// The integer the bits stand for.
    pub fn value(&self) -> (r: u64)
        requires
            LEN <= 64,
        ensures
            r == self.spec_value(),
    {
        lebs2ip(&self.0)
    }
}

impl Bits<16> {
    pub fn from_u16(value: u16) -> (r: Bits<16>)
        ensures
            r.0@ == bits_of(value as nat, 16),
            r.spec_value() == value,
    {
        proof {
            lemma2_to64();
        }
        Bits(i2lebsp::<16>(value as u64))
    }
}

impl Bits<32> {
    pub fn from_u32(value: u32) -> (r: Bits<32>)
        ensures
            r.0@ == bits_of(value as nat, 32),
            r.spec_value() == value,
    {
        proof {
            lemma2_to64();
        }
        Bits(i2lebsp::<32>(value as u64))
    }
}

} // verus!
