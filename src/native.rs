//! Plain (non-circuit) RIPEMD-160: padding, the round functions, the two
//! lanes of the compression function and the full hash.
use vstd::prelude::*;

use crate::constants::{
    BLOCK_SIZE, BLOCK_SIZE_BYTES, DIGEST_SIZE_BYTES, INITIAL_VALUES, MSG_SEL_IDX_LEFT,
    MSG_SEL_IDX_RIGHT, ROL_AMOUNT_LEFT, ROL_AMOUNT_RIGHT, ROUNDS, ROUND_CONSTANTS_LEFT,
    ROUND_CONSTANTS_RIGHT, ROUND_PHASE_SIZE, lemma_round_tables_in_range,
};

verus! {

/// The five chaining words.
#[derive(Clone, Copy, Debug, PartialEq, Eq, Structural)]
pub struct State {
    pub a: u32,
    pub b: u32,
    pub c: u32,
    pub d: u32,
    pub e: u32,
}

/// The sixteen words of one message block.
#[derive(Clone, Copy)]
pub struct MessageBlock(pub [u32; BLOCK_SIZE]);

/// The five round functions, in the order in which the left lane uses them.
#[derive(Clone, Copy, Debug, PartialEq, Eq, Structural)]
pub enum RoundFunction {
    F1,
    F2,
    F3,
    F4,
    F5,
}

pub open spec fn add32(x: u32, y: u32) -> u32 {
    ((x + y) % 0x1_0000_0000) as u32
}

pub open spec fn f1_spec(x: u32, y: u32, z: u32) -> u32 {
    x ^ y ^ z
}

pub open spec fn f2_spec(x: u32, y: u32, z: u32) -> u32 {
    (x & y) | (!x & z)
}

pub open spec fn f3_spec(x: u32, y: u32, z: u32) -> u32 {
    (x | !y) ^ z
}

pub open spec fn f4_spec(x: u32, y: u32, z: u32) -> u32 {
    (x & z) | (y & !z)
}

pub open spec fn f5_spec(x: u32, y: u32, z: u32) -> u32 {
    x ^ (y | !z)
}

/// Left rotation of a 32-bit word by `amount` bits, for `0 < amount < 32`.
pub open spec fn rol_spec(word: u32, amount: u32) -> u32 {
    (word << amount) | (word >> ((32 - amount) as u32))
}

impl RoundFunction {
    pub open spec fn spec_eval(self, x: u32, y: u32, z: u32) -> u32 {
        match self {
            RoundFunction::F1 => f1_spec(x, y, z),
            RoundFunction::F2 => f2_spec(x, y, z),
            RoundFunction::F3 => f3_spec(x, y, z),
            RoundFunction::F4 => f4_spec(x, y, z),
            RoundFunction::F5 => f5_spec(x, y, z),
        }
    }

    /// The function of a phase (0..5) on the left lane: f1, f2, f3, f4, f5.
    pub open spec fn spec_left(phase: int) -> RoundFunction {
        if phase == 0 {
            RoundFunction::F1
        } else if phase == 1 {
            RoundFunction::F2
        } else if phase == 2 {
            RoundFunction::F3
        } else if phase == 3 {
            RoundFunction::F4
        } else {
            RoundFunction::F5
        }
    }

    /// The right lane runs the functions in reverse order.
    pub open spec fn spec_right(phase: int) -> RoundFunction {
        RoundFunction::spec_left(4 - phase)
    }

    pub fn eval(self, x: u32, y: u32, z: u32) -> (r: u32)
        ensures
            r == self.spec_eval(x, y, z),
    {
        match self {
            RoundFunction::F1 => f1(x, y, z),
            RoundFunction::F2 => f2(x, y, z),
            RoundFunction::F3 => f3(x, y, z),
            RoundFunction::F4 => f4(x, y, z),
            RoundFunction::F5 => f5(x, y, z),
        }
    }

    pub fn left(phase: usize) -> (r: RoundFunction)
        requires
            phase < 5,
        ensures
            r == RoundFunction::spec_left(phase as int),
    {
        if phase == 0 {
            RoundFunction::F1
        } else if phase == 1 {
            RoundFunction::F2
        } else if phase == 2 {
            RoundFunction::F3
        } else if phase == 3 {
            RoundFunction::F4
        } else {
            RoundFunction::F5
        }
    }

    pub fn right(phase: usize) -> (r: RoundFunction)
        requires
            phase < 5,
        ensures
            r == RoundFunction::spec_right(phase as int),
    {
        RoundFunction::left(4 - phase)
    }
}

/// One round of the left lane (round `j`, 0..80).
#[verifier::opaque]
pub open spec fn left_step_spec(j: int, s: State, block: Seq<u32>) -> State {
    let f = RoundFunction::spec_left(j / 16).spec_eval(s.b, s.c, s.d);
    let m = block[MSG_SEL_IDX_LEFT@[j] as int];
    let k = ROUND_CONSTANTS_LEFT@[j / 16];
    let t = add32(
        rol_spec(add32(add32(add32(s.a, f), m), k), ROL_AMOUNT_LEFT@[j] as u32),
        s.e,
    );
    State { a: s.e, b: t, c: s.b, d: rol_spec(s.c, 10), e: s.d }
}

/// One round of the right lane (round `j`, 0..80).
#[verifier::opaque]
pub open spec fn right_step_spec(j: int, s: State, block: Seq<u32>) -> State {
    let f = RoundFunction::spec_right(j / 16).spec_eval(s.b, s.c, s.d);
    let m = block[MSG_SEL_IDX_RIGHT@[j] as int];
    let k = ROUND_CONSTANTS_RIGHT@[j / 16];
    let t = add32(
        rol_spec(add32(add32(add32(s.a, f), m), k), ROL_AMOUNT_RIGHT@[j] as u32),
        s.e,
    );
    State { a: s.e, b: t, c: s.b, d: rol_spec(s.c, 10), e: s.d }
}

/// The left lane after its first `n` rounds.
pub open spec fn left_rounds(s: State, block: Seq<u32>, n: nat) -> State
    decreases n,
{
    if n == 0 {
        s
    } else {
        left_step_spec(n - 1, left_rounds(s, block, (n - 1) as nat), block)
    }
}

/// The right lane after its first `n` rounds.
pub open spec fn right_rounds(s: State, block: Seq<u32>, n: nat) -> State
    decreases n,
{
    if n == 0 {
        s
    } else {
        right_step_spec(n - 1, right_rounds(s, block, (n - 1) as nat), block)
    }
}

/// The word-wise combination of the initial state with the two lane results.
pub open spec fn combine_spec(prev: State, l: State, r: State) -> State {
    State {
        a: add32(add32(prev.b, l.c), r.d),
        b: add32(add32(prev.c, l.d), r.e),
        c: add32(add32(prev.d, l.e), r.a),
        d: add32(add32(prev.e, l.a), r.b),
        e: add32(add32(prev.a, l.b), r.c),
    }
}

/// The compression function on one block of sixteen words.
pub open spec fn compress_spec(s: State, block: Seq<u32>) -> State {
    combine_spec(s, left_rounds(s, block, 80), right_rounds(s, block, 80))
}

pub open spec fn initial_state() -> State {
    State {
        a: INITIAL_VALUES@[0],
        b: INITIAL_VALUES@[1],
        c: INITIAL_VALUES@[2],
        d: INITIAL_VALUES@[3],
        e: INITIAL_VALUES@[4],
    }
}

/// The `n` low-order bytes of `x`, least significant first.
pub open spec fn le_bytes(x: nat, n: nat) -> Seq<u8>
    decreases n,
{
    if n == 0 {
        Seq::empty()
    } else {
        seq![(x % 256) as u8].add(le_bytes(x / 256, (n - 1) as nat))
    }
}

/// Number of zero bytes placed between the `0x80` marker and the length field.
pub open spec fn pad_zero_count(len: nat) -> nat {
    let gap = 64 - (len + 1) % 64;
    if gap < 8 {
        (gap + 56) as nat
    } else {
        (gap - 8) as nat
    }
}

/// The padded message: the bytes, `0x80`, zeros, then the bit length
/// (modulo 2^64) as eight little-endian bytes.
pub open spec fn pad_spec(msg: Seq<u8>) -> Seq<u8> {
    msg.add(seq![0x80u8]).add(Seq::new(pad_zero_count(msg.len()), |i: int| 0u8)).add(
        le_bytes((msg.len() * 8) % 0x1_0000_0000_0000_0000, 8),
    )
}

/// The word at index `i` of a block, read as a little-endian integer.
pub open spec fn le_word(bytes: Seq<u8>, i: int) -> u32 {
    (bytes[4 * i] + 256 * bytes[4 * i + 1] + 65536 * bytes[4 * i + 2] + 16777216 * bytes[4
        * i + 3]) as u32
}

/// The sixteen words of a 64-byte block.
pub open spec fn block_words(bytes: Seq<u8>) -> Seq<u32> {
    Seq::new(16, |i: int| le_word(bytes, i))
}

/// The chaining state after the first `n` blocks of a padded message.
pub open spec fn chain(s: State, padded: Seq<u8>, n: nat) -> State
    decreases n,
{
    if n == 0 {
        s
    } else {
        compress_spec(
            chain(s, padded, (n - 1) as nat),
            block_words(padded.subrange(64 * (n - 1), 64 * n as int)),
        )
    }
}

pub open spec fn state_bytes(s: State) -> Seq<u8> {
    le_bytes(s.a as nat, 4).add(le_bytes(s.b as nat, 4)).add(le_bytes(s.c as nat, 4)).add(
        le_bytes(s.d as nat, 4),
    ).add(le_bytes(s.e as nat, 4))
}

/// RIPEMD-160 of a byte string.
pub open spec fn hash_spec(msg: Seq<u8>) -> Seq<u8> {
    let p = pad_spec(msg);
    state_bytes(chain(initial_state(), p, p.len() / 64))
}

impl MessageBlock {
    pub open spec fn view_words(&self) -> Seq<u32> {
        self.0@
    }

    pub fn get_word(&self, index: usize) -> (r: u32)
        requires
            index < BLOCK_SIZE,
        ensures
            r == self.view_words()[index as int],
    {
        self.0[index]
    }

    /// Reads sixteen little-endian words from a 64-byte block.
    pub fn from_bytes(s: [u8; BLOCK_SIZE_BYTES]) -> (r: MessageBlock)
        ensures
            r.view_words() == block_words(s@),
    {
        let mut words: [u32; BLOCK_SIZE] = [0u32; BLOCK_SIZE];
        let mut i: usize = 0;
        while i < BLOCK_SIZE
            invariant
                i <= BLOCK_SIZE,
                words@.len() == 16,
                forall|k: int| 0 <= k < i ==> words@[k] == le_word(s@, k),
            decreases BLOCK_SIZE - i,
        {
            let w: u32 = s[4 * i] as u32 + 256 * (s[4 * i + 1] as u32) + 65536 * (s[4 * i
                + 2] as u32) + 16777216 * (s[4 * i + 3] as u32);
            words[i] = w;
            i = i + 1;
        }
        assert(words@ =~= block_words(s@));
        MessageBlock(words)
    }
}

impl State {
    pub open spec fn spec_from_words(w: Seq<u32>) -> State {
        State { a: w[0], b: w[1], c: w[2], d: w[3], e: w[4] }
    }

    pub fn from_words(s: [u32; 5]) -> (r: State)
        ensures
            r == State::spec_from_words(s@),
    {
        State { a: s[0], b: s[1], c: s[2], d: s[3], e: s[4] }
    }

    pub fn to_words(&self) -> (r: [u32; 5])
        ensures
            r@ == seq![self.a, self.b, self.c, self.d, self.e],
    {
        let r: [u32; 5] = [self.a, self.b, self.c, self.d, self.e];
        assert(r@ =~= seq![self.a, self.b, self.c, self.d, self.e]);
        r
    }

    /// The digest bytes: each word little-endian, in the order a, b, c, d, e.
    pub fn to_bytes(&self) -> (r: [u8; DIGEST_SIZE_BYTES])
        ensures
            r@ == state_bytes(*self),
    {
        let a = word_to_le_bytes(self.a);
        let b = word_to_le_bytes(self.b);
        let c = word_to_le_bytes(self.c);
        let d = word_to_le_bytes(self.d);
        let e = word_to_le_bytes(self.e);
        let r: [u8; DIGEST_SIZE_BYTES] = [
            a[0], a[1], a[2], a[3], b[0], b[1], b[2], b[3], c[0], c[1], c[2], c[3], d[0], d[1],
            d[2], d[3], e[0], e[1], e[2], e[3],
        ];
        assert(r@ =~= state_bytes(*self));
        r
    }
}

/// The four bytes of a word, least significant first.
fn word_to_le_bytes(w: u32) -> (r: [u8; 4])
    ensures
        r@ == le_bytes(w as nat, 4),
{
    proof {
        lemma_le_bytes_4(w as nat);
    }
    let r: [u8; 4] = [
        (w % 256) as u8,
        ((w / 256) % 256) as u8,
        ((w / 65536) % 256) as u8,
        ((w / 16777216) % 256) as u8,
    ];
    assert(r@ =~= le_bytes(w as nat, 4));
    r
}

proof fn lemma_le_bytes_4(x: nat)
    ensures
        le_bytes(x, 4) == seq![
            (x % 256) as u8,
            ((x / 256) % 256) as u8,
            ((x / 65536) % 256) as u8,
            ((x / 16777216) % 256) as u8,
        ],
{
    reveal_with_fuel(le_bytes, 5);
    assert(x / 256 / 256 == x / 65536) by (nonlinear_arith);
    assert(x / 256 / 256 / 256 == x / 16777216) by (nonlinear_arith);
    assert(le_bytes(x, 4) =~= seq![
        (x % 256) as u8,
        ((x / 256) % 256) as u8,
        ((x / 65536) % 256) as u8,
        ((x / 16777216) % 256) as u8,
    ]);
}

pub fn f1(x: u32, y: u32, z: u32) -> (r: u32)
    ensures
        r == f1_spec(x, y, z),
{
    x ^ y ^ z
}

pub fn f2(x: u32, y: u32, z: u32) -> (r: u32)
    ensures
        r == f2_spec(x, y, z),
{
    (x & y) | (!x & z)
}

pub fn f3(x: u32, y: u32, z: u32) -> (r: u32)
    ensures
        r == f3_spec(x, y, z),
{
    (x | !y) ^ z
}

pub fn f4(x: u32, y: u32, z: u32) -> (r: u32)
    ensures
        r == f4_spec(x, y, z),
{
    (x & z) | (y & !z)
}

pub fn f5(x: u32, y: u32, z: u32) -> (r: u32)
    ensures
        r == f5_spec(x, y, z),
{
    x ^ (y | !z)
}

/// Left rotation by `amount` bits.
pub fn rol(word: u32, amount: u8) -> (r: u32)
    requires
        0 < amount < 16,
    ensures
        r == rol_spec(word, amount as u32),
{
    let amount: u32 = amount as u32;
    (word << amount) | (word >> (32 - amount))
}

/// Addition modulo 2^32.
pub fn add32_exec(x: u32, y: u32) -> (r: u32)
    ensures
        r == add32(x, y),
{
    if x as u64 + y as u64 >= 0x1_0000_0000 {
        (x as u64 + y as u64 - 0x1_0000_0000) as u32
    } else {
        x + y
    }
}

pub fn left_step(round_idx: usize, s: State, msg_block: MessageBlock) -> (r: State)
    requires
        round_idx < ROUNDS,
    ensures
        r == left_step_spec(round_idx as int, s, msg_block.view_words()),
{
    proof {
        lemma_round_tables_in_range(round_idx as int);
        reveal(left_step_spec);
    }
    let f = RoundFunction::left(round_idx / ROUND_PHASE_SIZE);
    let m = msg_block.get_word(MSG_SEL_IDX_LEFT[round_idx]);
    let k = ROUND_CONSTANTS_LEFT[round_idx / ROUND_PHASE_SIZE];
    let shift = ROL_AMOUNT_LEFT[round_idx];
    let sum = add32_exec(add32_exec(add32_exec(s.a, f.eval(s.b, s.c, s.d)), m), k);
    let t = add32_exec(rol(sum, shift), s.e);
    State { a: s.e, b: t, c: s.b, d: rol(s.c, 10), e: s.d }
}

pub fn right_step(round_idx: usize, s: State, msg_block: MessageBlock) -> (r: State)
    requires
        round_idx < ROUNDS,
    ensures
        r == right_step_spec(round_idx as int, s, msg_block.view_words()),
{
    proof {
        lemma_round_tables_in_range(round_idx as int);
        reveal(right_step_spec);
    }
    let f = RoundFunction::right(round_idx / ROUND_PHASE_SIZE);
    let m = msg_block.get_word(MSG_SEL_IDX_RIGHT[round_idx]);
    let k = ROUND_CONSTANTS_RIGHT[round_idx / ROUND_PHASE_SIZE];
    let shift = ROL_AMOUNT_RIGHT[round_idx];
    let sum = add32_exec(add32_exec(add32_exec(s.a, f.eval(s.b, s.c, s.d)), m), k);
    let t = add32_exec(rol(sum, shift), s.e);
    State { a: s.e, b: t, c: s.b, d: rol(s.c, 10), e: s.d }
}

pub fn combine_left_right_states(prev: State, l: State, r: State) -> (next: State)
    ensures
        next == combine_spec(prev, l, r),
{
    State {
        a: add32_exec(add32_exec(prev.b, l.c), r.d),
        b: add32_exec(add32_exec(prev.c, l.d), r.e),
        c: add32_exec(add32_exec(prev.d, l.e), r.a),
        d: add32_exec(add32_exec(prev.e, l.a), r.b),
        e: add32_exec(add32_exec(prev.a, l.b), r.c),
    }
}

/// The compression function: eighty rounds on each lane, then the combination.
pub fn get_compress_state(s: State, msg_block: MessageBlock) -> (r: State)
    ensures
        r == compress_spec(s, msg_block.view_words()),
{
    let mut left_state = s;
    let mut right_state = s;
    let mut j: usize = 0;
    while j < ROUNDS
        invariant
            j <= ROUNDS,
            left_state == left_rounds(s, msg_block.view_words(), j as nat),
            right_state == right_rounds(s, msg_block.view_words(), j as nat),
        decreases ROUNDS - j,
    {
        left_state = left_step(j, left_state, msg_block);
        right_state = right_step(j, right_state, msg_block);
        j = j + 1;
    }
    combine_left_right_states(s, left_state, right_state)
}

/// The padded message has a positive length that is a multiple of 64.
pub proof fn lemma_pad_len(msg: Seq<u8>)
    ensures
        pad_spec(msg).len() == msg.len() + 1 + pad_zero_count(msg.len()) + 8,
        pad_spec(msg).len() % 64 == 0,
        pad_spec(msg).len() > 0,
{
    lemma_le_bytes_len((msg.len() * 8) % 0x1_0000_0000_0000_0000, 8);
}

proof fn lemma_le_bytes_len(x: nat, n: nat)
    ensures
        le_bytes(x, n).len() == n,
    decreases n,
{
    if n > 0 {
        lemma_le_bytes_len(x / 256, (n - 1) as nat);
    }
}

/// Pads a message as RIPEMD-160 prescribes and cuts it into 64-byte blocks.
pub fn pad_message_bytes(msg_bytes: Vec<u8>) -> (r: Vec<[u8; BLOCK_SIZE_BYTES]>)
    requires
        msg_bytes@.len() + 128 <= usize::MAX,
    ensures
        r@.len() * 64 == pad_spec(msg_bytes@).len(),
        forall|i: int|
            0 <= i < r@.len() ==> (#[trigger] r@[i])@ == pad_spec(msg_bytes@).subrange(
                64 * i,
                64 * i + 64,
            ),
{
    let ghost target = pad_spec(msg_bytes@);
    proof {
        lemma_pad_len(msg_bytes@);
    }
    let len = msg_bytes.len();
    let mut padded: Vec<u8> = Vec::new();
    let mut i: usize = 0;
    while i < len
        invariant
            i <= len,
            len == msg_bytes@.len(),
            padded@ == msg_bytes@.subrange(0, i as int),
        decreases len - i,
    {
        padded.push(msg_bytes[i]);
        i = i + 1;
        assert(padded@ =~= msg_bytes@.subrange(0, i as int));
    }
    assert(padded@ =~= msg_bytes@);
    padded.push(0x80u8);

    let gap: usize = BLOCK_SIZE_BYTES - (padded.len() % BLOCK_SIZE_BYTES);
    let zeros: usize = if gap < 8 {
        gap + 56
    } else {
        gap - 8
    };
    assert(zeros == pad_zero_count(len as nat));
    let mut z: usize = 0;
    while z < zeros
        invariant
            z <= zeros,
            zeros == pad_zero_count(len as nat),
            len == msg_bytes@.len(),
            len + 128 <= usize::MAX,
            zeros <= 64,
            padded@ == msg_bytes@.add(seq![0x80u8]).add(Seq::new(z as nat, |k: int| 0u8)),
        decreases zeros - z,
    {
        padded.push(0u8);
        z = z + 1;
        assert(padded@ =~= msg_bytes@.add(seq![0x80u8]).add(Seq::new(z as nat, |k: int| 0u8)));
    }

    let ghost prefix = padded@;
    let bit_len: u64 = ((len as u64) % 0x2000_0000_0000_0000) * 8;
    assert(bit_len == (len * 8) % 0x1_0000_0000_0000_0000) by (nonlinear_arith)
        requires
            bit_len == ((len as u64) % 0x2000_0000_0000_0000) * 8,
    ;
    let mut cur: u64 = bit_len;
    let mut k: usize = 0;
    while k < 8
        invariant
            k <= 8,
            padded@.len() == prefix.len() + k,
            prefix.len() == len + 1 + zeros,
            zeros <= 64,
            len + 128 <= usize::MAX,
            padded@.add(le_bytes(cur as nat, (8 - k) as nat)) == prefix.add(
                le_bytes(bit_len as nat, 8),
            ),
        decreases 8 - k,
    {
        let ghost before = padded@;
        padded.push((cur % 256) as u8);
        proof {
            assert(le_bytes(cur as nat, (8 - k) as nat) == seq![(cur % 256) as u8].add(
                le_bytes(cur as nat / 256, (8 - k - 1) as nat),
            ));
            assert(padded@.add(le_bytes(cur as nat / 256, (8 - k - 1) as nat)) =~= before.add(
                le_bytes(cur as nat, (8 - k) as nat),
            ));
        }
        cur = cur / 256;
        k = k + 1;
    }
    assert(padded@ =~= target);

    let n_blocks: usize = padded.len() / BLOCK_SIZE_BYTES;
    assert(target.len() <= usize::MAX);
    let mut blocks: Vec<[u8; BLOCK_SIZE_BYTES]> = Vec::new();
    let mut b: usize = 0;
    while b < n_blocks
        invariant
            b <= n_blocks,
            n_blocks * 64 == target.len(),
            target.len() <= usize::MAX,
            padded@ == target,
            blocks@.len() == b,
            forall|i: int|
                0 <= i < b ==> (#[trigger] blocks@[i])@ == target.subrange(64 * i, 64 * i + 64),
        decreases n_blocks - b,
    {
        let mut block: [u8; BLOCK_SIZE_BYTES] = [0u8; BLOCK_SIZE_BYTES];
        assert(64 * b + 64 <= n_blocks * 64) by (nonlinear_arith)
            requires
                b < n_blocks,
        ;
        let mut t: usize = 0;
        while t < BLOCK_SIZE_BYTES
            invariant
                t <= 64,
                b < n_blocks,
                n_blocks * 64 == target.len(),
                padded@ == target,
                64 * b + 64 <= target.len(),
                target.len() <= usize::MAX,
                block@.len() == 64,
                forall|q: int| 0 <= q < t ==> block@[q] == target[64 * b + q],
            decreases 64 - t,
        {
            block[t] = padded[BLOCK_SIZE_BYTES * b + t];
            t = t + 1;
        }
        assert(block@ =~= target.subrange(64 * b as int, 64 * b as int + 64));
        blocks.push(block);
        b = b + 1;
    }
    blocks
}

/// RIPEMD-160 of a byte string.
pub fn hash(msg: Vec<u8>) -> (r: [u8; DIGEST_SIZE_BYTES])
    requires
        msg@.len() + 128 <= usize::MAX,
    ensures
        r@ == hash_spec(msg@),
{
    let ghost p = pad_spec(msg@);
    let msg_blocks = pad_message_bytes(msg);
    let mut state = State::from_words(INITIAL_VALUES);
    assert(state == initial_state());
    let mut i: usize = 0;
    while i < msg_blocks.len()
        invariant
            i <= msg_blocks@.len(),
            msg_blocks@.len() * 64 == p.len(),
            forall|k: int|
                0 <= k < msg_blocks@.len() ==> (#[trigger] msg_blocks@[k])@ == p.subrange(
                    64 * k,
                    64 * k + 64,
                ),
            state == chain(initial_state(), p, i as nat),
        decreases msg_blocks@.len() - i,
    {
        let block = MessageBlock::from_bytes(msg_blocks[i]);
        assert(msg_blocks@[i as int]@ == p.subrange(64 * i as int, 64 * (i + 1) as int));
        state = get_compress_state(state, block);
        i = i + 1;
    }
    assert(p.len() / 64 == msg_blocks@.len());
    state.to_bytes()
}

} // verus!
