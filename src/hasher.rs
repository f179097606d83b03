//! The hasher built on the circuit's witness generation: it starts from the
//! initial values, compresses padded blocks one after another and reads the
//! digest words out of the final state.
use vstd::prelude::*;

use crate::compression::{State, assign_digest, compress, init_with_iv};
use crate::constants::{BLOCK_SIZE, DIGEST_SIZE, DIGEST_SIZE_BYTES};
use crate::message_schedule::process;
use crate::native::{
    MessageBlock, State as NativeState, block_words, chain, compress_spec, hash_spec,
    initial_state, pad_message_bytes, pad_spec, state_bytes,
};

verus! {

/// The chaining state after compressing the first `n` blocks, from `s`.
pub open spec fn compress_blocks(
    s: NativeState,
    blocks: Seq<[u32; BLOCK_SIZE]>,
    n: nat,
) -> NativeState
    decreases n,
{
    if n == 0 {
        s
    } else {
        compress_spec(compress_blocks(s, blocks, (n - 1) as nat), blocks[n - 1]@)
    }
}

pub open spec fn state_words(s: NativeState) -> Seq<u32> {
    seq![s.a, s.b, s.c, s.d, s.e]
}

/// The five digest words.
pub struct RIPEMD160Digest(pub [u32; DIGEST_SIZE]);

/// A hasher over padded blocks.
pub struct RIPEMD160 {
    pub state: State,
}

impl RIPEMD160 {
    /// A hasher holding the initial values.
    pub fn new() -> (r: RIPEMD160)
        ensures
            r.state.wf(),
            r.state.spec_value() == initial_state(),
    {
        RIPEMD160 { state: init_with_iv() }
    }

    /// Compresses each block in turn into the state.
    pub fn update(&mut self, data: &Vec<[u32; BLOCK_SIZE]>)
        requires
            old(self).state.wf(),
        ensures
            final(self).state.wf(),
            final(self).state.spec_value() == compress_blocks(
                old(self).state.spec_value(),
                data@,
                data@.len(),
            ),
    {
        let ghost s0 = self.state.spec_value();
        let mut i: usize = 0;
        while i < data.len()
            invariant
                i <= data@.len(),
                self.state.wf(),
                self.state.spec_value() == compress_blocks(s0, data@, i as nat),
            decreases data@.len() - i,
        {
            let w_halves = process(data[i]);
            self.state = compress(self.state, &w_halves);
            i = i + 1;
        }
    }

    /// The digest words of the current state.
    pub fn finalize(self) -> (r: RIPEMD160Digest)
        requires
            self.state.wf(),
        ensures
            r.0@ == state_words(self.state.spec_value()),
    {
        RIPEMD160Digest(assign_digest(self.state))
    }

    /// The digest words of already padded blocks.
    pub fn digest(data: &Vec<[u32; BLOCK_SIZE]>) -> (r: RIPEMD160Digest)
        ensures
            r.0@ == state_words(compress_blocks(initial_state(), data@, data@.len())),
    {
        let mut hasher = RIPEMD160::new();
        hasher.update(data);
        hasher.finalize()
    }

    /// Pads a message, runs it through the circuit's witness generation and
    /// returns the digest bytes.
    pub fn hash_message(msg: Vec<u8>) -> (r: [u8; DIGEST_SIZE_BYTES])
        requires
            msg@.len() + 128 <= usize::MAX,
        ensures
            r@ == hash_spec(msg@),
    {
        let ghost m = msg@;
        let blocks = pad_message_bytes(msg);
        let mut data: Vec<[u32; BLOCK_SIZE]> = Vec::new();
        let mut i: usize = 0;
        while i < blocks.len()
            invariant
                i <= blocks@.len(),
                data@.len() == i,
                forall|k: int|
                    0 <= k < i ==> (#[trigger] data@[k])@ == block_words(blocks@[k]@),
            decreases blocks@.len() - i,
        {
            let block = MessageBlock::from_bytes(blocks[i]);
            data.push(block.0);
            i = i + 1;
        }
        let digest = RIPEMD160::digest(&data);
        proof {
            lemma_digest_matches_hash(m, data@);
        }
        let s = NativeState::from_words(digest.0);
        s.to_bytes()
    }
}

/// The circuit's digest of the padded blocks of a message, written out
/// little-endian, is the RIPEMD-160 hash of the message.
pub proof fn lemma_digest_matches_hash(msg: Seq<u8>, blocks: Seq<[u32; BLOCK_SIZE]>)
    requires
        blocks.len() * 64 == pad_spec(msg).len(),
        forall|i: int|
            0 <= i < blocks.len() ==> (#[trigger] blocks[i])@ == block_words(
                pad_spec(msg).subrange(64 * i, 64 * i + 64),
            ),
    ensures
        state_bytes(compress_blocks(initial_state(), blocks, blocks.len())) == hash_spec(msg),
{
    lemma_compress_blocks_chain(pad_spec(msg), blocks, blocks.len());
}

proof fn lemma_compress_blocks_chain(p: Seq<u8>, blocks: Seq<[u32; BLOCK_SIZE]>, n: nat)
    requires
        n <= blocks.len(),
        blocks.len() * 64 == p.len(),
        forall|i: int|
            0 <= i < blocks.len() ==> (#[trigger] blocks[i])@ == block_words(
                p.subrange(64 * i, 64 * i + 64),
            ),
    ensures
        compress_blocks(initial_state(), blocks, n) == chain(initial_state(), p, n),
    decreases n,
{
    if n > 0 {
        lemma_compress_blocks_chain(p, blocks, (n - 1) as nat);
        assert(blocks[n - 1]@ == block_words(p.subrange(64 * (n - 1), 64 * n as int)));
    }
}

} // verus!
