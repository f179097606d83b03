use ripemd160_circuit::compression::{
    assign_digest, compress, init_with_iv, match_state, RoundWord, RoundWordDense,
    RoundWordSpread, State,
};
use ripemd160_circuit::constants::{BLOCK_SIZE, DIGEST_SIZE};
use ripemd160_circuit::gates::CompressionGate;
use ripemd160_circuit::hasher::RIPEMD160;
use ripemd160_circuit::message_schedule::{get_word_row, process};
use ripemd160_circuit::native::{
    hash, pad_message_bytes, MessageBlock, RoundFunction, State as NativeState,
};

fn inputs_outputs() -> Vec<(&'static str, &'static str)> {
    vec![
        ("", "9c1185a5c5e9fc54612808977ee8f548b2258d31"),
        ("abc", "8eb208f7e05d987a9b044a8e98c6b087f15a0bfc"),
        (
            "abcdbcdecdefdefgefghfghighijhijkijkljklmklmnlmnomnopnopq",
            "12a053384a9c0c88e405a06c27dcf49ada62eb2b",
        ),
        (
            "abcdefghijklmnopqrstuvwxyz",
            "f71c27109c692c1b56bbdceb5b9d2865b3708dbc",
        ),
    ]
}

fn from_hex(s: &str) -> Vec<u8> {
    (0..s.len())
        .step_by(2)
        .map(|i| u8::from_str_radix(&s[i..i + 2], 16).unwrap())
        .collect()
}

fn le_words(bytes: &[u8]) -> Vec<u32> {
    bytes
        .chunks(4)
        .map(|c| u32::from_le_bytes([c[0], c[1], c[2], c[3]]))
        .collect()
}

fn padded_words(msg: &[u8]) -> Vec<[u32; BLOCK_SIZE]> {
    pad_message_bytes(msg.to_vec())
        .into_iter()
        .map(|b| MessageBlock::from_bytes(b).0)
        .collect()
}

#[test]
fn test_ripemd160_circuit() {
    for (input, output) in inputs_outputs() {
        let data = padded_words(input.as_bytes());
        let digest = RIPEMD160::digest(&data);
        let expected = le_words(&from_hex(output));
        for (i, word) in digest.0.iter().enumerate() {
            assert_eq!(*word, expected[i], "input {:?}, word {}", input, i);
        }
    }
}

#[test]
fn test_compression() {
    let input_bytes = b"abc";
    let block = pad_message_bytes(input_bytes.to_vec())[0];
    let input: [u32; BLOCK_SIZE] = MessageBlock::from_bytes(block).0;
    let output: Vec<u32> = le_words(&hash(input_bytes.to_vec()));
    assert_eq!(output.len(), DIGEST_SIZE);

    let w_halves: Vec<RoundWordDense> = process(input);
    let initial_state = init_with_iv();
    let state = compress(initial_state, &w_halves);
    let (a, b, c, d, e) = match_state(state);
    let halves = [a, b.dense_halves, c.dense_halves, d.dense_halves, e];
    for (row, h) in halves.iter().enumerate() {
        assert!(CompressionGate::s_decompose_word(h.0 as u64, h.1 as u64, output[row] as u64));
    }
    let digest = assign_digest(state);
    assert_eq!(digest.to_vec(), output, "{:?}", digest);
}

#[test]
fn circuit_digest_matches_hash_across_padding_boundaries() {
    for len in [0usize, 1, 54, 55, 56, 57, 63, 64, 65, 119, 120, 121, 128] {
        let msg: Vec<u8> = (0..len).map(|i| (i * 7 + 3) as u8).collect();
        let native = hash(msg.clone());
        let circuit = RIPEMD160::hash_message(msg.clone());
        assert_eq!(native, circuit, "length {}", len);
        let data = padded_words(&msg);
        let words = RIPEMD160::digest(&data);
        assert_eq!(words.0.to_vec(), le_words(&native), "length {}", len);
    }
}

#[test]
fn hasher_update_in_two_steps_matches_one_step() {
    let msg: Vec<u8> = (0..150u32).map(|i| (i % 251) as u8).collect();
    let data = padded_words(&msg);
    assert_eq!(data.len(), 3);
    let mut hasher = RIPEMD160::new();
    hasher.update(&data[..1].to_vec());
    hasher.update(&data[1..].to_vec());
    let split = hasher.finalize();
    let whole = RIPEMD160::digest(&data);
    assert_eq!(split.0, whole.0);
}

#[test]
fn word_rows() {
    assert_eq!(get_word_row(0), 0);
    assert_eq!(get_word_row(3), 48);
    assert_eq!(get_word_row(16), 256);
}

#[test]
fn state_words_and_values() {
    let empty = State::empty_state();
    assert!(empty.a.is_none() && empty.e.is_none());
    let s = NativeState::from_words([1, 2, 3, 4, 5]);
    assert_eq!(s.to_words(), [1, 2, 3, 4, 5]);
    assert_eq!(s.to_bytes()[..8], [1, 0, 0, 0, 2, 0, 0, 0]);
    let spread = RoundWordSpread(0x5555_5555, 1);
    assert_eq!(spread.value(), 0x1_5555_5555);
    let w = RoundWord::new(RoundWordDense(0xffff, 0), spread);
    assert_eq!(w.dense_halves.value(), 0xffff);
    let (b, c, d) = (0xf0f0_f0f0u32, 0xcccc_ccccu32, 0xaaaa_aaaau32);
    assert_eq!(RoundFunction::left(0).eval(b, c, d), b ^ c ^ d);
    assert_eq!(RoundFunction::right(0).eval(b, c, d), b ^ (c | !d));
    assert_eq!(RoundFunction::left(3).eval(b, c, d), (b & d) | (c & !d));
}
