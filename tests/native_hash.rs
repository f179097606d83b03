use ripemd160_circuit::native::{f1, f2, f3, f4, f5, hash, pad_message_bytes, rol};

fn to_hex(bytes: &[u8]) -> String {
    let mut s = String::new();
    for b in bytes {
        s.push_str(&format!("{:02x}", b));
    }
    s
}

fn digest_hex(msg: &str) -> String {
    to_hex(&hash(msg.as_bytes().to_vec()))
}

#[test]
fn known_vector_empty() {
    assert_eq!(digest_hex(""), "9c1185a5c5e9fc54612808977ee8f548b2258d31");
}

#[test]
fn known_vector_abc() {
    assert_eq!(digest_hex("abc"), "8eb208f7e05d987a9b044a8e98c6b087f15a0bfc");
}

#[test]
fn known_vector_two_blocks() {
    assert_eq!(
        digest_hex("abcdbcdecdefdefgefghfghighijhijkijkljklmklmnlmnomnopnopq"),
        "12a053384a9c0c88e405a06c27dcf49ada62eb2b"
    );
}

#[test]
fn known_vector_alphabet() {
    assert_eq!(
        digest_hex("abcdefghijklmnopqrstuvwxyz"),
        "f71c27109c692c1b56bbdceb5b9d2865b3708dbc"
    );
}

#[test]
fn known_vector_message_digest() {
    assert_eq!(digest_hex("message digest"), "5d0689ef49d2fae572b881b123a85ffa21595f36");
}

#[test]
fn padding_block_counts() {
    for (len, blocks) in [(0usize, 1usize), (55, 1), (56, 2), (57, 2), (63, 2), (64, 2), (119, 2), (120, 3)] {
        let padded = pad_message_bytes(vec![0x61u8; len]);
        assert_eq!(padded.len(), blocks, "length {}", len);
        let last = padded[blocks - 1];
        let bits = (len as u64) * 8;
        assert_eq!(&last[56..], &bits.to_le_bytes()[..]);
        let flat: Vec<u8> = padded.iter().flat_map(|b| b.iter().copied()).collect();
        assert_eq!(flat[len], 0x80);
        assert!(flat[len + 1..flat.len() - 8].iter().all(|b| *b == 0));
        assert!(flat[..len].iter().all(|b| *b == 0x61));
    }
}

#[test]
fn round_functions_match_definitions() {
    let (b, c, d) = (0x1234_5678u32, 0x9abc_def0u32, 0x0f0f_f0f0u32);
    assert_eq!(f1(b, c, d), b ^ c ^ d);
    assert_eq!(f2(b, c, d), (b & c) | (!b & d));
    assert_eq!(f3(b, c, d), (b | !c) ^ d);
    assert_eq!(f4(b, c, d), (b & d) | (c & !d));
    assert_eq!(f5(b, c, d), b ^ (c | !d));
    assert_eq!(f1(0xffff_ffff, 0, 0), 0xffff_ffff);
    assert_eq!(f2(0, 0, 0xdead_beef), 0xdead_beef);
}

#[test]
fn rol_examples() {
    assert_eq!(rol(0x8000_0001, 1), 0x0000_0003);
    assert_eq!(rol(0x1234_5678, 8), 0x3456_7812);
    assert_eq!(rol(0xf000_0000, 15), 0x0000_7800);
}
