use ripemd160_circuit::bits::{i2lebsp, lebs2ip, spread_bits, Bits};
use ripemd160_circuit::spread_table::{get_tag, SpreadTable, SpreadWord};
use ripemd160_circuit::util::{even_bits, negate_spread, odd_bits, spread_u16, sum_with_carry};

#[test]
fn lookup_table() {
    let table = SpreadTable::generate();
    let rows: Vec<(u64, u64, u64)> = vec![
        (0, 0b000, 0b000000),
        (0, 0b001, 0b000001),
        (0, 0b010, 0b000100),
        (0, 0b011, 0b000101),
        (0, 0b100, 0b010000),
        (0, 0b101, 0b010001),
        (0, 0b1111_1111, 0b0101_0101_0101_0101),
        (1, 0b1_0000_0000, 0b01_0000_0000_0000_0000),
        (1, 0b1_1111_1111, 0b01_0101_0101_0101_0101),
        (2, 0b10_0000_0000, 0b0100_0000_0000_0000_0000),
        (2, 0b11_1111_1111, 0b0101_0101_0101_0101_0101),
        (3, 0b100_0000_0000, 0b01_0000_0000_0000_0000_0000),
        (3, 0b111_1111_1111, 0b0101010101010101010101),
        (4, 0b1000_0000_0000, 0b0100_0000_0000_0000_0000_0000),
        (4, 0b1111_1111_1111, 0b0101_0101_0101_0101_0101_0101),
        (5, 0b1_0000_0000_0000, 0b01_0000_0000_0000_0000_0000_0000),
        (5, 0b1_1111_1111_1111, 0b01010101010101010101010101),
        (6, 0b10_0000_0000_0000, 0b0100000000000000000000000000),
        (6, 0b11_1111_1111_1111, 0b0101_0101_0101_0101_0101_0101_0101),
        (7, 0b100_0000_0000_0000, 0b01_0000_0000_0000_0000_0000_0000_0000),
        (7, 0b111_1111_1111_1111, 0b010101_0101_0101_0101_0101_0101_0101),
        (8, 0b1000_0000_0000_0000, 0b0100_0000_0000_0000_0000_0000_0000_0000),
    ];
    for (tag, dense, spread) in rows {
        assert!(table.lookup(tag, dense, spread), "row ({}, {}, {})", tag, dense, spread);
    }
}

#[test]
fn table_rejects_bad_rows() {
    let table = SpreadTable::generate();
    // A value with a bit at an odd position is no spread.
    assert!(!table.lookup(0, 1, 0b10));
    assert!(!table.lookup(0, 3, 0b1010));
    // Wrong tag.
    assert!(!table.lookup(1, 0xff, 0x5555));
    // Dense value beyond 16 bits.
    assert!(!table.lookup(8, 0x1_0000, 0x1_0000_0000));
}

#[test]
fn table_has_every_value_once_in_order() {
    let table = SpreadTable::generate();
    assert_eq!(table.rows.len(), 1 << 16);
    let mut seen = std::collections::HashSet::new();
    for (i, row) in table.rows.iter().enumerate() {
        assert_eq!(row.dense as usize, i);
        assert!(seen.insert(row.spread));
        assert_eq!(*row, SpreadWord::new(i as u16));
        assert_eq!(row.spread & 0xaaaa_aaaa, 0);
    }
}

#[test]
fn table_generation_is_repeatable() {
    let a = SpreadTable::generate();
    let b = SpreadTable::generate();
    assert_eq!(a.rows, b.rows);
}

#[test]
fn tags_at_boundaries() {
    assert_eq!(get_tag(0), 0);
    assert_eq!(get_tag(0xff), 0);
    assert_eq!(get_tag(0x100), 1);
    assert_eq!(get_tag(0x1ff), 1);
    assert_eq!(get_tag(0x200), 2);
    assert_eq!(get_tag(0x7ff), 3);
    assert_eq!(get_tag(0x1000), 5);
    assert_eq!(get_tag(0x7fff), 7);
    assert_eq!(get_tag(0x8000), 8);
    assert_eq!(get_tag(0xffff), 8);
}

#[test]
fn spread_word_constructors() {
    let w = SpreadWord::new(0b1011);
    assert_eq!((w.tag, w.dense, w.spread), (0, 0b1011, 0b0100_0101));
    assert_eq!(SpreadWord::try_new(0xffff), Some(SpreadWord::new(0xffff)));
    assert_eq!(SpreadWord::try_new(0x1_0000), None);
}

#[test]
fn spread_and_parts() {
    assert_eq!(spread_u16(0), 0);
    assert_eq!(spread_u16(0xffff), 0x5555_5555);
    assert_eq!(spread_u16(0b110), 0b10100);
    let m: u32 = 0b10_01_11_00;
    assert_eq!(even_bits(m), 0b0110);
    assert_eq!(odd_bits(m), 0b1010);
    assert_eq!(even_bits(0x5555_5555), 0xffff);
    assert_eq!(odd_bits(0x5555_5555), 0);
}

#[test]
fn negate_spread_examples() {
    assert_eq!(negate_spread(0), 0x5555_5555);
    assert_eq!(negate_spread(0x5555_5555), 0);
    assert_eq!(negate_spread(spread_u16(0x00ff)), spread_u16(0xff00));
}

#[test]
fn sum_with_carry_examples() {
    assert_eq!(sum_with_carry(&vec![]), (0, 0));
    assert_eq!(sum_with_carry(&vec![(1, 2), (3, 4)]), (0x0006_0004, 0));
    let max = (0xffffu16, 0xffffu16);
    assert_eq!(sum_with_carry(&vec![max, max, max]), (0xffff_fffd, 2));
    assert_eq!(sum_with_carry(&vec![max, max, max, max]), (0xffff_fffc, 3));
}

#[test]
fn bit_conversions() {
    let bits: [bool; 16] = i2lebsp::<16>(0xa5c3);
    assert!(bits[0] && bits[1] && !bits[2]);
    assert_eq!(lebs2ip(&bits), 0xa5c3);
    let truncated: [bool; 4] = i2lebsp::<4>(0x1f);
    assert_eq!(lebs2ip(&truncated), 0xf);
    assert_eq!(lebs2ip(&[true; 64]), u64::MAX);
    let spread: [bool; 8] = spread_bits::<4, 8>([true, false, true, true]);
    assert_eq!(spread, [true, false, false, false, true, false, true, false]);
    let b = Bits::<16>::from_u16(0xffff);
    let s: [bool; 32] = b.spread::<32>();
    assert_eq!(lebs2ip(&s), 0x5555_5555);
    assert_eq!(Bits::<32>::from_u32(0xdead_beef).value(), 0xdead_beef);
}
