use rusty_pi::bits::{bit_clr, bit_flip, bit_is_clr, bit_is_set, bit_set, bits_eq, bits_modify};

#[test]
fn test_bit_set() {
    assert_eq!(bit_set(0b0000, 1), 0b0010);
    assert_eq!(bit_set(0b1010, 2), 0b1110);
}

#[test]
fn test_bit_clr() {
    assert_eq!(bit_clr(0b1111, 1), 0b1101);
    assert_eq!(bit_clr(0b1010, 2), 0b1010); // Already cleared
}

#[test]
fn test_bit_flip() {
    assert_eq!(bit_flip(0b1001, 3), 0b0001);
    assert_eq!(bit_flip(0b0000, 0), 0b0001);
}

#[test]
fn test_bit_is_set() {
    assert!(bit_is_set(0b1010, 3)); // bit 3 is set
    assert!(!bit_is_set(0b1010, 2)); // bit 2 is not set
}

#[test]
fn test_bit_is_clr() {
    assert!(bit_is_clr(0b1010, 2)); // bit 2 is cleared
    assert!(!bit_is_clr(0b1010, 3)); // bit 3 is set
}

#[test]
fn test_bits_modify() {
    assert_eq!(bits_modify(0b00000000, 4, 2, 0b101), 0b00010100);
    assert_eq!(bits_modify(0b11111111, 3, 1, 0b001), 0b11110011);
}

#[test]
fn test_bits_eq() {
    assert!(bits_eq(0b10110011, 4, 2, 0b100));
    assert!(!bits_eq(0b10110011, 4, 2, 0b111));
}

#[test]
fn test_bit_flip_twice_returns_original() {
    for i in [0u8, 7, 13, 31] {
        let x = 0xA5A5_5A5Au32;
        assert_eq!(bit_flip(bit_flip(x, i), i), x);
    }
}

#[test]
fn test_bits_modify_leaves_other_bits() {
    let x = 0xFFFF_FFFFu32;
    let r = bits_modify(x, 11, 8, 0x0);
    assert_eq!(r, 0xFFFF_F0FF);
    let r2 = bits_modify(0, 31, 28, 0x7);
    assert_eq!(r2, 0x7000_0000);
}
