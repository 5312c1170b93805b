use sfbinpack::common::arithmetic::{
    nth_set_bit_index, signed_to_unsigned, unsigned_to_signed, used_bits_safe,
};

#[test]
fn test_nth_set_bit_index() {
    let test_value = 0b10110110u64;
    assert_eq!(nth_set_bit_index(test_value, 0), 1);
    assert_eq!(nth_set_bit_index(test_value, 1), 2);
    assert_eq!(nth_set_bit_index(test_value, 2), 4);
    assert_eq!(nth_set_bit_index(test_value, 3), 5);
    assert_eq!(nth_set_bit_index(test_value, 4), 7);
}

#[test]
fn test_unsigned_to_signed() {
    assert_eq!(unsigned_to_signed(65409), -32705);
}

#[test]
fn test_unsigned_to_signed_2() {
    assert_eq!(unsigned_to_signed(24), 12);
}

#[test]
fn test_unsigned_to_signed_zero() {
    assert_eq!(unsigned_to_signed(0), 0);
}

#[test]
fn test_unsigned_to_signed_one() {
    assert_eq!(unsigned_to_signed(1), -1);
}

#[test]
fn test_unsigned_to_signed_two() {
    assert_eq!(unsigned_to_signed(2), 1);
}

#[test]
fn test_unsigned_to_signed_three() {
    assert_eq!(unsigned_to_signed(3), -2);
}

#[test]
fn test_used_bits_safe() {
    assert_eq!(used_bits_safe(0), 0);
    assert_eq!(used_bits_safe(1), 0);
    assert_eq!(used_bits_safe(12), 4);

    assert_eq!(used_bits_safe(2), 1);
    assert_eq!(used_bits_safe(4), 2);
    assert_eq!(used_bits_safe(8), 3);
    assert_eq!(used_bits_safe(1024), 10);

    assert_eq!(used_bits_safe(3), 2);
    assert_eq!(used_bits_safe(7), 3);
    assert_eq!(used_bits_safe(255), 8);

    assert_eq!(used_bits_safe(10), 4);
    assert_eq!(used_bits_safe(100), 7);
    assert_eq!(used_bits_safe(12345), 14);

    assert_eq!(used_bits_safe(u64::MAX), 64);
}

#[test]
fn zigzag_maps_small_magnitudes_to_small_codes() {
    assert_eq!(signed_to_unsigned(0), 0);
    assert_eq!(signed_to_unsigned(-1), 1);
    assert_eq!(signed_to_unsigned(1), 2);
    assert_eq!(signed_to_unsigned(-2), 3);
    assert_eq!(signed_to_unsigned(2), 4);
    assert_eq!(signed_to_unsigned(i16::MAX), 65534);
    assert_eq!(signed_to_unsigned(i16::MIN), 65535);
}

#[test]
fn zigzag_is_a_bijection_on_all_16_bit_values() {
    for u in 0..=u16::MAX {
        assert_eq!(signed_to_unsigned(unsigned_to_signed(u)), u);
    }
    for a in i16::MIN..=i16::MAX {
        assert_eq!(unsigned_to_signed(signed_to_unsigned(a)), a);
    }
}

#[test]
fn nth_set_bit_index_of_a_missing_bit_is_64() {
    assert_eq!(nth_set_bit_index(0, 0), 64);
    assert_eq!(nth_set_bit_index(0b10110110, 5), 64);
    assert_eq!(nth_set_bit_index(u64::MAX, 63), 63);
    assert_eq!(nth_set_bit_index(1u64 << 63, 0), 63);
}
