use chip8_lib::key_for_code;

#[test]
fn digit_codes_stand_for_keys_zero_to_nine() {
    for d in 0..10u32 {
        assert_eq!(key_for_code(48 + d), Some(d as u8));
    }
}

#[test]
fn letter_codes_stand_for_keys_ten_to_fifteen() {
    assert_eq!(key_for_code(97), Some(0xA));
    assert_eq!(key_for_code(98), Some(0xB));
    assert_eq!(key_for_code(99), Some(0xC));
    assert_eq!(key_for_code(100), Some(0xD));
    assert_eq!(key_for_code(101), Some(0xE));
    assert_eq!(key_for_code(102), Some(0xF));
}

#[test]
fn other_codes_stand_for_no_key() {
    assert_eq!(key_for_code(0), None);
    assert_eq!(key_for_code(47), None);
    assert_eq!(key_for_code(58), None);
    assert_eq!(key_for_code(65), None);
    assert_eq!(key_for_code(96), None);
    assert_eq!(key_for_code(103), None);
    assert_eq!(key_for_code(u32::MAX), None);
}
