use wol_server::hex::hex_digit;

#[test]
fn decimal_digits_have_their_value() {
    for (value, c) in ('0'..='9').enumerate() {
        assert_eq!(hex_digit(c), Some(value as u8));
    }
}

#[test]
fn letters_count_from_ten_in_either_case() {
    for (offset, c) in ('a'..='f').enumerate() {
        assert_eq!(hex_digit(c), Some(10 + offset as u8));
    }
    for (offset, c) in ('A'..='F').enumerate() {
        assert_eq!(hex_digit(c), Some(10 + offset as u8));
    }
    assert_eq!(hex_digit('f'), Some(15));
    assert_eq!(hex_digit('F'), Some(15));
}

#[test]
fn other_characters_are_no_digits() {
    for c in ['g', 'G', 'z', '/', ':', '@', '`', ' ', '+', '-', 'x', '\u{e9}', '\u{ff10}'] {
        assert_eq!(hex_digit(c), None);
    }
}
