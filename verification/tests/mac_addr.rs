use wol_server::{MacAddr, MacAddrError};

#[test]
fn parses_colon_separated_address() {
    let mac: Result<MacAddr, MacAddrError> = "00:0a:0b:0c:0d:0e".parse();
    assert_eq!(mac, Ok(MacAddr([0x00, 0x0a, 0x0b, 0x0c, 0x0d, 0x0e])));
}

#[test]
fn parse_and_from_str_agree() {
    let text = "de:ad:be:ef:00:01";
    assert_eq!(MacAddr::parse(text), text.parse::<MacAddr>());
    assert_eq!(MacAddr::parse(text), Ok(MacAddr([0xde, 0xad, 0xbe, 0xef, 0x00, 0x01])));
}

#[test]
fn parses_dash_separated_address() {
    assert_eq!(
        MacAddr::parse("aa-bb-cc-dd-ee-ff"),
        Ok(MacAddr([0xaa, 0xbb, 0xcc, 0xdd, 0xee, 0xff]))
    );
}

#[test]
fn parses_upper_and_mixed_case() {
    assert_eq!(
        MacAddr::parse("AA:BB:CC:DD:EE:FF"),
        Ok(MacAddr([0xaa, 0xbb, 0xcc, 0xdd, 0xee, 0xff]))
    );
    assert_eq!(
        MacAddr::parse("aB:Cd:eF:01:9A:f9"),
        Ok(MacAddr([0xab, 0xcd, 0xef, 0x01, 0x9a, 0xf9]))
    );
}

#[test]
fn parses_extreme_octets() {
    assert_eq!(MacAddr::parse("00:00:00:00:00:00"), Ok(MacAddr([0; 6])));
    assert_eq!(MacAddr::parse("ff:ff:ff:ff:ff:ff"), Ok(MacAddr([0xff; 6])));
    assert_eq!(
        MacAddr::parse("09:0a:0f:10:7f:80"),
        Ok(MacAddr([0x09, 0x0a, 0x0f, 0x10, 0x7f, 0x80]))
    );
}

#[test]
fn any_single_character_may_separate() {
    let expected = Ok(MacAddr([0x01, 0x23, 0x45, 0x67, 0x89, 0xab]));
    assert_eq!(MacAddr::parse("01.23.45.67.89.ab"), expected);
    assert_eq!(MacAddr::parse("01 23 45 67 89 ab"), expected);
    assert_eq!(MacAddr::parse("01\u{e9}23\u{e9}45\u{e9}67\u{e9}89\u{e9}ab"), expected);
}

#[test]
fn a_digit_may_separate_if_no_field_holds_it() {
    assert_eq!(
        MacAddr::parse("11011011011011011"),
        Ok(MacAddr([0x11, 0x11, 0x11, 0x11, 0x11, 0x11]))
    );
    assert_eq!(
        MacAddr::parse("12a34a56a78a90abc"),
        Ok(MacAddr([0x12, 0x34, 0x56, 0x78, 0x90, 0xbc]))
    );
    assert_eq!(MacAddr::parse("aaaaaaaaaaaaaaaaa"), Err(MacAddrError {}));
    assert_eq!(MacAddr::parse("1a:1a:1a:1a:1a:1:"), Err(MacAddrError {}));
}

#[test]
fn rejects_other_lengths() {
    assert_eq!(MacAddr::parse(""), Err(MacAddrError {}));
    assert_eq!(MacAddr::parse("00"), Err(MacAddrError {}));
    assert_eq!(MacAddr::parse("not-a-mac"), Err(MacAddrError {}));
    assert_eq!(MacAddr::parse("00:0a:0b:0c:0d:0"), Err(MacAddrError {}));
    assert_eq!(MacAddr::parse("00:0a:0b:0c:0d:0e0"), Err(MacAddrError {}));
    assert_eq!(MacAddr::parse("00:0a:0b:0c:0d:0e:0f"), Err(MacAddrError {}));
    assert_eq!(MacAddr::parse("0:a:b:c:d:e"), Err(MacAddrError {}));
    assert_eq!(MacAddr::parse("000a0b0c0d0e"), Err(MacAddrError {}));
}

#[test]
fn rejects_inconsistent_separators() {
    assert_eq!(MacAddr::parse("00:0a-0b:0c:0d:0e"), Err(MacAddrError {}));
    assert_eq!(MacAddr::parse("00-0a:0b:0c:0d:0e"), Err(MacAddrError {}));
    assert_eq!(MacAddr::parse("00:0a:0b:0c:0d-0e"), Err(MacAddrError {}));
}

#[test]
fn rejects_fields_that_are_not_hexadecimal() {
    assert_eq!(MacAddr::parse("0g:0a:0b:0c:0d:0e"), Err(MacAddrError {}));
    assert_eq!(MacAddr::parse("00:0a:0b:0c:0d:zz"), Err(MacAddrError {}));
    assert_eq!(MacAddr::parse("00:0a:0b:0c:0d: e"), Err(MacAddrError {}));
    assert_eq!(MacAddr::parse("+0:0a:0b:0c:0d:0e"), Err(MacAddrError {}));
    assert_eq!(MacAddr::parse("00:0a:0b:-c:0d:0e"), Err(MacAddrError {}));
    assert_eq!(MacAddr::parse("0x:0a:0b:0c:0d:0e"), Err(MacAddrError {}));
}

#[test]
fn rejects_wrong_number_of_fields() {
    assert_eq!(MacAddr::parse("00:0a:0b:0c:0d0e0"), Err(MacAddrError {}));
    assert_eq!(MacAddr::parse("00:0a:0b:0c:0d:0:"), Err(MacAddrError {}));
    assert_eq!(MacAddr::parse("00:0:0:0:0:0:0:0"), Err(MacAddrError {}));
    assert_eq!(MacAddr::parse("00:::::::::::::::"), Err(MacAddrError {}));
}

#[test]
fn rejects_fields_of_other_widths() {
    assert_eq!(MacAddr::parse("00:0:000:0a:0b:0c"), Err(MacAddrError {}));
    assert_eq!(MacAddr::parse("00:0a0:b:0c:0d:0e"), Err(MacAddrError {}));
}

#[test]
fn renders_without_leading_zeros() {
    let mac = MacAddr([0x00, 0x0a, 0x0b, 0x0c, 0x0d, 0x0e]);
    assert_eq!(mac.render(), "0:a:b:c:d:e");
}

#[test]
fn renders_lower_case_with_colons() {
    assert_eq!(MacAddr([0xaa, 0xbb, 0xcc, 0xdd, 0xee, 0xff]).render(), "aa:bb:cc:dd:ee:ff");
    assert_eq!(MacAddr([0x10, 0x0f, 0x9a, 0xa0, 0x7f, 0x01]).render(), "10:f:9a:a0:7f:1");
    assert_eq!(MacAddr([0; 6]).render(), "0:0:0:0:0:0");
}

#[test]
fn render_of_parse_ignores_case_and_separator() {
    let upper = MacAddr::parse("AA-0B-CC-1D-EE-F0").unwrap();
    let lower = MacAddr::parse("aa:0b:cc:1d:ee:f0").unwrap();
    assert_eq!(upper, lower);
    assert_eq!(upper.render(), "aa:b:cc:1d:ee:f0");
    assert_eq!(lower.render(), "aa:b:cc:1d:ee:f0");
}

#[test]
fn rendered_fields_give_the_octets_back() {
    let mac = MacAddr::parse("00:0a:1b:c0:0d:ff").unwrap();
    let text = mac.render();
    let values: Vec<u8> = text.split(':').map(|f| u8::from_str_radix(f, 16).unwrap()).collect();
    assert_eq!(values, vec![0x00, 0x0a, 0x1b, 0xc0, 0x0d, 0xff]);
    assert_eq!(values, mac.0.to_vec());
}

#[test]
fn canonical_text_with_two_digits_throughout_reads_back() {
    let mac = MacAddr([0x10, 0x2f, 0xa0, 0xff, 0x99, 0xbc]);
    assert_eq!(mac.render(), "10:2f:a0:ff:99:bc");
    assert_eq!(MacAddr::parse(&mac.render()), Ok(mac));
}

#[test]
fn default_address_is_all_zero() {
    assert_eq!(MacAddr::default(), MacAddr([0, 0, 0, 0, 0, 0]));
}

#[test]
fn error_message_names_the_problem() {
    let err = MacAddr::parse("nonsense").unwrap_err();
    assert_eq!(err.message(), "Invalid mac address");
}
