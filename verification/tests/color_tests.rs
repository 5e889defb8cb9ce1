use autoraise_rs::color::parse_hex_color;

#[test]
fn default_border_color_components() {
    assert_eq!(parse_hex_color("#FF3366"), (0xff, 0x33, 0x66));
}

#[test]
fn lower_case_and_no_hash() {
    assert_eq!(parse_hex_color("ff3366"), (0xff, 0x33, 0x66));
    assert_eq!(parse_hex_color("#0a0B0c"), (10, 11, 12));
}

#[test]
fn every_leading_hash_is_stripped() {
    assert_eq!(parse_hex_color("##00ff00"), (0, 255, 0));
}

#[test]
fn wrong_length_is_red() {
    assert_eq!(parse_hex_color("#abc"), (255, 0, 0));
    assert_eq!(parse_hex_color(""), (255, 0, 0));
    assert_eq!(parse_hex_color("#1234567"), (255, 0, 0));
}

#[test]
fn bad_pairs_fall_back_per_component() {
    assert_eq!(parse_hex_color("#zz1234"), (255, 0x12, 0x34));
    assert_eq!(parse_hex_color("#12zz34"), (0x12, 0, 0x34));
    assert_eq!(parse_hex_color("#1234zz"), (0x12, 0x34, 0));
    assert_eq!(parse_hex_color("#-10000"), (255, 0, 0));
}

#[test]
fn plus_sign_pair_reads_one_digit() {
    assert_eq!(parse_hex_color("#+F0000"), (15, 0, 0));
}

#[test]
fn round_trip_of_formatted_colors() {
    for c in [(0u8, 0u8, 0u8), (255, 255, 255), (1, 128, 254), (0x12, 0xab, 0xcd)] {
        let s = format!("#{:02X}{:02X}{:02X}", c.0, c.1, c.2);
        assert_eq!(parse_hex_color(&s), c);
    }
}
