use winres::number::{parse_u64, push_decimal, push_hex, push_hex4};
use winres::version::{compare_versions, pack_version, version_words, Order};

#[test]
fn packs_four_words() {
    assert_eq!(pack_version(1, 2, 3, 4), 0x0001_0002_0003_0004);
    assert_eq!(pack_version(1, 0, 0, 0), 0x0001_0000_0000_0000);
    assert_eq!(pack_version(0, 0, 0, 0), 0);
    assert_eq!(pack_version(65535, 65535, 65535, 65535), u64::MAX);
}

#[test]
fn takes_a_version_apart() {
    assert_eq!(version_words(0x0001_0002_0003_0004), (1, 2, 3, 4));
    assert_eq!(version_words(0x0001_0000_0000_0000), (1, 0, 0, 0));
    assert_eq!(version_words(u64::MAX), (65535, 65535, 65535, 65535));
}

#[test]
fn pack_and_unpack_round_trip() {
    for (major, minor, patch, release) in [
        (0u16, 0u16, 0u16, 0u16),
        (1, 2, 3, 4),
        (65535, 0, 65535, 0),
        (0, 65535, 0, 65535),
        (10, 0, 17763, 132),
        (65535, 65535, 65535, 65535),
    ] {
        let packed = pack_version(major as u64, minor as u64, patch as u64, release as u64);
        assert_eq!(version_words(packed), (major, minor, patch, release));
    }
}

#[test]
fn a_part_that_is_too_large_spills_upwards() {
    assert_eq!(pack_version(0, 0x1_0000, 0, 0), 0x0001_0000_0000_0000);
    assert_eq!(pack_version(0x1_0000, 0, 0, 0), 0);
}

#[test]
fn writes_decimal() {
    let mut out = String::from(">");
    push_decimal(&mut out, 0);
    out.push(' ');
    push_decimal(&mut out, 7);
    out.push(' ');
    push_decimal(&mut out, 65535);
    out.push(' ');
    push_decimal(&mut out, u64::MAX);
    assert_eq!(out, ">0 7 65535 18446744073709551615");
}

#[test]
fn writes_hexadecimal() {
    let mut out = String::new();
    push_hex(&mut out, 0);
    out.push(' ');
    push_hex(&mut out, 0x40004);
    out.push(' ');
    push_hex(&mut out, 0x3F);
    out.push(' ');
    push_hex(&mut out, u64::MAX);
    assert_eq!(out, "0x0 0x40004 0x3f 0xffffffffffffffff");
}

#[test]
fn writes_four_hex_digits() {
    let mut out = String::new();
    push_hex4(&mut out, 0);
    out.push(' ');
    push_hex4(&mut out, 0x0409);
    out.push(' ');
    push_hex4(&mut out, 0xABCD);
    assert_eq!(out, "0000 0409 abcd");
}

#[test]
fn reads_decimal() {
    assert_eq!(parse_u64("0"), Some(0));
    assert_eq!(parse_u64("42"), Some(42));
    assert_eq!(parse_u64("+42"), Some(42));
    assert_eq!(parse_u64("007"), Some(7));
    assert_eq!(parse_u64("18446744073709551615"), Some(u64::MAX));
}

#[test]
fn rejects_what_is_no_numeral() {
    assert_eq!(parse_u64(""), None);
    assert_eq!(parse_u64("+"), None);
    assert_eq!(parse_u64("-1"), None);
    assert_eq!(parse_u64("1 "), None);
    assert_eq!(parse_u64(" 1"), None);
    assert_eq!(parse_u64("12a"), None);
    assert_eq!(parse_u64("++1"), None);
    assert_eq!(parse_u64("18446744073709551616"), None);
    assert_eq!(parse_u64("99999999999999999999999"), None);
}

#[test]
fn reads_as_std_does() {
    for text in ["", "0", "+0", "1", "+", "12x", "18446744073709551615", "18446744073709551616"] {
        assert_eq!(parse_u64(text), text.parse::<u64>().ok());
    }
}

#[test]
fn orders_versions_by_number() {
    assert_eq!(compare_versions("10.0.9", "10.0.10"), Order::Less);
    assert_eq!(compare_versions("10.0.10", "10.0.9"), Order::Greater);
    assert_eq!(compare_versions("10.0.17763.0", "10.0.14393.0"), Order::Greater);
    assert_eq!(compare_versions("9.9", "10.0"), Order::Less);
    assert_eq!(compare_versions("10.0.1", "10.0.1"), Order::Equal);
}

#[test]
fn orders_versions_of_different_length() {
    assert_eq!(compare_versions("10.0", "10.0.0"), Order::Less);
    assert_eq!(compare_versions("10.0.0", "10.0"), Order::Greater);
    assert_eq!(compare_versions("10", "9.9.9"), Order::Greater);
}

#[test]
fn ignores_leading_zeros_and_handles_huge_parts() {
    assert_eq!(compare_versions("010.000", "10.0"), Order::Equal);
    assert_eq!(
        compare_versions("1.99999999999999999999999999", "1.100000000000000000000000000"),
        Order::Less
    );
    assert_eq!(
        compare_versions("1.100000000000000000000000000", "1.100000000000000000000000000"),
        Order::Equal
    );
}

#[test]
fn a_part_counts_by_its_leading_digits() {
    assert_eq!(compare_versions("10.0.5-preview", "10.0.5"), Order::Equal);
    assert_eq!(compare_versions("beta", "0"), Order::Equal);
    assert_eq!(compare_versions("", "0"), Order::Equal);
    assert_eq!(compare_versions("1.", "1.0"), Order::Equal);
}
