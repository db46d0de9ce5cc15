use remu::text::{decimal, hex_upper, parse_entry_address, push_digits};

#[test]
fn hex_upper_values() {
    assert_eq!(hex_upper(0), "0");
    assert_eq!(hex_upper(0xF), "F");
    assert_eq!(hex_upper(0x10), "10");
    assert_eq!(hex_upper(0x401F8C), "401F8C");
    assert_eq!(hex_upper(u64::MAX), "FFFFFFFFFFFFFFFF");
    assert_eq!(hex_upper(0x401F8C), format!("{:X}", 0x401F8Cu64));
}

#[test]
fn decimal_values() {
    assert_eq!(decimal(0), "0");
    assert_eq!(decimal(9), "9");
    assert_eq!(decimal(12345), "12345");
    assert_eq!(decimal(u64::MAX), u64::MAX.to_string());
}

#[test]
fn push_digits_appends() {
    let mut s = String::from("x=");
    push_digits(&mut s, 255, 16);
    push_digits(&mut s, 255, 10);
    assert_eq!(s, "x=FF255");
}

#[test]
fn parse_with_and_without_prefix() {
    assert_eq!(parse_entry_address("0x00401F8C"), Some(0x401F8C));
    assert_eq!(parse_entry_address("401f8c"), Some(0x401F8C));
    assert_eq!(parse_entry_address("0x10"), Some(0x10));
    assert_eq!(parse_entry_address("10"), Some(0x10));
    assert_eq!(parse_entry_address("0"), Some(0));
    assert_eq!(parse_entry_address("+ff"), Some(0xFF));
    assert_eq!(parse_entry_address("0x+1"), Some(1));
    assert_eq!(parse_entry_address("FFFFFFFFFFFFFFFF"), Some(u64::MAX));
}

#[test]
fn parse_rejects() {
    assert_eq!(parse_entry_address(""), None);
    assert_eq!(parse_entry_address("0x"), None);
    assert_eq!(parse_entry_address("+"), None);
    assert_eq!(parse_entry_address("0X10"), None);
    assert_eq!(parse_entry_address("-1"), None);
    assert_eq!(parse_entry_address("12g"), None);
    assert_eq!(parse_entry_address(" 12"), None);
    assert_eq!(parse_entry_address("10000000000000000"), None);
}

#[test]
fn parse_agrees_with_std() {
    for s in ["1a2B", "+7", "ffffffffffffffff", "10000000000000000", "", "+", "x1", "00"] {
        assert_eq!(parse_entry_address(s), u64::from_str_radix(s, 16).ok(), "{}", s);
    }
}

#[test]
fn formatted_address_parses_back() {
    for v in [0u64, 1, 0x401F8C, 0xDEADBEEF, u64::MAX] {
        let h = hex_upper(v);
        assert_eq!(parse_entry_address(&h), Some(v));
        assert_eq!(parse_entry_address(&format!("0x{}", h)), Some(v));
    }
}
