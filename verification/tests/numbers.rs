use shittuber::number::{decimal_chars, parse_hex_u32, parse_u16};

fn cs(s: &str) -> Vec<char> {
    s.chars().collect()
}

#[test]
fn u16_parses_as_rust_does() {
    for s in ["0", "7", "007", "+7", "65535", "65536", "", "+", "-1", " 5", "5 ", "1_0", "99999999999", "+-1"] {
        assert_eq!(parse_u16(&cs(s)), s.parse::<u16>().ok(), "{:?}", s);
    }
}

#[test]
fn hex_parses_as_rust_does() {
    for s in ["00FF00", "ff", "FfFf", "+a", "FFFFFFFF", "100000000", "", "g", "0x10", "-0", "00000000000000001"] {
        assert_eq!(parse_hex_u32(&cs(s)), u32::from_str_radix(s, 16).ok(), "{:?}", s);
    }
    assert_eq!(parse_hex_u32(&cs("00FF00")), Some(0x00ff00));
}

#[test]
fn decimals_are_written_without_leading_zeros() {
    assert_eq!(decimal_chars(0), cs("0"));
    assert_eq!(decimal_chars(1234), cs("1234"));
    assert_eq!(decimal_chars(u64::MAX), cs(&u64::MAX.to_string()));
}

#[test]
fn written_numbers_read_back() {
    for n in [0u16, 9, 10, 255, 0xffff, 0xff1b] {
        assert_eq!(parse_u16(&decimal_chars(n as u64)), Some(n));
    }
}
