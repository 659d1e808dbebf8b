use monocle_cli::decimal::{i64_to_string, parse_u32, u64_to_string};

#[test]
fn numbers_are_written_in_decimal() {
    assert_eq!(u64_to_string(0), "0");
    assert_eq!(u64_to_string(10), "10");
    assert_eq!(u64_to_string(1_234_567_890), "1234567890");
    assert_eq!(u64_to_string(u64::MAX), u64::MAX.to_string());
    assert_eq!(i64_to_string(0), "0");
    assert_eq!(i64_to_string(-1), "-1");
    assert_eq!(i64_to_string(i64::MIN), i64::MIN.to_string());
    assert_eq!(i64_to_string(i64::MAX), i64::MAX.to_string());
}

#[test]
fn numbers_are_read_as_the_standard_library_reads_them() {
    for text in [
        "", "0", "+", "+0", "+7", "-0", "-1", "13335", "4294967295", "4294967296", "00000000000000001",
        " 1", "1 ", "1_0", "0x10", "++1", "1+", "as13335", "\u{0661}", "99999999999999999999", "1.1",
    ] {
        assert_eq!(parse_u32(text), text.parse::<u32>().ok(), "{text}");
    }
}

#[test]
fn decimal_text_reads_back() {
    for n in [0u32, 1, 9, 10, 99, 100, 65535, 4294967295] {
        assert_eq!(parse_u32(&u64_to_string(n as u64)), Some(n));
    }
}

#[test]
fn different_numbers_have_different_texts() {
    assert_ne!(i64_to_string(1), i64_to_string(-1));
    assert_ne!(i64_to_string(10), i64_to_string(100));
}
