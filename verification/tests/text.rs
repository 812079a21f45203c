use kidproxy::clock::duration_ms_i64;
use kidproxy::number::{
    decimal, padded_decimal, padded_signed, parse_i32, parse_i64, parse_u64, parse_usize,
    signed_decimal,
};
use kidproxy::text::{lowered, replaced_text, trimmed_text, uppered};

#[test]
fn numbers_are_read_as_the_standard_library_reads_them() {
    for text in [
        "", "-", "+", "0", "-0", "+7", "007", "42", " 42", "4x", "-17", "2147483647", "2147483648",
        "-2147483648", "-2147483649", "9223372036854775807", "9223372036854775808",
        "-9223372036854775808", "18446744073709551615", "18446744073709551616", "99999999999999999999999",
    ] {
        assert_eq!(parse_i32(text), text.parse::<i32>().ok(), "{text}");
        assert_eq!(parse_i64(text), text.parse::<i64>().ok(), "{text}");
        assert_eq!(parse_u64(text), text.parse::<u64>().ok(), "{text}");
        assert_eq!(parse_usize(text), text.parse::<usize>().ok(), "{text}");
    }
}

#[test]
fn numbers_are_written_in_decimal() {
    assert_eq!(decimal(0), "0");
    assert_eq!(decimal(u64::MAX), "18446744073709551615");
    assert_eq!(padded_decimal(7, 2), "07");
    assert_eq!(padded_decimal(123, 2), "123");
    assert_eq!(signed_decimal(-5), "-5");
    assert_eq!(signed_decimal(i64::MIN), "-9223372036854775808");
    assert_eq!(padded_signed(987, 4), "0987");
    assert_eq!(padded_signed(-7, 4), format!("{:04}", -7));
    assert_eq!(parse_u64(&decimal(1_234_567)), Some(1_234_567));
}

#[test]
fn texts_are_rewritten_as_the_standard_library_rewrites_them() {
    for (text, from, to) in [
        ("aaa", "aa", "b"),
        ("hello backend", "backend", "proxy"),
        ("abc", "", "-"),
        ("", "a", "b"),
        ("h\u{e9}llo", "\u{e9}", "e"),
        ("same", "same", "same"),
    ] {
        assert_eq!(replaced_text(text, from, to), text.replace(from, to));
    }
    for text in [" a\tb\u{a0}\n", "\u{3000}x\u{2003}", "", "   ", "\u{85}y\u{200b}"] {
        assert_eq!(trimmed_text(text), text.trim());
    }
    for text in ["Example.TEST", "\u{c9}A", "z{[@`"] {
        assert_eq!(lowered(text), text.to_ascii_lowercase());
        assert_eq!(lowered(&lowered(text)), lowered(text));
        assert_eq!(uppered(text), text.to_ascii_uppercase());
    }
}

#[test]
fn spans_are_whole_milliseconds() {
    assert_eq!(duration_ms_i64(0, 1_999_999), 1);
    assert_eq!(duration_ms_i64(1_999_999, 0), -1);
    assert_eq!(duration_ms_i64(5, 5), 0);
}
