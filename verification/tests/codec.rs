use veil::endian::{be32_decode, be32_encode};
use veil::text::{
    char_is_whitespace, eq_ignoring_ascii_case, first_visible_char, fold_ascii_case, to_decimal,
};

#[test]
fn integers_are_written_most_significant_byte_first() {
    assert_eq!(be32_encode(0), [0, 0, 0, 0]);
    assert_eq!(be32_encode(42), [0, 0, 0, 42]);
    assert_eq!(be32_encode(0x0102_0304), [1, 2, 3, 4]);
    assert_eq!(be32_encode(2882656334), [0xab, 0xd1, 0xd8, 0x4e]);
    assert_eq!(be32_encode(u32::MAX), [255, 255, 255, 255]);
    for value in [0u32, 1, 255, 256, 65535, 65536, 0x00ff_ffff, 0x0100_0000, 0x8000_0000, u32::MAX] {
        assert_eq!(be32_encode(value), value.to_be_bytes());
        assert_eq!(be32_decode(&be32_encode(value), 0), value);
    }
}

#[test]
fn integers_are_read_where_they_stand() {
    let bytes = [9, 1, 2, 3, 4, 9];
    assert_eq!(be32_decode(&bytes, 1), 0x0102_0304);
    assert_eq!(be32_decode(&bytes, 0), 0x0901_0203);
    assert_eq!(be32_decode(&bytes, 2), 0x0203_0409);
}

#[test]
fn white_space_is_what_unicode_says() {
    for code in 0..=0x3100u32 {
        if let Some(c) = char::from_u32(code) {
            assert_eq!(char_is_whitespace(c), c.is_whitespace());
        }
    }
    assert!(!char_is_whitespace('\u{feff}'));
    assert!(!char_is_whitespace('\u{10ffff}'));
}

#[test]
fn first_visible_char_skips_white_space() {
    assert_eq!(first_visible_char(""), None);
    assert_eq!(first_visible_char(" \n\t"), None);
    assert_eq!(first_visible_char("a"), Some('a'));
    assert_eq!(first_visible_char("  \u{a0}\u{e9} b"), Some('\u{e9}'));
}

#[test]
fn ascii_case_is_ignored_and_nothing_else() {
    assert!(eq_ignoring_ascii_case("png", "PNG"));
    assert!(eq_ignoring_ascii_case("PnG", "pNg"));
    assert!(eq_ignoring_ascii_case("", ""));
    assert!(!eq_ignoring_ascii_case("png", "pn"));
    assert!(!eq_ignoring_ascii_case("pn", "png"));
    assert!(!eq_ignoring_ascii_case("png", "pnh"));
    assert!(!eq_ignoring_ascii_case("\u{e9}", "\u{c9}"));
    assert!(!eq_ignoring_ascii_case("@", "`"));
    assert!(!eq_ignoring_ascii_case("[", "{"));
    assert!(!eq_ignoring_ascii_case("\u{212a}", "k"));
    assert_eq!(fold_ascii_case('A'), 0x61);
    assert_eq!(fold_ascii_case('Z'), 0x7a);
    assert_eq!(fold_ascii_case('a'), 0x61);
    assert_eq!(fold_ascii_case('@'), 0x40);
    assert_eq!(fold_ascii_case('['), 0x5b);
}

#[test]
fn numbers_are_written_in_decimal() {
    assert_eq!(to_decimal(0), "0");
    assert_eq!(to_decimal(7), "7");
    assert_eq!(to_decimal(10), "10");
    assert_eq!(to_decimal(42), "42");
    assert_eq!(to_decimal(1_000_000), "1000000");
    assert_eq!(to_decimal(2882656334), "2882656334");
    assert_eq!(to_decimal(u64::MAX), "18446744073709551615");
    for n in [9u64, 99, 100, 101, 4_294_967_295, 4_294_967_296] {
        assert_eq!(to_decimal(n), format!("{}", n));
    }
}
