use veil::content::{classify, data_type_of, sniff, starts_with, text_kind};
use veil::{Content, DataType};

#[test]
fn png_signature_wins_over_text() {
    let mut bytes = vec![0x89, 0x50, 0x4e, 0x47, 0x0d, 0x0a, 0x1a, 0x0a];
    bytes.extend_from_slice(b"and then some readable text");
    assert_eq!(data_type_of(&bytes), DataType::Png);
    assert_eq!(classify(&bytes), Content::Png(bytes.clone()));
    assert_eq!(data_type_of(&bytes[..8]), DataType::Png);
    assert_eq!(data_type_of(&bytes[..7]), DataType::Binary);
}

#[test]
fn signatures_are_told_apart() {
    assert_eq!(data_type_of(&[0xff, 0xd8, 0xff, 0xe0, 0, 0x10]), DataType::Jpeg);
    assert_eq!(data_type_of(&[0xff, 0xd8, 0xff]), DataType::Jpeg);
    assert_eq!(data_type_of(&[0xff, 0xd8]), DataType::Binary);
    assert_eq!(data_type_of(b"GIF87a rest"), DataType::Gif);
    assert_eq!(data_type_of(b"GIF89a"), DataType::Gif);
    assert_eq!(data_type_of(b"GIF88a"), DataType::Text);
    assert_eq!(data_type_of(b"BM"), DataType::Bmp);
    assert_eq!(data_type_of(b"BMP is also readable"), DataType::Bmp);
    assert_eq!(data_type_of(&[0x1f, 0x8b]), DataType::Gzip);
    assert_eq!(data_type_of(&[0x1f, 0x8b, 8, 0, 0]), DataType::Gzip);

    assert_eq!(classify(&[0xff, 0xd8, 0xff, 0xe0]), Content::Jpeg(vec![0xff, 0xd8, 0xff, 0xe0]));
    assert_eq!(classify(b"GIF89a"), Content::Gif(b"GIF89a".to_vec()));
    assert_eq!(classify(b"BM\x00"), Content::Bmp(b"BM\x00".to_vec()));
    assert_eq!(classify(&[0x1f, 0x8b, 8]), Content::Gzip(vec![0x1f, 0x8b, 8]));
}

#[test]
fn zlib_header_is_deflate_with_a_check_value() {
    for second in 0..=255u8 {
        let expected = if (0x78u32 * 256 + u32::from(second)) % 31 == 0 {
            Some(DataType::Zlib)
        } else {
            None
        };
        assert_eq!(sniff(&[0x78, second]), expected);
    }
    assert_eq!(data_type_of(&[0x78, 0x01]), DataType::Zlib);
    assert_eq!(data_type_of(&[0x78, 0x5e]), DataType::Zlib);
    assert_eq!(data_type_of(&[0x78, 0x9c, 1, 2, 3]), DataType::Zlib);
    assert_eq!(data_type_of(&[0x78, 0xda]), DataType::Zlib);
    assert_eq!(data_type_of(&[0x78, 0x9d]), DataType::Binary);
    assert_eq!(data_type_of(&[0x68, 0x81]), DataType::Binary);
    assert_eq!(data_type_of(b"xy"), DataType::Text);
    assert_eq!(classify(&[0x78, 0x9c, 1]), Content::Zlib(vec![0x78, 0x9c, 1]));
}

#[test]
fn short_buffers_are_binary() {
    assert_eq!(data_type_of(b""), DataType::Binary);
    assert_eq!(classify(b""), Content::Binary(Vec::new()));
    for byte in 0..=255u8 {
        assert_eq!(data_type_of(&[byte]), DataType::Binary);
        assert_eq!(classify(&[byte]), Content::Binary(vec![byte]));
    }
}

#[test]
fn prose_is_text() {
    let prose = "It was a dark and stormy night; the rain fell in torrents.";
    assert_eq!(data_type_of(prose.as_bytes()), DataType::Text);
    assert_eq!(classify(prose.as_bytes()), Content::Text(String::from(prose)));
    let accented = "d\u{e9}j\u{e0} vu \u{2014} \u{1f600}";
    assert_eq!(classify(accented.as_bytes()), Content::Text(String::from(accented)));
    assert_eq!(classify(b"  "), Content::Text(String::from("  ")));
    assert_eq!(classify(b"a{"), Content::Text(String::from("a{")));
}

#[test]
fn text_that_starts_like_json_is_json() {
    assert_eq!(
        classify(b"{\"a\":1}"),
        Content::Json(String::from("{\"a\":1}"))
    );
    assert_eq!(classify(b"[1, 2]"), Content::Json(String::from("[1, 2]")));
    assert_eq!(
        classify(b" \t\r\n {\"a\":1}"),
        Content::Json(String::from(" \t\r\n {\"a\":1}"))
    );
    let padded = "\u{a0}\u{2003}\u{3000}[";
    assert_eq!(classify(padded.as_bytes()), Content::Json(String::from(padded)));
    assert_eq!(data_type_of(b"{ not closed"), DataType::Json);
    assert_eq!(data_type_of(b"\"a string\""), DataType::Text);
    assert_eq!(data_type_of("\u{200b}{}".as_bytes()), DataType::Text);
}

#[test]
fn text_kind_looks_past_white_space_only() {
    assert_eq!(text_kind(""), DataType::Text);
    assert_eq!(text_kind("   "), DataType::Text);
    assert_eq!(text_kind("{"), DataType::Json);
    assert_eq!(text_kind("\u{b}\u{c}\u{85}\u{1680}\u{2028}\u{2029}\u{202f}\u{205f}["), DataType::Json);
    assert_eq!(text_kind("\u{180e}["), DataType::Text);
    assert_eq!(text_kind("x{"), DataType::Text);
    for c in ['\u{9}', ' ', '\u{2000}', '\u{200a}', 'a', '\u{200b}', '\u{feff}'] {
        let text = format!("{}{{", c);
        let expected = if c.is_whitespace() { DataType::Json } else { DataType::Text };
        assert_eq!(text_kind(&text), expected);
    }
}

#[test]
fn bytes_that_are_no_text_are_binary() {
    assert_eq!(data_type_of(&[0xff, 0xfe, 0x00]), DataType::Binary);
    assert_eq!(data_type_of(&[0x7b, 0xff]), DataType::Binary);
    assert_eq!(classify(&[0xc3, 0x28]), Content::Binary(vec![0xc3, 0x28]));
    assert_eq!(classify(&[0, 159, 146, 150]), Content::Binary(vec![0, 159, 146, 150]));
}

#[test]
fn starts_with_compares_the_leading_bytes() {
    assert!(starts_with(b"GIF89a", b"GIF"));
    assert!(starts_with(b"GIF", b"GIF"));
    assert!(starts_with(b"GIF", b""));
    assert!(starts_with(b"", b""));
    assert!(!starts_with(b"GI", b"GIF"));
    assert!(!starts_with(b"GIG", b"GIF"));
    assert!(!starts_with(b"", b"G"));
}
