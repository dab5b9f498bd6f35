//! Telling what a payload is from the bytes it starts with.

use crate::text::{first_visible_char, str_from_utf8, trim_start};
use vstd::prelude::*;
use vstd::slice::slice_to_vec;
use vstd::utf8::{decode_utf8, decode_utf8_encode_utf8, encode_utf8, valid_utf8};

verus! {

/// The bytes that a PNG image starts with.
pub const PNG_MAGIC: [u8; 8] = [0x89, 0x50, 0x4e, 0x47, 0x0d, 0x0a, 0x1a, 0x0a];

/// The bytes that a JPEG image starts with.
pub const JPEG_MAGIC: [u8; 3] = [0xff, 0xd8, 0xff];

/// The bytes that a GIF image of the 1987 revision starts with: `GIF87a`.
pub const GIF87_MAGIC: [u8; 6] = [0x47, 0x49, 0x46, 0x38, 0x37, 0x61];

/// The bytes that a GIF image of the 1989 revision starts with: `GIF89a`.
pub const GIF89_MAGIC: [u8; 6] = [0x47, 0x49, 0x46, 0x38, 0x39, 0x61];

/// The bytes that a BMP image starts with: `BM`.
pub const BMP_MAGIC: [u8; 2] = [0x42, 0x4d];

/// The bytes that a gzip stream starts with.
pub const GZIP_MAGIC: [u8; 2] = [0x1f, 0x8b];

/// The kinds of content that are told apart.
#[derive(Debug, Clone, Copy, PartialEq, Eq, Structural)]
pub enum DataType {
    /// Text in UTF-8.
    Text,
    /// Text in UTF-8 that starts like a JSON object or array.
    Json,
    /// A PNG image.
    Png,
    /// A JPEG image.
    Jpeg,
    /// A GIF image.
    Gif,
    /// A BMP image.
    Bmp,
    /// A gzip stream.
    Gzip,
    /// A zlib stream.
    Zlib,
    /// Anything else.
    Binary,
}

/// A payload together with what it was found to be. Text is held decoded,
/// everything else as the bytes that were found.
#[derive(Debug, Clone, PartialEq, Eq)]
pub enum Content {
    /// Text in UTF-8.
    Text(String),
    /// Text in UTF-8 that starts like a JSON object or array.
    Json(String),
    /// A PNG image.
    Png(Vec<u8>),
    /// A JPEG image.
    Jpeg(Vec<u8>),
    /// A GIF image.
    Gif(Vec<u8>),
    /// A BMP image.
    Bmp(Vec<u8>),
    /// A gzip stream.
    Gzip(Vec<u8>),
    /// A zlib stream.
    Zlib(Vec<u8>),
    /// Anything else.
    Binary(Vec<u8>),
}

impl Content {
    /// The kind of the content.
    pub open spec fn kind(&self) -> DataType {
        match self {
            Content::Text(_) => DataType::Text,
            Content::Json(_) => DataType::Json,
            Content::Png(_) => DataType::Png,
            Content::Jpeg(_) => DataType::Jpeg,
            Content::Gif(_) => DataType::Gif,
            Content::Bmp(_) => DataType::Bmp,
            Content::Gzip(_) => DataType::Gzip,
            Content::Zlib(_) => DataType::Zlib,
            Content::Binary(_) => DataType::Binary,
        }
    }

    /// The bytes of the payload.
    pub open spec fn bytes(&self) -> Seq<u8> {
        match self {
            Content::Text(text) => encode_utf8(text@),
            Content::Json(text) => encode_utf8(text@),
            Content::Png(raw) => raw@,
            Content::Jpeg(raw) => raw@,
            Content::Gif(raw) => raw@,
            Content::Bmp(raw) => raw@,
            Content::Gzip(raw) => raw@,
            Content::Zlib(raw) => raw@,
            Content::Binary(raw) => raw@,
        }
    }

    /// The kind of the content.
    pub fn data_type(&self) -> (kind: DataType)
        ensures
            kind == self.kind(),
    {
        match self {
            Content::Text(_) => DataType::Text,
            Content::Json(_) => DataType::Json,
            Content::Png(_) => DataType::Png,
            Content::Jpeg(_) => DataType::Jpeg,
            Content::Gif(_) => DataType::Gif,
            Content::Bmp(_) => DataType::Bmp,
            Content::Gzip(_) => DataType::Gzip,
            Content::Zlib(_) => DataType::Zlib,
            Content::Binary(_) => DataType::Binary,
        }
    }
}

/// One hidden payload as a catalog lists it: what it is and how long.
#[derive(Debug, Clone, Copy, PartialEq, Eq, Structural)]
pub struct HiddenData {
    /// What the payload was found to be.
    pub data_type: DataType,
    /// The length of the payload in bytes.
    pub size: usize,
}

/// One hidden payload in full.
#[derive(Debug, Clone, PartialEq, Eq)]
pub struct ExtractedData {
    /// What the payload was found to be.
    pub data_type: DataType,
    /// The payload.
    pub content: Content,
}

/// The catalog entry of a payload.
pub open spec fn listing_of(payload: Seq<u8>) -> HiddenData {
    HiddenData { data_type: kind_of(payload), size: payload.len() as usize }
}

/// Whether `item` is the payload `payload` in full.
pub open spec fn extracts(item: ExtractedData, payload: Seq<u8>) -> bool {
    &&& item.data_type == kind_of(payload)
    &&& item.content.kind() == kind_of(payload)
    &&& item.content.bytes() == payload
}

/// Whether two bytes are the header of a zlib stream: deflate with a 32 KiB
/// window, and a check value that makes the two bytes, read as one number,
/// a multiple of 31.
pub open spec fn is_zlib_header(first: u8, second: u8) -> bool {
    first == 0x78 && (first * 256 + second) % 31 == 0
}

/// Whether text starts like a JSON object or array, white space aside.
pub open spec fn looks_like_json(text: Seq<char>) -> bool {
    let visible = trim_start(text);
    visible.len() > 0 && (visible[0] == '{' || visible[0] == '[')
}

/// The signature that `bytes` start with, if they start with one. Signatures
/// are tried in a fixed order, and the first that fits decides.
pub open spec fn signature_of(bytes: Seq<u8>) -> Option<DataType> {
    if PNG_MAGIC@.is_prefix_of(bytes) {
        Some(DataType::Png)
    } else if JPEG_MAGIC@.is_prefix_of(bytes) {
        Some(DataType::Jpeg)
    } else if GIF87_MAGIC@.is_prefix_of(bytes) || GIF89_MAGIC@.is_prefix_of(bytes) {
        Some(DataType::Gif)
    } else if BMP_MAGIC@.is_prefix_of(bytes) {
        Some(DataType::Bmp)
    } else if GZIP_MAGIC@.is_prefix_of(bytes) {
        Some(DataType::Gzip)
    } else if bytes.len() >= 2 && is_zlib_header(bytes[0], bytes[1]) {
        Some(DataType::Zlib)
    } else {
        None
    }
}

/// What text is taken to be.
pub open spec fn kind_of_text(text: Seq<char>) -> DataType {
    if looks_like_json(text) {
        DataType::Json
    } else {
        DataType::Text
    }
}

/// What `bytes` are taken to be. Fewer than two bytes are not looked at. A
/// signature decides before text is tried, and what is neither is binary.
pub open spec fn kind_of(bytes: Seq<u8>) -> DataType {
    if bytes.len() < 2 {
        DataType::Binary
    } else if signature_of(bytes) is Some {
        signature_of(bytes)->0
    } else if valid_utf8(bytes) {
        kind_of_text(decode_utf8(bytes))
    } else {
        DataType::Binary
    }
}

/// A signature decides: bytes that start with one are never taken for text,
/// whatever follows it.
pub proof fn lemma_signature_wins(bytes: Seq<u8>)
    requires
        bytes.len() >= 2,
        signature_of(bytes) is Some,
    ensures
        kind_of(bytes) == signature_of(bytes)->0,
        kind_of(bytes) != DataType::Text,
        kind_of(bytes) != DataType::Json,
{
}

/// Bytes that start with the PNG signature are a PNG image.
pub proof fn lemma_png_signature_wins(bytes: Seq<u8>)
    requires
        PNG_MAGIC@.is_prefix_of(bytes),
    ensures
        kind_of(bytes) == DataType::Png,
{
    assert(bytes.len() >= PNG_MAGIC@.len());
}

/// Fewer than two bytes are binary, whatever they are.
pub proof fn lemma_short_is_binary(bytes: Seq<u8>)
    requires
        bytes.len() < 2,
    ensures
        kind_of(bytes) == DataType::Binary,
{
}

/// Where no signature fits, valid UTF-8 is text, JSON if it starts like
/// JSON, and everything else is binary.
pub proof fn lemma_fallback(bytes: Seq<u8>)
    requires
        bytes.len() >= 2,
        signature_of(bytes) is None,
    ensures
        valid_utf8(bytes) && looks_like_json(decode_utf8(bytes)) ==> kind_of(bytes)
            == DataType::Json,
        valid_utf8(bytes) && !looks_like_json(decode_utf8(bytes)) ==> kind_of(bytes)
            == DataType::Text,
        !valid_utf8(bytes) ==> kind_of(bytes) == DataType::Binary,
{
}

/// Whether `bytes` start with `prefix`.
pub fn starts_with(bytes: &[u8], prefix: &[u8]) -> (yes: bool)
    ensures
        yes == prefix@.is_prefix_of(bytes@),
{
    if bytes.len() < prefix.len() {
        return false;
    }
    let mut i: usize = 0;
    while i < prefix.len()
        invariant
            i <= prefix@.len() <= bytes@.len(),
            forall|j: int| 0 <= j < i ==> bytes@[j] == prefix@[j],
        decreases prefix@.len() - i,
    {
        if bytes[i] != prefix[i] {
            assert(prefix@[i as int] != bytes@.subrange(0, prefix@.len() as int)[i as int]);
            return false;
        }
        i += 1;
    }
    assert(prefix@ =~= bytes@.subrange(0, prefix@.len() as int));
    true
}

/// The signature that `bytes` start with, if they start with one.
pub fn sniff(bytes: &[u8]) -> (found: Option<DataType>)
    ensures
        found == signature_of(bytes@),
{
    if starts_with(bytes, PNG_MAGIC.as_slice()) {
        Some(DataType::Png)
    } else if starts_with(bytes, JPEG_MAGIC.as_slice()) {
        Some(DataType::Jpeg)
    } else if starts_with(bytes, GIF87_MAGIC.as_slice()) || starts_with(
        bytes,
        GIF89_MAGIC.as_slice(),
    ) {
        Some(DataType::Gif)
    } else if starts_with(bytes, BMP_MAGIC.as_slice()) {
        Some(DataType::Bmp)
    } else if starts_with(bytes, GZIP_MAGIC.as_slice()) {
        Some(DataType::Gzip)
    } else if bytes.len() >= 2 && bytes[0] == 0x78 && (bytes[0] as u16 * 256 + bytes[1] as u16) % 31
        == 0 {
        Some(DataType::Zlib)
    } else {
        None
    }
}

/// Whether text starts like a JSON object or array, white space aside.
pub fn text_kind(text: &str) -> (kind: DataType)
    ensures
        kind == kind_of_text(text@),
{
    match first_visible_char(text) {
        Some(c) => if c == '{' || c == '[' {
            DataType::Json
        } else {
            DataType::Text
        },
        None => DataType::Text,
    }
}

/// What `bytes` are.
pub fn data_type_of(bytes: &[u8]) -> (kind: DataType)
    ensures
        kind == kind_of(bytes@),
{
    if bytes.len() < 2 {
        return DataType::Binary;
    }
    if let Some(kind) = sniff(bytes) {
        return kind;
    }
    match str_from_utf8(bytes) {
        Some(text) => text_kind(text),
        None => DataType::Binary,
    }
}

/// What `bytes` are, together with their content: text decoded, everything
/// else copied as it is.
pub fn classify(bytes: &[u8]) -> (content: Content)
    ensures
        content.kind() == kind_of(bytes@),
        content.bytes() == bytes@,
{
    if bytes.len() >= 2 {
        match sniff(bytes) {
            Some(DataType::Png) => {
                return Content::Png(slice_to_vec(bytes));
            },
            Some(DataType::Jpeg) => {
                return Content::Jpeg(slice_to_vec(bytes));
            },
            Some(DataType::Gif) => {
                return Content::Gif(slice_to_vec(bytes));
            },
            Some(DataType::Bmp) => {
                return Content::Bmp(slice_to_vec(bytes));
            },
            Some(DataType::Gzip) => {
                return Content::Gzip(slice_to_vec(bytes));
            },
            Some(DataType::Zlib) => {
                return Content::Zlib(slice_to_vec(bytes));
            },
            _ => {
                if let Some(text) = str_from_utf8(bytes) {
                    proof {
                        decode_utf8_encode_utf8(bytes@);
                    }
                    return match text_kind(text) {
                        DataType::Json => Content::Json(text.to_owned()),
                        _ => Content::Text(text.to_owned()),
                    };
                }
            },
        }
    }
    Content::Binary(slice_to_vec(bytes))
}

} // verus!
