//! The four-letter type of a chunk.

use crate::error::Error;
use crate::text::{ascii_chars, lemma_ascii_is_utf8, str_from_utf8};
use std::str::FromStr;
use vstd::prelude::*;
use vstd::string::StringSliceAdditionalSpecFns;

verus! {

/// Whether `b` is an ASCII letter.
pub open spec fn is_letter(b: u8) -> bool {
    (0x41 <= b <= 0x5a) || (0x61 <= b <= 0x7a)
}

/// Whether `b` is an upper-case ASCII letter.
pub open spec fn is_upper(b: u8) -> bool {
    0x41 <= b <= 0x5a
}

/// Whether `bytes` are four ASCII letters: what a chunk type is made of.
pub open spec fn is_tag(bytes: Seq<u8>) -> bool {
    &&& bytes.len() == 4
    &&& forall|i: int| 0 <= i < 4 ==> is_letter(#[trigger] bytes[i])
}

/// Whether `text` is four ASCII letters: a chunk type written out.
pub open spec fn spells_tag(text: Seq<char>) -> bool {
    &&& text.len() == 4
    &&& forall|i: int|
        0 <= i < 4 ==> ('A' <= #[trigger] text[i] <= 'Z') || ('a' <= text[i] <= 'z')
}

/// Text is four ASCII letters exactly when its bytes are, and then the text
/// is the bytes read as ASCII.
pub proof fn lemma_spells_tag(text: Seq<char>)
    ensures
        spells_tag(text) <==> is_tag(vstd::utf8::encode_utf8(text)),
        spells_tag(text) ==> text == ascii_chars(vstd::utf8::encode_utf8(text)),
{
    let bytes = vstd::utf8::encode_utf8(text);
    if spells_tag(text) {
        assert(vstd::utf8::is_ascii_chars(text));
        vstd::utf8::is_ascii_chars_encode_utf8(text);
        assert forall|i: int| 0 <= i < 4 implies is_letter(#[trigger] bytes[i]) by {
            assert(bytes[i] == text[i] as u8);
        }
        assert(text =~= ascii_chars(bytes));
    }
    if is_tag(bytes) {
        lemma_ascii_is_utf8(bytes);
        vstd::utf8::encode_utf8_decode_utf8(text);
        assert(text == ascii_chars(bytes));
        assert forall|i: int| 0 <= i < 4 implies ('A' <= #[trigger] text[i] <= 'Z') || ('a'
            <= text[i] <= 'z') by {
            assert(text[i] == bytes[i] as char);
            assert(is_letter(bytes[i]));
        }
    }
}

/// In a letter, bit 5 is clear exactly when the letter is upper case.
pub proof fn lemma_case_bit(b: u8)
    requires
        is_letter(b),
    ensures
        (b & 0x20 == 0) == is_upper(b),
        (b & 0x20 == 0x20) == !is_upper(b),
        (!b & 0x20 == 0x20) == is_upper(b),
{
    assert(((0x41 <= b <= 0x5a) || (0x61 <= b <= 0x7a)) ==> ((b & 0x20 == 0) == (0x41 <= b <= 0x5a)
        && (b & 0x20 == 0x20) == !(0x41 <= b <= 0x5a) && (!b & 0x20 == 0x20) == (0x41 <= b
        <= 0x5a))) by (bit_vector);
}

/// Whether `bytes` are a chunk type that this revision of the format accepts:
/// four letters, the third of them upper case.
pub open spec fn is_valid_tag(bytes: Seq<u8>) -> bool {
    is_tag(bytes) && is_upper(bytes[2])
}

/// A chunk type: four ASCII letters whose case carries four flags.
#[derive(Debug, Clone, Copy, Eq, Hash)]
pub struct ChunkType {
    bytes: [u8; 4],
}

impl View for ChunkType {
    type V = Seq<u8>;

    closed spec fn view(&self) -> Seq<u8> {
        self.bytes@
    }
}

impl PartialEq for ChunkType {
    fn eq(&self, other: &Self) -> (equal: bool) {
        let equal = self.bytes[0] == other.bytes[0] && self.bytes[1] == other.bytes[1]
            && self.bytes[2] == other.bytes[2] && self.bytes[3] == other.bytes[3];
        proof {
            if equal {
                assert(self.bytes@ =~= other.bytes@);
            }
        }
        equal
    }
}

impl vstd::std_specs::cmp::PartialEqSpecImpl for ChunkType {
    open spec fn obeys_eq_spec() -> bool {
        true
    }

    open spec fn eq_spec(&self, other: &Self) -> bool {
        self@ == other@
    }
}

impl ChunkType {
    #[verifier::type_invariant]
    closed spec fn inv(&self) -> bool {
        is_tag(self.bytes@)
    }

    /// The chunk type whose four bytes are `bytes`.
    pub closed spec fn spelled(bytes: [u8; 4]) -> ChunkType {
        ChunkType { bytes }
    }

    /// Whether `byte` may stand in a chunk type.
    pub fn is_valid_byte(byte: u8) -> (ok: bool)
        ensures
            ok == is_letter(byte),
    {
        (0x41 <= byte && byte <= 0x5a) || (0x61 <= byte && byte <= 0x7a)
    }

    /// Whether all four bytes may stand in a chunk type.
    pub fn validate_bytes(bytes: [u8; 4]) -> (ok: bool)
        ensures
            ok == is_tag(bytes@),
    {
        let ok = Self::is_valid_byte(bytes[0]) && Self::is_valid_byte(bytes[1])
            && Self::is_valid_byte(bytes[2]) && Self::is_valid_byte(bytes[3]);
        ok
    }

    /// The four bytes of the type.
    pub fn bytes(&self) -> (bytes: [u8; 4])
        ensures
            bytes@ == self@,
            is_tag(self@),
    {
        proof {
            use_type_invariant(self);
        }
        self.bytes
    }

    /// The type as text: its four letters, case kept.
    pub fn to_string(&self) -> (text: String)
        ensures
            text@ == ascii_chars(self@),
    {
        proof {
            use_type_invariant(self);
            lemma_ascii_is_utf8(self@);
        }
        match str_from_utf8(self.bytes.as_slice()) {
            Some(text) => text.to_owned(),
            None => String::new(),
        }
    }

    /// Whether the chunk is critical: a reader that does not know a critical
    /// chunk cannot make sense of the file. The first letter is upper case.
    pub fn is_critical(&self) -> (yes: bool)
        ensures
            yes == is_upper(self@[0]),
            yes == (self@[0] & 0x20 == 0),
    {
        proof {
            use_type_invariant(self);
            lemma_case_bit(self.bytes@[0]);
        }
        self.bytes[0] & 0b00100000 == 0b00000000
    }

    /// Whether the type belongs to the registered vocabulary rather than to
    /// one application. The second letter is upper case.
    pub fn is_public(&self) -> (yes: bool)
        ensures
            yes == is_upper(self@[1]),
            yes == (self@[1] & 0x20 == 0),
    {
        proof {
            use_type_invariant(self);
            lemma_case_bit(self.bytes@[1]);
        }
        self.bytes[1] & 0b00100000 == 0b00000000
    }

    /// Whether the reserved bit has the value that this revision of the format
    /// asks for. The third letter is upper case.
    pub fn is_reserved_bit_valid(&self) -> (yes: bool)
        ensures
            yes == is_upper(self@[2]),
            yes == (self@[2] & 0x20 == 0),
    {
        proof {
            use_type_invariant(self);
            lemma_case_bit(self.bytes@[2]);
        }
        self.bytes[2] & 0b00100000 == 0b00000000
    }

    /// Whether an editor that does not know the chunk may copy it unchanged.
    /// The fourth letter is lower case.
    pub fn is_safe_to_copy(&self) -> (yes: bool)
        ensures
            yes == !is_upper(self@[3]),
            yes == (self@[3] & 0x20 == 0x20),
    {
        proof {
            use_type_invariant(self);
            lemma_case_bit(self.bytes@[3]);
        }
        self.bytes[3] & 0b00100000 == 0b00100000
    }

    /// Whether the type is valid under this revision of the format: four
    /// letters, the third of them upper case.
    pub fn is_valid(&self) -> (yes: bool)
        ensures
            yes == is_valid_tag(self@),
            yes == is_upper(self@[2]),
    {
        proof {
            use_type_invariant(self);
        }
        Self::validate_bytes(self.bytes) && self.is_reserved_bit_valid()
    }

    /// The chunk type spelled by `bytes`, if they are four ASCII letters.
    pub fn from_bytes(bytes: [u8; 4]) -> (made: Result<ChunkType, Error>)
        ensures
            made is Ok <==> is_tag(bytes@),
            made is Ok ==> made->Ok_0@ == bytes@ && made->Ok_0 == Self::spelled(bytes),
            made is Err ==> made->Err_0 == Error::InvalidTag,
    {
        if !Self::validate_bytes(bytes) {
            return Err(Error::InvalidTag);
        }
        Ok(ChunkType { bytes })
    }

    /// The chunk type spelled by `text`, if it is four ASCII letters and
    /// nothing more.
    pub fn from_text(text: &str) -> (made: Result<ChunkType, Error>)
        ensures
            made is Ok <==> spells_tag(text@),
            made is Ok ==> made->Ok_0@ == text.spec_bytes() && text@ == ascii_chars(made->Ok_0@),
            made is Err ==> made->Err_0 == Error::InvalidTag,
    {
        proof {
            lemma_spells_tag(text@);
        }
        let raw = text.as_bytes();
        if raw.len() != 4 {
            return Err(Error::InvalidTag);
        }
        let bytes: [u8; 4] = [raw[0], raw[1], raw[2], raw[3]];
        assert(bytes@ =~= raw@);
        let made = Self::from_bytes(bytes);
        proof {
            if made is Ok {
                lemma_ascii_is_utf8(raw@);
                vstd::utf8::encode_utf8_decode_utf8(text@);
            }
        }
        made
    }
}

impl TryFrom<[u8; 4]> for ChunkType {
    type Error = Error;

    fn try_from(bytes: [u8; 4]) -> (made: Result<ChunkType, Error>)
        ensures
            made is Ok <==> is_tag(bytes@),
            made is Ok ==> made->Ok_0@ == bytes@,
            made is Err ==> made->Err_0 == Error::InvalidTag,
    {
        ChunkType::from_bytes(bytes)
    }
}

impl vstd::std_specs::convert::TryFromSpecImpl<[u8; 4]> for ChunkType {
    open spec fn obeys_try_from_spec() -> bool {
        true
    }

    open spec fn try_from_spec(bytes: [u8; 4]) -> Result<ChunkType, Error> {
        if is_tag(bytes@) {
            Ok(ChunkType::spelled(bytes))
        } else {
            Err(Error::InvalidTag)
        }
    }
}

impl FromStr for ChunkType {
    type Err = Error;

    fn from_str(text: &str) -> (made: Result<ChunkType, Error>)
        ensures
            made is Ok <==> spells_tag(text@),
            made is Ok ==> made->Ok_0@ == text.spec_bytes() && text@ == ascii_chars(made->Ok_0@),
            made is Err ==> made->Err_0 == Error::InvalidTag,
    {
        ChunkType::from_text(text)
    }
}

} // verus!
