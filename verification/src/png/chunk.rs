//! One chunk of a PNG file: length, type, payload and checksum.

use crate::checksum::{crc32, crc32_iso_hdlc, lemma_checksum_tells_one_byte};
use crate::endian::{
    be32_bytes, be32_decode, be32_encode, be32_value, lemma_be32_bytes_of_value,
    lemma_be32_value_of_bytes,
};
use crate::error::Error;
use crate::png::chunk_type::{is_tag, ChunkType};
use crate::text::{ascii_chars, decimal, str_from_utf8, to_decimal};
use vstd::prelude::*;
use vstd::slice::{slice_subrange, slice_to_vec};
use vstd::string::StringExecFns;
use vstd::utf8::{decode_utf8, valid_utf8};

verus! {

/// What a chunk holds, as mathematics.
pub struct ChunkView {
    /// The stored length of the payload.
    pub length: u32,
    /// The four bytes of the chunk type.
    pub tag: Seq<u8>,
    /// The payload.
    pub data: Seq<u8>,
    /// The stored checksum.
    pub crc: u32,
}

impl ChunkView {
    /// Whether the record is consistent: the type is four letters, the length
    /// is that of the payload, and the checksum is that of type and payload.
    pub open spec fn wf(self) -> bool {
        &&& is_tag(self.tag)
        &&& self.length == self.data.len()
        &&& self.crc == crc32_iso_hdlc(self.tag + self.data)
    }

    /// The record built from a type and a payload.
    pub open spec fn build(tag: Seq<u8>, data: Seq<u8>) -> ChunkView {
        ChunkView { length: data.len() as u32, tag, data, crc: crc32_iso_hdlc(tag + data) }
    }

    /// The record on the wire: length, type, payload, checksum.
    pub open spec fn wire(self) -> Seq<u8> {
        be32_bytes(self.length) + self.tag + self.data + be32_bytes(self.crc)
    }

    /// The record described for a reader, over several lines.
    pub open spec fn report(self) -> Seq<char> {
        "Chunk {\n  Length: "@ + decimal(self.length as nat) + "\n  Type: "@ + ascii_chars(self.tag)
            + "\n  Data: "@ + decimal(self.data.len()) + " bytes\n  Crc: "@ + decimal(
            self.crc as nat,
        ) + "\n}\n"@
    }

    /// How many bytes the record takes on the wire.
    pub open spec fn wire_len(self) -> nat {
        12 + self.data.len()
    }
}

/// What reading one chunk from the front of `buffer` gives. Bytes behind the
/// chunk are left alone.
pub open spec fn parse_chunk(buffer: Seq<u8>) -> Result<ChunkView, Error> {
    if buffer.len() < 12 {
        Err(Error::Truncated)
    } else if !is_tag(buffer.subrange(4, 8)) {
        Err(Error::InvalidTag)
    } else {
        let length = be32_value(buffer.subrange(0, 4));
        if buffer.len() < 12 + length {
            Err(Error::Truncated)
        } else {
            let crc = be32_value(buffer.subrange(8 + length, 12 + length));
            if crc != crc32_iso_hdlc(buffer.subrange(4, 8 + length)) {
                Err(Error::ChecksumMismatch)
            } else {
                Ok(
                    ChunkView {
                        length,
                        tag: buffer.subrange(4, 8),
                        data: buffer.subrange(8, 8 + length),
                        crc,
                    },
                )
            }
        }
    }
}

/// A chunk of a PNG file. Its length is that of its payload, and its checksum
/// is that of its type and payload.
#[derive(Debug)]
pub struct Chunk {
    length: u32,
    chunk_type: ChunkType,
    data: Vec<u8>,
    crc: u32,
}

impl View for Chunk {
    type V = ChunkView;

    closed spec fn view(&self) -> ChunkView {
        ChunkView { length: self.length, tag: self.chunk_type@, data: self.data@, crc: self.crc }
    }
}

impl Clone for Chunk {
    fn clone(&self) -> (copy: Chunk)
        ensures
            copy@ == self@,
    {
        proof {
            use_type_invariant(self);
        }
        Chunk {
            length: self.length,
            chunk_type: self.chunk_type,
            data: self.data.clone(),
            crc: self.crc,
        }
    }
}

impl Chunk {
    #[verifier::type_invariant]
    closed spec fn inv(&self) -> bool {
        self@.wf()
    }

    /// The checksum of a chunk type followed by a payload.
    fn calculate_crc(chunk_type: &ChunkType, data: &Vec<u8>) -> (crc: u32)
        ensures
            crc == crc32_iso_hdlc(chunk_type@ + data@),
            is_tag(chunk_type@),
    {
        let tag = chunk_type.bytes();
        let mut covered: Vec<u8> = Vec::new();
        covered.extend_from_slice(tag.as_slice());
        covered.extend_from_slice(data.as_slice());
        assert(covered@ =~= chunk_type@ + data@);
        crc32(covered.as_slice())
    }

    /// A chunk of the given type around `data`, with its checksum.
    pub fn new(chunk_type: ChunkType, data: Vec<u8>) -> (chunk: Chunk)
        requires
            data@.len() <= u32::MAX,
        ensures
            chunk@ == ChunkView::build(chunk_type@, data@),
            chunk@.wf(),
    {
        let length = data.len() as u32;
        let crc = Self::calculate_crc(&chunk_type, &data);
        Chunk { length, chunk_type, data, crc }
    }

    /// The length of the payload in bytes.
    pub fn length(&self) -> (length: u32)
        ensures
            length == self@.length,
            length == self@.data.len(),
            self@.wf(),
    {
        proof {
            use_type_invariant(self);
        }
        self.length
    }

    /// The type of the chunk.
    pub fn chunk_type(&self) -> (chunk_type: &ChunkType)
        ensures
            chunk_type@ == self@.tag,
            self@.wf(),
    {
        proof {
            use_type_invariant(self);
        }
        &self.chunk_type
    }

    /// The payload.
    pub fn data(&self) -> (data: &[u8])
        ensures
            data@ == self@.data,
            self@.wf(),
    {
        proof {
            use_type_invariant(self);
        }
        self.data.as_slice()
    }

    /// The checksum of type and payload.
    pub fn crc(&self) -> (crc: u32)
        ensures
            crc == self@.crc,
            crc == crc32_iso_hdlc(self@.tag + self@.data),
            self@.wf(),
    {
        proof {
            use_type_invariant(self);
        }
        self.crc
    }

    /// The payload as text, if it is valid UTF-8.
    pub fn data_as_string(&self) -> (text: Result<String, Error>)
        ensures
            text is Ok <==> valid_utf8(self@.data),
            text is Ok ==> text->Ok_0@ == decode_utf8(self@.data),
            text is Err ==> text->Err_0 == Error::InvalidEncoding,
    {
        match str_from_utf8(self.data.as_slice()) {
            Some(text) => Ok(text.to_owned()),
            None => Err(Error::InvalidEncoding),
        }
    }

    /// The chunk described for a reader: length, type, size of the payload
    /// and checksum, one to a line.
    pub fn to_string(&self) -> (text: String)
        ensures
            text@ == self@.report(),
    {
        let mut text = String::new();
        text.append("Chunk {\n  Length: ");
        text.append(to_decimal(self.length as u64).as_str());
        text.append("\n  Type: ");
        text.append(self.chunk_type.to_string().as_str());
        text.append("\n  Data: ");
        text.append(to_decimal(self.data.len() as u64).as_str());
        text.append(" bytes\n  Crc: ");
        text.append(to_decimal(self.crc as u64).as_str());
        text.append("\n}\n");
        assert(text@ =~= self@.report());
        text
    }

    /// The chunk as it stands in a file.
    pub fn as_bytes(&self) -> (bytes: Vec<u8>)
        ensures
            bytes@ == self@.wire(),
            bytes@.len() == self@.wire_len(),
            self@.wf(),
            parse_chunk(bytes@) == Ok::<ChunkView, Error>(self@),
    {
        proof {
            use_type_invariant(self);
            lemma_wire_len(self@);
            lemma_chunk_round_trip(self@, Seq::empty());
            assert(self@.wire() + Seq::<u8>::empty() =~= self@.wire());
        }
        let length = be32_encode(self.length);
        let tag = self.chunk_type.bytes();
        let crc = be32_encode(self.crc);
        let mut bytes: Vec<u8> = Vec::new();
        bytes.extend_from_slice(length.as_slice());
        bytes.extend_from_slice(tag.as_slice());
        bytes.extend_from_slice(self.data.as_slice());
        bytes.extend_from_slice(crc.as_slice());
        assert(bytes@ =~= self@.wire());
        bytes
    }

    /// Reads one chunk from the front of `buffer` and checks its checksum.
    /// Bytes behind the chunk are left alone.
    pub fn from_bytes(buffer: &[u8]) -> (parsed: Result<Chunk, Error>)
        ensures
            parsed is Ok <==> parse_chunk(buffer@) is Ok,
            parsed is Ok ==> parsed->Ok_0@ == parse_chunk(buffer@)->Ok_0,
            parsed is Err ==> parse_chunk(buffer@) == Err::<ChunkView, Error>(parsed->Err_0),
    {
        if buffer.len() < 12 {
            return Err(Error::Truncated);
        }
        let length = be32_decode(buffer, 0);
        let tag: [u8; 4] = [buffer[4], buffer[5], buffer[6], buffer[7]];
        assert(tag@ =~= buffer@.subrange(4, 8));
        let chunk_type = match ChunkType::from_bytes(tag) {
            Ok(chunk_type) => chunk_type,
            Err(_) => {
                return Err(Error::InvalidTag);
            },
        };
        if buffer.len() - 12 < length as usize {
            return Err(Error::Truncated);
        }
        let end = 8 + length as usize;
        let data = slice_to_vec(slice_subrange(buffer, 8, end));
        let crc = be32_decode(buffer, end);
        let expected = Self::calculate_crc(&chunk_type, &data);
        assert(chunk_type@ + data@ =~= buffer@.subrange(4, 8 + length));
        if crc != expected {
            return Err(Error::ChecksumMismatch);
        }
        Ok(Chunk { length, chunk_type, data, crc })
    }
}

impl<'a> TryFrom<&'a [u8]> for Chunk {
    type Error = Error;

    fn try_from(buffer: &'a [u8]) -> (parsed: Result<Chunk, Error>)
        ensures
            parsed is Ok <==> parse_chunk(buffer@) is Ok,
            parsed is Ok ==> parsed->Ok_0@ == parse_chunk(buffer@)->Ok_0,
            parsed is Err ==> parse_chunk(buffer@) == Err::<ChunkView, Error>(parsed->Err_0),
    {
        Chunk::from_bytes(buffer)
    }
}

/// The contract of `try_from` stands on the function itself. The trait's own
/// way of stating it asks for the value that is returned, and a value that
/// holds a vector is not fixed by what the vector contains.
impl<'a> vstd::std_specs::convert::TryFromSpecImpl<&'a [u8]> for Chunk {
    open spec fn obeys_try_from_spec() -> bool {
        false
    }

    open spec fn try_from_spec(buffer: &'a [u8]) -> Result<Chunk, Error> {
        arbitrary()
    }
}

/// A chunk that was written is read back as it was, whatever follows it in
/// the buffer.
pub proof fn lemma_chunk_round_trip(chunk: ChunkView, rest: Seq<u8>)
    requires
        chunk.wf(),
    ensures
        parse_chunk(chunk.wire() + rest) == Ok::<ChunkView, Error>(chunk),
{
    let buffer = chunk.wire() + rest;
    let n = chunk.data.len() as int;
    lemma_be32_value_of_bytes(chunk.length);
    lemma_be32_value_of_bytes(chunk.crc);
    assert(buffer.len() == 12 + n + rest.len());
    assert(buffer.subrange(0, 4) =~= be32_bytes(chunk.length));
    assert(buffer.subrange(4, 8) =~= chunk.tag);
    assert(buffer.subrange(8, 8 + n) =~= chunk.data);
    assert(buffer.subrange(8 + n, 12 + n) =~= be32_bytes(chunk.crc));
    assert(buffer.subrange(4, 8 + n) =~= chunk.tag + chunk.data);
}

/// A chunk whose type or payload was changed on the wire is refused for its
/// checksum, provided that the type is still made of letters and that the
/// checksum of the changed bytes is not the one that was stored.
pub proof fn lemma_change_is_refused(chunk: ChunkView, changed: Seq<u8>)
    requires
        chunk.wf(),
        changed.len() == chunk.wire().len(),
        forall|i: int|
            0 <= i < 4 || 8 + chunk.data.len() <= i < 12 + chunk.data.len() ==> changed[i]
                == chunk.wire()[i],
        is_tag(changed.subrange(4, 8)),
        crc32_iso_hdlc(changed.subrange(4, 8 + chunk.data.len() as int)) != chunk.crc,
    ensures
        parse_chunk(changed) == Err::<ChunkView, Error>(Error::ChecksumMismatch),
{
    let n = chunk.data.len() as int;
    lemma_wire_len(chunk);
    lemma_be32_value_of_bytes(chunk.length);
    lemma_be32_value_of_bytes(chunk.crc);
    assert(changed.subrange(0, 4) =~= be32_bytes(chunk.length));
    assert(changed.subrange(8 + n, 12 + n) =~= be32_bytes(chunk.crc));
}

/// A chunk in which one byte of the type or of the payload was changed on the
/// wire, by one bit or by more, is refused: for its checksum where the type
/// is still made of letters, for its type where it is not.
pub proof fn lemma_changed_byte_is_refused(chunk: ChunkView, at: int, byte: u8)
    requires
        chunk.wf(),
        4 <= at < 8 + chunk.data.len(),
        byte != chunk.wire()[at],
    ensures
        parse_chunk(chunk.wire().update(at, byte)) == Err::<ChunkView, Error>(
            if is_tag(chunk.wire().update(at, byte).subrange(4, 8)) {
                Error::ChecksumMismatch
            } else {
                Error::InvalidTag
            },
        ),
{
    let n = chunk.data.len() as int;
    let wire = chunk.wire();
    let changed = wire.update(at, byte);
    lemma_wire_len(chunk);
    lemma_be32_value_of_bytes(chunk.length);
    lemma_be32_value_of_bytes(chunk.crc);
    assert(wire.subrange(4, 8 + n) =~= chunk.tag + chunk.data);
    if is_tag(changed.subrange(4, 8)) {
        lemma_checksum_tells_one_byte(wire.subrange(4, 8 + n), changed.subrange(4, 8 + n), at - 4);
        lemma_change_is_refused(chunk, changed);
    }
}

/// Flipping one bit of the type or of the payload of a chunk on the wire has
/// it refused: for its checksum where the type is still made of letters, for
/// its type where it is not.
pub proof fn lemma_flipped_bit_is_refused(chunk: ChunkView, at: int, bit: u8)
    requires
        chunk.wf(),
        4 <= at < 8 + chunk.data.len(),
        bit < 8,
    ensures
        parse_chunk(chunk.wire().update(at, chunk.wire()[at] ^ (1u8 << bit))) == Err::<
            ChunkView,
            Error,
        >(
            if is_tag(
                chunk.wire().update(at, chunk.wire()[at] ^ (1u8 << bit)).subrange(4, 8),
            ) {
                Error::ChecksumMismatch
            } else {
                Error::InvalidTag
            },
        ),
{
    let before = chunk.wire()[at];
    assert(bit < 8 ==> before ^ (1u8 << bit) != before) by (bit_vector);
    lemma_changed_byte_is_refused(chunk, at, before ^ (1u8 << bit));
}

/// A consistent chunk takes as many bytes on the wire as its payload and
/// twelve more.
pub proof fn lemma_wire_len(chunk: ChunkView)
    requires
        chunk.tag.len() == 4,
    ensures
        chunk.wire().len() == chunk.wire_len(),
{
    lemma_be32_value_of_bytes(chunk.length);
    lemma_be32_value_of_bytes(chunk.crc);
}

/// What was read takes as many bytes as its payload and twelve more, and
/// writing it gives those bytes back.
pub proof fn lemma_parsed_chunk(buffer: Seq<u8>)
    requires
        parse_chunk(buffer) is Ok,
    ensures
        parse_chunk(buffer)->Ok_0.wf(),
        parse_chunk(buffer)->Ok_0.wire_len() <= buffer.len(),
        parse_chunk(buffer)->Ok_0.wire() == buffer.subrange(
            0,
            parse_chunk(buffer)->Ok_0.wire_len() as int,
        ),
{
    let chunk = parse_chunk(buffer)->Ok_0;
    let n = chunk.data.len() as int;
    lemma_wire_len(chunk);
    lemma_be32_bytes_of_value(buffer.subrange(0, 4));
    lemma_be32_bytes_of_value(buffer.subrange(8 + n, 12 + n));
    assert(chunk.tag + chunk.data =~= buffer.subrange(4, 8 + n));
    assert(chunk.wire() =~= buffer.subrange(0, 12 + n));
}

} // verus!
