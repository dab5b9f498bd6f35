//! The PNG container: a signature and the chunks behind it.

pub mod chunk;
pub mod chunk_type;

pub use chunk::Chunk;
pub use chunk_type::ChunkType;

use crate::content::{
    classify, data_type_of, extracts, listing_of, ExtractedData, HiddenData,
};
use crate::error::Error;
use crate::png::chunk::{
    lemma_chunk_round_trip, lemma_parsed_chunk, lemma_wire_len, parse_chunk, ChunkView,
};
use crate::text::{ascii_chars, lemma_ascii_is_utf8};
use vstd::string::StringSliceAdditionalSpecFns;
use vstd::prelude::*;
use vstd::slice::slice_subrange;

verus! {

/// The eight bytes that every PNG file starts with.
pub const STANDARD_HEADER: [u8; 8] = [137, 80, 78, 71, 13, 10, 26, 10];

/// The PNG signature, as a sequence.
pub open spec fn signature() -> Seq<u8> {
    seq![137u8, 80u8, 78u8, 71u8, 13u8, 10u8, 26u8, 10u8]
}

/// The chunks on the wire, one behind the other.
pub open spec fn chunks_wire(chunks: Seq<ChunkView>) -> Seq<u8>
    decreases chunks.len(),
{
    if chunks.len() == 0 {
        Seq::empty()
    } else {
        chunks.first().wire() + chunks_wire(chunks.drop_first())
    }
}

/// A whole file on the wire: the signature, then the chunks.
pub open spec fn png_wire(chunks: Seq<ChunkView>) -> Seq<u8> {
    signature() + chunks_wire(chunks)
}

/// Whether every chunk is consistent.
pub open spec fn all_wf(chunks: Seq<ChunkView>) -> bool {
    forall|i: int| 0 <= i < chunks.len() ==> (#[trigger] chunks[i]).wf()
}

/// What reading chunks from `buffer` until it is used up gives: all of them
/// in order, or the first failure.
pub open spec fn parse_chunks(buffer: Seq<u8>) -> Result<Seq<ChunkView>, Error>
    decreases buffer.len(),
{
    if buffer.len() == 0 {
        Ok(Seq::empty())
    } else {
        match parse_chunk(buffer) {
            Err(e) => Err(e),
            Ok(first) => match parse_chunks(buffer.skip(first.wire_len() as int)) {
                Err(e) => Err(e),
                Ok(rest) => Ok(seq![first] + rest),
            },
        }
    }
}

/// What reading a whole file gives.
pub open spec fn parse_png(buffer: Seq<u8>) -> Result<Seq<ChunkView>, Error> {
    if buffer.len() < 8 {
        Err(Error::Truncated)
    } else if buffer.subrange(0, 8) != signature() {
        Err(Error::BadSignature)
    } else {
        parse_chunks(buffer.skip(8))
    }
}

/// Writing one more chunk appends its bytes.
pub proof fn lemma_chunks_wire_push(chunks: Seq<ChunkView>, last: ChunkView)
    ensures
        chunks_wire(chunks.push(last)) == chunks_wire(chunks) + last.wire(),
    decreases chunks.len(),
{
    if chunks.len() == 0 {
        let one = chunks.push(last);
        assert(one.first() == last);
        assert(one.drop_first() =~= Seq::<ChunkView>::empty());
        assert(chunks_wire(one.drop_first()) =~= Seq::<u8>::empty());
        assert(chunks_wire(one) =~= last.wire());
        assert(chunks_wire(chunks) + last.wire() =~= last.wire());
    } else {
        lemma_chunks_wire_push(chunks.drop_first(), last);
        assert(chunks.push(last).drop_first() =~= chunks.drop_first().push(last));
        assert(chunks_wire(chunks.push(last)) =~= chunks_wire(chunks) + last.wire());
    }
}

/// Consistent chunks that were written are read back as they were.
pub proof fn lemma_chunks_round_trip(chunks: Seq<ChunkView>)
    requires
        all_wf(chunks),
    ensures
        parse_chunks(chunks_wire(chunks)) == Ok::<Seq<ChunkView>, Error>(chunks),
    decreases chunks.len(),
{
    if chunks.len() == 0 {
        assert(chunks =~= Seq::<ChunkView>::empty());
    } else {
        let first = chunks.first();
        let rest = chunks.drop_first();
        let buffer = chunks_wire(chunks);
        assert(first.wf());
        assert(all_wf(rest)) by {
            assert forall|i: int| 0 <= i < rest.len() implies (#[trigger] rest[i]).wf() by {
                assert(rest[i] == chunks[i + 1]);
            }
        }
        lemma_chunk_round_trip(first, chunks_wire(rest));
        lemma_chunks_round_trip(rest);
        lemma_wire_len(first);
        assert(buffer.skip(first.wire_len() as int) =~= chunks_wire(rest));
        assert(seq![first] + rest =~= chunks);
    }
}

/// A file made of consistent chunks is read back as it was written.
pub proof fn lemma_png_round_trip(chunks: Seq<ChunkView>)
    requires
        all_wf(chunks),
    ensures
        parse_png(png_wire(chunks)) == Ok::<Seq<ChunkView>, Error>(chunks),
{
    let buffer = png_wire(chunks);
    assert(buffer.subrange(0, 8) =~= signature());
    assert(buffer.skip(8) =~= chunks_wire(chunks));
    lemma_chunks_round_trip(chunks);
}

/// Chunks that were read are consistent, and writing them gives the bytes
/// back.
pub proof fn lemma_parsed_chunks(buffer: Seq<u8>)
    requires
        parse_chunks(buffer) is Ok,
    ensures
        all_wf(parse_chunks(buffer)->Ok_0),
        chunks_wire(parse_chunks(buffer)->Ok_0) == buffer,
    decreases buffer.len(),
{
    if buffer.len() > 0 {
        let first = parse_chunk(buffer)->Ok_0;
        let tail = buffer.skip(first.wire_len() as int);
        let rest = parse_chunks(tail)->Ok_0;
        let chunks = seq![first] + rest;
        lemma_parsed_chunk(buffer);
        lemma_parsed_chunks(tail);
        assert(chunks.first() == first);
        assert(chunks.drop_first() =~= rest);
        assert(first.wire() + tail =~= buffer);
        assert forall|i: int| 0 <= i < chunks.len() implies (#[trigger] chunks[i]).wf() by {
            if i > 0 {
                assert(chunks[i] == rest[i - 1]);
            }
        }
    }
}

/// A file that was read is made of consistent chunks, and writing it gives
/// the bytes back.
pub proof fn lemma_parsed_png(buffer: Seq<u8>)
    requires
        parse_png(buffer) is Ok,
    ensures
        all_wf(parse_png(buffer)->Ok_0),
        png_wire(parse_png(buffer)->Ok_0) == buffer,
{
    lemma_parsed_chunks(buffer.skip(8));
    assert(buffer.subrange(0, 8) + buffer.skip(8) =~= buffer);
}

/// The type of the chunk that opens a PNG file: `IHDR`.
pub const IHDR: [u8; 4] = [0x49, 0x48, 0x44, 0x52];

/// The type of the chunks that hold the image: `IDAT`.
pub const IDAT: [u8; 4] = [0x49, 0x44, 0x41, 0x54];

/// The type of the chunk that closes a PNG file: `IEND`.
pub const IEND: [u8; 4] = [0x49, 0x45, 0x4e, 0x44];

/// Whether a chunk type is one of those that the format itself is built on.
/// Chunks of these types never carry hidden data.
pub open spec fn is_structural(tag: Seq<u8>) -> bool {
    tag == IHDR@ || tag == IDAT@ || tag == IEND@
}

/// Whether a chunk is of a type that may carry hidden data.
pub open spec fn is_custom() -> spec_fn(ChunkView) -> bool {
    |chunk: ChunkView| !is_structural(chunk.tag)
}

/// The chunks that may carry hidden data, in their order.
pub open spec fn custom_of(chunks: Seq<ChunkView>) -> Seq<ChunkView> {
    chunks.filter(is_custom())
}

/// Whether a chunk type, written as text, reads `text`.
pub open spec fn type_reads(tag: Seq<u8>, text: Seq<char>) -> bool {
    ascii_chars(tag) == text
}

/// The place of the first chunk whose type reads `text`, or the number of
/// chunks if there is none.
pub open spec fn first_of_type(chunks: Seq<ChunkView>, text: Seq<char>) -> int
    decreases chunks.len(),
{
    if chunks.len() == 0 {
        0
    } else if type_reads(chunks.first().tag, text) {
        0
    } else {
        1 + first_of_type(chunks.drop_first(), text)
    }
}

/// `first_of_type` names a chunk of the type before which none is of the
/// type, or else no chunk is of the type.
pub proof fn lemma_first_of_type(chunks: Seq<ChunkView>, text: Seq<char>)
    ensures
        0 <= first_of_type(chunks, text) <= chunks.len(),
        first_of_type(chunks, text) < chunks.len() ==> type_reads(
            chunks[first_of_type(chunks, text)].tag,
            text,
        ),
        forall|i: int|
            0 <= i < first_of_type(chunks, text) ==> !type_reads((#[trigger] chunks[i]).tag, text),
    decreases chunks.len(),
{
    if chunks.len() > 0 && !type_reads(chunks.first().tag, text) {
        let rest = chunks.drop_first();
        lemma_first_of_type(rest, text);
        assert forall|i: int| 0 <= i < first_of_type(chunks, text) implies !type_reads(
            (#[trigger] chunks[i]).tag,
            text,
        ) by {
            if i > 0 {
                assert(chunks[i] == rest[i - 1]);
            }
        }
    }
}

/// Adding a chunk at the end leaves the first chunk of a type where it was;
/// where there was none, the new chunk is the first if it is of the type.
pub proof fn lemma_first_of_type_push(chunks: Seq<ChunkView>, last: ChunkView, text: Seq<char>)
    ensures
        first_of_type(chunks.push(last), text) == if first_of_type(chunks, text) < chunks.len()
            || type_reads(last.tag, text) {
            first_of_type(chunks, text)
        } else {
            chunks.len() as int + 1
        },
    decreases chunks.len(),
{
    let longer = chunks.push(last);
    if chunks.len() == 0 {
        assert(longer.first() == last);
        assert(longer.drop_first() =~= Seq::<ChunkView>::empty());
        assert(first_of_type(longer.drop_first(), text) == 0);
    } else {
        assert(longer.first() == chunks.first());
        assert(longer.drop_first() =~= chunks.drop_first().push(last));
        if !type_reads(chunks.first().tag, text) {
            lemma_first_of_type_push(chunks.drop_first(), last, text);
        }
    }
}

/// Once the only chunk of a type is taken out, no chunk of the type is left.
pub proof fn lemma_remove_only_of_type(chunks: Seq<ChunkView>, text: Seq<char>)
    requires
        first_of_type(chunks, text) < chunks.len(),
        forall|j: int|
            0 <= j < chunks.len() && j != first_of_type(chunks, text) ==> !type_reads(
                (#[trigger] chunks[j]).tag,
                text,
            ),
    ensures
        first_of_type(chunks.remove(first_of_type(chunks, text)), text) == chunks.len() - 1,
{
    let at = first_of_type(chunks, text);
    lemma_first_of_type(chunks, text);
    let left = chunks.remove(at);
    lemma_first_of_type(left, text);
    let found = first_of_type(left, text);
    if found < left.len() {
        assert(left[found] == chunks[if found < at { found } else { found + 1 }]);
    }
}

/// Hiding a payload in a file that carries none leaves exactly that payload
/// to be found, unless it was hidden under a type that the format is built
/// on.
pub proof fn lemma_hide_then_find(chunks: Seq<ChunkView>, tag: Seq<u8>, data: Seq<u8>)
    requires
        custom_of(chunks).len() == 0,
        !is_structural(tag),
    ensures
        custom_of(chunks.push(ChunkView::build(tag, data))) == seq![ChunkView::build(tag, data)],
{
    chunks.lemma_filter_push(ChunkView::build(tag, data), is_custom());
    assert(custom_of(chunks).push(ChunkView::build(tag, data)) =~= seq![
        ChunkView::build(tag, data),
    ]);
}

/// A PNG file: the signature, which is always the same, and its chunks in
/// their order.
#[derive(Debug)]
pub struct Png {
    chunks: Vec<Chunk>,
}

impl Clone for Png {
    fn clone(&self) -> (copy: Png)
        ensures
            copy@ == self@,
    {
        let copy = Png { chunks: self.chunks.clone() };
        assert(copy@ =~= self@);
        copy
    }
}

impl View for Png {
    type V = Seq<ChunkView>;

    closed spec fn view(&self) -> Seq<ChunkView> {
        Seq::new(self.chunks@.len(), |i: int| self.chunks@[i]@)
    }
}

/// Whether the type of `chunk` is one of those that the format is built on.
pub fn is_structural_chunk(chunk: &Chunk) -> (yes: bool)
    ensures
        yes == is_structural(chunk@.tag),
{
    let tag = chunk.chunk_type().bytes();
    let header = tag[0] == IHDR[0] && tag[1] == IHDR[1] && tag[2] == IHDR[2]
        && tag[3] == IHDR[3];
    let data = tag[0] == IDAT[0] && tag[1] == IDAT[1] && tag[2] == IDAT[2] && tag[3]
        == IDAT[3];
    let end = tag[0] == IEND[0] && tag[1] == IEND[1] && tag[2] == IEND[2] && tag[3]
        == IEND[3];
    proof {
        if header {
            assert(tag@ =~= IHDR@);
        }
        if data {
            assert(tag@ =~= IDAT@);
        }
        if end {
            assert(tag@ =~= IEND@);
        }
    }
    header || data || end
}

/// Whether the type of `chunk`, written as text, reads `text`.
pub fn is_of_type(chunk: &Chunk, text: &str) -> (yes: bool)
    ensures
        yes == type_reads(chunk@.tag, text@),
{
    let tag = chunk.chunk_type().bytes();
    let wanted = text.as_bytes();
    proof {
        lemma_ascii_is_utf8(tag@);
        vstd::utf8::encode_utf8_decode_utf8(text@);
    }
    if wanted.len() != 4 {
        return false;
    }
    let yes = tag[0] == wanted[0] && tag[1] == wanted[1] && tag[2] == wanted[2] && tag[3]
        == wanted[3];
    proof {
        if yes {
            assert(tag@ =~= wanted@);
        }
    }
    yes
}

impl Png {
    /// The eight bytes that every PNG file starts with.
    pub const STANDARD_HEADER: [u8; 8] = STANDARD_HEADER;

    /// A file made of `chunks`.
    pub fn from_chunks(chunks: Vec<Chunk>) -> (png: Png)
        ensures
            png@ == Seq::new(chunks@.len(), |i: int| chunks@[i]@),
    {
        Png { chunks }
    }

    /// The chunks of the file, in their order.
    pub fn chunks(&self) -> (chunks: &[Chunk])
        ensures
            self@ == Seq::new(chunks@.len(), |i: int| chunks@[i]@),
    {
        self.chunks.as_slice()
    }

    /// Adds `chunk` behind the chunks that are there. Nothing is checked: a
    /// second chunk of a type, or one behind the closing chunk, is accepted.
    pub fn append_chunk(&mut self, chunk: Chunk)
        ensures
            final(self)@ == old(self)@.push(chunk@),
    {
        self.chunks.push(chunk);
        assert(self@ =~= old(self)@.push(chunk@));
    }

    /// The first chunk whose type reads `chunk_type`, if there is one.
    pub fn chunk_by_type(&self, chunk_type: &str) -> (found: Option<&Chunk>)
        ensures
            found is Some <==> first_of_type(self@, chunk_type@) < self@.len(),
            found is Some ==> found->0@ == self@[first_of_type(self@, chunk_type@)],
    {
        let mut i: usize = 0;
        assert(self@.skip(0) =~= self@);
        while i < self.chunks.len()
            invariant
                i <= self.chunks@.len(),
                first_of_type(self@, chunk_type@) == i + first_of_type(
                    self@.skip(i as int),
                    chunk_type@,
                ),
            decreases self.chunks@.len() - i,
        {
            proof {
                let rest = self@.skip(i as int);
                assert(rest.first() == self@[i as int]);
                assert(rest.drop_first() =~= self@.skip(i + 1));
            }
            if is_of_type(&self.chunks[i], chunk_type) {
                return Some(&self.chunks[i]);
            }
            i += 1;
        }
        None
    }

    /// Takes out the first chunk whose type reads `chunk_type`. The chunks
    /// around it keep their order. Where no chunk is of the type, nothing
    /// changes and the call fails.
    pub fn remove_first_chunk(&mut self, chunk_type: &str) -> (removed: Result<(), Error>)
        ensures
            removed is Ok <==> first_of_type(old(self)@, chunk_type@) < old(self)@.len(),
            removed is Ok ==> final(self)@ == old(self)@.remove(
                first_of_type(old(self)@, chunk_type@),
            ),
            removed is Err ==> removed->Err_0 == Error::NotFound && final(self)@ == old(self)@,
    {
        let mut i: usize = 0;
        assert(self@.skip(0) =~= self@);
        while i < self.chunks.len()
            invariant
                *self == *old(self),
                i <= self.chunks@.len(),
                first_of_type(self@, chunk_type@) == i + first_of_type(
                    self@.skip(i as int),
                    chunk_type@,
                ),
            decreases self.chunks@.len() - i,
        {
            proof {
                let rest = self@.skip(i as int);
                assert(rest.first() == self@[i as int]);
                assert(rest.drop_first() =~= self@.skip(i + 1));
            }
            if is_of_type(&self.chunks[i], chunk_type) {
                self.chunks.remove(i);
                assert(self@ =~= old(self)@.remove(i as int));
                return Ok(());
            }
            i += 1;
        }
        Err(Error::NotFound)
    }

    /// The chunks that may carry hidden data: all but those of the types that
    /// the format is built on, in their order.
    pub fn custom_chunks(&self) -> (custom: Vec<&Chunk>)
        ensures
            custom@.len() == custom_of(self@).len(),
            forall|j: int| 0 <= j < custom@.len() ==> (#[trigger] custom@[j])@ == custom_of(self@)[j],
    {
        let mut custom: Vec<&Chunk> = Vec::new();
        let mut i: usize = 0;
        proof {
            reveal(Seq::filter);
            assert(self@.take(0) =~= Seq::<ChunkView>::empty());
        }
        while i < self.chunks.len()
            invariant
                i <= self.chunks@.len(),
                custom@.len() == custom_of(self@.take(i as int)).len(),
                forall|j: int|
                    0 <= j < custom@.len() ==> (#[trigger] custom@[j])@ == custom_of(
                        self@.take(i as int),
                    )[j],
            decreases self.chunks@.len() - i,
        {
            proof {
                assert(self@.take(i + 1) =~= self@.take(i as int).push(self@[i as int]));
                self@.take(i as int).lemma_filter_push(self@[i as int], is_custom());
            }
            if !is_structural_chunk(&self.chunks[i]) {
                custom.push(&self.chunks[i]);
            }
            i += 1;
        }
        assert(self@.take(i as int) =~= self@);
        custom
    }

    /// A catalog of the hidden data: for each chunk that may carry some, in
    /// their order, what its payload is and how long. A file that carries
    /// nothing has an empty catalog.
    pub fn auto_detect_hidden_data(&self) -> (catalog: Vec<HiddenData>)
        ensures
            catalog@.len() == custom_of(self@).len(),
            forall|j: int|
                0 <= j < catalog@.len() ==> #[trigger] catalog@[j] == listing_of(
                    custom_of(self@)[j].data,
                ),
    {
        let mut catalog: Vec<HiddenData> = Vec::new();
        let mut i: usize = 0;
        proof {
            reveal(Seq::filter);
            assert(self@.take(0) =~= Seq::<ChunkView>::empty());
        }
        while i < self.chunks.len()
            invariant
                i <= self.chunks@.len(),
                catalog@.len() == custom_of(self@.take(i as int)).len(),
                forall|j: int|
                    0 <= j < catalog@.len() ==> #[trigger] catalog@[j] == listing_of(
                        custom_of(self@.take(i as int))[j].data,
                    ),
            decreases self.chunks@.len() - i,
        {
            proof {
                assert(self@.take(i + 1) =~= self@.take(i as int).push(self@[i as int]));
                self@.take(i as int).lemma_filter_push(self@[i as int], is_custom());
            }
            let chunk = &self.chunks[i];
            if !is_structural_chunk(chunk) {
                let payload = chunk.data();
                catalog.push(HiddenData { data_type: data_type_of(payload), size: payload.len() });
            }
            i += 1;
        }
        assert(self@.take(i as int) =~= self@);
        catalog
    }

    /// The hidden data in full: for each chunk that may carry some, in their
    /// order, its payload and what it is. Asking a file that carries nothing
    /// is an error.
    pub fn extract_all_hidden_data(&self) -> (extracted: Result<Vec<ExtractedData>, Error>)
        ensures
            extracted is Ok <==> custom_of(self@).len() > 0,
            extracted is Err ==> extracted->Err_0 == Error::NoHiddenData,
            extracted is Ok ==> {
                &&& extracted->Ok_0@.len() == custom_of(self@).len()
                &&& forall|j: int|
                    0 <= j < custom_of(self@).len() ==> extracts(
                        #[trigger] extracted->Ok_0@[j],
                        custom_of(self@)[j].data,
                    )
            },
    {
        let mut items: Vec<ExtractedData> = Vec::new();
        let mut i: usize = 0;
        proof {
            reveal(Seq::filter);
            assert(self@.take(0) =~= Seq::<ChunkView>::empty());
        }
        while i < self.chunks.len()
            invariant
                i <= self.chunks@.len(),
                items@.len() == custom_of(self@.take(i as int)).len(),
                forall|j: int|
                    0 <= j < items@.len() ==> extracts(
                        #[trigger] items@[j],
                        custom_of(self@.take(i as int))[j].data,
                    ),
            decreases self.chunks@.len() - i,
        {
            proof {
                assert(self@.take(i + 1) =~= self@.take(i as int).push(self@[i as int]));
                self@.take(i as int).lemma_filter_push(self@[i as int], is_custom());
            }
            let chunk = &self.chunks[i];
            if !is_structural_chunk(chunk) {
                let content = classify(chunk.data());
                items.push(ExtractedData { data_type: content.data_type(), content });
            }
            i += 1;
        }
        assert(self@.take(i as int) =~= self@);
        if items.len() == 0 {
            return Err(Error::NoHiddenData);
        }
        Ok(items)
    }

    /// Hides `data` in the file: a chunk of the given type around it is added
    /// behind the chunks that are there. Whether the type is fit to carry
    /// hidden data is left to the caller.
    pub fn hide_data(&mut self, data: Vec<u8>, chunk_type: ChunkType)
        requires
            data@.len() <= u32::MAX,
        ensures
            final(self)@ == old(self)@.push(ChunkView::build(chunk_type@, data@)),
    {
        self.append_chunk(Chunk::new(chunk_type, data));
    }

    /// The file as bytes: the signature, then each chunk as it stands in a
    /// file. Reading these bytes gives the file back.
    pub fn as_bytes(&self) -> (bytes: Vec<u8>)
        ensures
            bytes@ == png_wire(self@),
            all_wf(self@),
            parse_png(bytes@) == Ok::<Seq<ChunkView>, Error>(self@),
    {
        let mut bytes: Vec<u8> = Vec::new();
        bytes.extend_from_slice(STANDARD_HEADER.as_slice());
        assert(bytes@ =~= signature());
        assert(chunks_wire(self@.take(0)) =~= Seq::<u8>::empty());
        let mut i: usize = 0;
        while i < self.chunks.len()
            invariant
                i <= self.chunks@.len(),
                bytes@ == signature() + chunks_wire(self@.take(i as int)),
                all_wf(self@.take(i as int)),
            decreases self.chunks@.len() - i,
        {
            let chunk = self.chunks[i].as_bytes();
            bytes.extend_from_slice(chunk.as_slice());
            proof {
                let done = self@.take(i as int);
                let next = self@[i as int];
                assert(self@.take(i + 1) =~= done.push(next));
                lemma_chunks_wire_push(done, next);
                assert(bytes@ =~= signature() + chunks_wire(done.push(next)));
                assert forall|j: int| 0 <= j < i + 1 implies (#[trigger] self@.take(i + 1)[j]).wf() by {
                    if j < i {
                        assert(done[j].wf());
                    }
                }
            }
            i += 1;
        }
        proof {
            assert(self@.take(i as int) =~= self@);
            lemma_png_round_trip(self@);
        }
        bytes
    }

    /// Reads a whole file. The signature is checked, then chunks are read
    /// until the buffer is used up. The first chunk that cannot be read fails
    /// the whole file.
    pub fn from_bytes(buffer: &[u8]) -> (parsed: Result<Png, Error>)
        ensures
            parsed is Ok <==> parse_png(buffer@) is Ok,
            parsed is Ok ==> parsed->Ok_0@ == parse_png(buffer@)->Ok_0,
            parsed is Err ==> parse_png(buffer@) == Err::<Seq<ChunkView>, Error>(parsed->Err_0),
    {
        if buffer.len() < 8 {
            return Err(Error::Truncated);
        }
        let mut k: usize = 0;
        while k < 8
            invariant
                k <= 8 <= buffer@.len(),
                forall|j: int| 0 <= j < k ==> buffer@[j] == signature()[j],
            decreases 8 - k,
        {
            if buffer[k] != STANDARD_HEADER[k] {
                assert(buffer@.subrange(0, 8)[k as int] != signature()[k as int]);
                return Err(Error::BadSignature);
            }
            k += 1;
        }
        assert(buffer@.subrange(0, 8) =~= signature());
        let mut chunks: Vec<Chunk> = Vec::new();
        let mut at: usize = 8;
        let ghost all = parse_png(buffer@);
        while at < buffer.len()
            invariant
                8 <= at <= buffer@.len(),
                all == parse_png(buffer@),
                all == match parse_chunks(buffer@.skip(at as int)) {
                    Ok(rest) => Ok::<Seq<ChunkView>, Error>(
                        Seq::new(chunks@.len(), |i: int| chunks@[i]@) + rest,
                    ),
                    Err(e) => Err(e),
                },
            decreases buffer@.len() - at,
        {
            let ghost done = Seq::new(chunks@.len(), |i: int| chunks@[i]@);
            let ghost here = buffer@.skip(at as int);
            let rest = slice_subrange(buffer, at, buffer.len());
            assert(rest@ =~= here);
            let chunk = match Chunk::from_bytes(rest) {
                Ok(chunk) => chunk,
                Err(e) => {
                    assert(here.len() > 0);
                    assert(parse_chunks(here) == Err::<Seq<ChunkView>, Error>(e));
                    return Err(e);
                },
            };
            let taken = 12 + chunk.length() as usize;
            proof {
                lemma_parsed_chunk(here);
                assert(here.skip(taken as int) =~= buffer@.skip(at + taken));
                match parse_chunks(here.skip(taken as int)) {
                    Ok(more) => {
                        assert(done.push(chunk@) + more =~= done + (seq![chunk@] + more));
                    },
                    Err(_) => {},
                }
            }
            chunks.push(chunk);
            assert(Seq::new(chunks@.len(), |i: int| chunks@[i]@) =~= done.push(chunk@));
            at += taken;
        }
        proof {
            assert(buffer@.skip(at as int).len() == 0);
            assert(Seq::new(chunks@.len(), |i: int| chunks@[i]@) + Seq::<ChunkView>::empty()
                =~= Seq::new(chunks@.len(), |i: int| chunks@[i]@));
        }
        Ok(Png { chunks })
    }
}

impl<'a> TryFrom<&'a [u8]> for Png {
    type Error = Error;

    fn try_from(buffer: &'a [u8]) -> (parsed: Result<Png, Error>)
        ensures
            parsed is Ok <==> parse_png(buffer@) is Ok,
            parsed is Ok ==> parsed->Ok_0@ == parse_png(buffer@)->Ok_0,
            parsed is Err ==> parse_png(buffer@) == Err::<Seq<ChunkView>, Error>(parsed->Err_0),
    {
        Png::from_bytes(buffer)
    }
}

/// The contract of `try_from` stands on the function itself. The trait's own
/// way of stating it asks for the value that is returned, and a value that
/// holds a vector is not fixed by what the vector contains.
impl<'a> vstd::std_specs::convert::TryFromSpecImpl<&'a [u8]> for Png {
    open spec fn obeys_try_from_spec() -> bool {
        false
    }

    open spec fn try_from_spec(buffer: &'a [u8]) -> Result<Png, Error> {
        arbitrary()
    }
}

} // verus!
