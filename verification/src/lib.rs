//! Hiding data in PNG files, and finding it again.
//!
//! A PNG file is a fixed signature followed by chunks. Each chunk carries a
//! four-letter type, a payload and a CRC-32 checksum. Readers skip chunk types
//! they do not know, so a payload stored under a private chunk type travels
//! with the image without changing how it is displayed.
//!
//! Every function of this crate is verified against its contract. The only
//! code taken on trust is named in [`checksum`] and [`text`].

pub mod checksum;
pub mod content;
pub mod endian;
pub mod error;
pub mod formats;
pub mod png;
pub mod text;

pub use content::{Content, DataType, ExtractedData, HiddenData};
pub use error::Error;
pub use formats::{FileFormat, SteganographyFormat};
pub use png::chunk::Chunk;
pub use png::chunk_type::ChunkType;
pub use png::Png;

use png::chunk::ChunkView;
use png::{first_of_type, lemma_first_of_type_push, parse_png, png_wire};
use text::{eq_ignoring_ascii_case, same_ignoring_ascii_case};
use vstd::prelude::*;
use vstd::slice::slice_to_vec;

verus! {

/// The chunk type under which this crate hides data: `vEiL`.
pub const VEIL_TYPE: [u8; 4] = [0x76, 0x45, 0x69, 0x4c];

/// The payload of the first chunk of type `vEiL`, if there is one.
pub open spec fn veiled(chunks: Seq<ChunkView>) -> Option<Seq<u8>> {
    let at = first_of_type(chunks, "vEiL"@);
    if at < chunks.len() {
        Some(chunks[at].data)
    } else {
        None
    }
}

/// What a file that can carry hidden data offers.
pub trait Steganography {
    /// The data that the file carries, if it carries any.
    spec fn hidden(&self) -> Option<Seq<u8>>;

    /// Hides `data` in the file. Data that was hidden before stays in front.
    fn hide_data(&mut self, data: &[u8]) -> (done: Result<(), Error>)
        requires
            data@.len() <= u32::MAX,
        ensures
            done is Ok,
            final(self).hidden() == if old(self).hidden() is Some {
                old(self).hidden()
            } else {
                Some(data@)
            },
    ;

    /// The data that the file carries. Asking a file that carries none is an
    /// error.
    fn extract_data(&self) -> (data: Result<Vec<u8>, Error>)
        ensures
            data is Ok <==> self.hidden() is Some,
            data is Ok ==> data->Ok_0@ == self.hidden()->0,
            data is Err ==> data->Err_0 == Error::NoHiddenData,
    ;

    /// Whether the file carries hidden data.
    fn has_hidden_data(&self) -> (yes: bool)
        ensures
            yes == self.hidden() is Some,
    ;
}

/// A file that can carry hidden data, in one of the formats that are
/// handled.
#[derive(Debug)]
pub enum SteganographyFile {
    /// A PNG image.
    Png(Png),
}

impl SteganographyFile {
    /// The file with the given extension and contents. The case of ASCII
    /// letters in the extension does not count. A file without an extension,
    /// or with one that is not handled, is refused before its contents are
    /// looked at.
    pub fn from_file(extension: Option<&str>, contents: &[u8]) -> (file: Result<
        SteganographyFile,
        Error,
    >)
        ensures
            match extension {
                Some(ext) if same_ignoring_ascii_case(ext@, "png"@) => match parse_png(contents@) {
                    Ok(chunks) => file is Ok && file->Ok_0->Png_0@ == chunks,
                    Err(e) => file == Err::<SteganographyFile, Error>(e),
                },
                _ => file == Err::<SteganographyFile, Error>(Error::UnsupportedFormat),
            },
    {
        match extension {
            Some(ext) => {
                if eq_ignoring_ascii_case(ext, "png") {
                    let png = Png::from_bytes(contents)?;
                    Ok(SteganographyFile::Png(png))
                } else {
                    Err(Error::UnsupportedFormat)
                }
            },
            None => Err(Error::UnsupportedFormat),
        }
    }

    /// The file as bytes, ready to be written out.
    pub fn as_bytes(&self) -> (bytes: Vec<u8>)
        ensures
            match self {
                SteganographyFile::Png(png) => bytes@ == png_wire(png@),
            },
    {
        match self {
            SteganographyFile::Png(png) => png.as_bytes(),
        }
    }
}

impl Steganography for SteganographyFile {
    open spec fn hidden(&self) -> Option<Seq<u8>> {
        match self {
            SteganographyFile::Png(png) => veiled(png@),
        }
    }

    /// Adds a chunk of type `vEiL` around `data` behind the chunks that are
    /// there.
    fn hide_data(&mut self, data: &[u8]) -> (done: Result<(), Error>)
        ensures
            final(self)->Png_0@ == old(self)->Png_0@.push(ChunkView::build(VEIL_TYPE@, data@)),
    {
        match self {
            SteganographyFile::Png(png) => {
                let chunk_type = match ChunkType::from_bytes(VEIL_TYPE) {
                    Ok(chunk_type) => chunk_type,
                    Err(e) => {
                        return Err(e);
                    },
                };
                proof {
                    lemma_veil_type_reads();
                    png::lemma_first_of_type(png@, "vEiL"@);
                    lemma_first_of_type_push(
                        png@,
                        ChunkView::build(chunk_type@, data@),
                        "vEiL"@,
                    );
                }
                png.hide_data(slice_to_vec(data), chunk_type);
                Ok(())
            },
        }
    }

    /// The payload of the first chunk of type `vEiL`.
    fn extract_data(&self) -> (data: Result<Vec<u8>, Error>) {
        match self {
            SteganographyFile::Png(png) => match png.chunk_by_type("vEiL") {
                Some(chunk) => Ok(slice_to_vec(chunk.data())),
                None => Err(Error::NoHiddenData),
            },
        }
    }

    /// Whether there is a chunk of type `vEiL`.
    fn has_hidden_data(&self) -> (yes: bool) {
        match self {
            SteganographyFile::Png(png) => png.chunk_by_type("vEiL").is_some(),
        }
    }
}

/// Written as text, the chunk type `vEiL` reads "vEiL".
pub proof fn lemma_veil_type_reads()
    ensures
        png::type_reads(VEIL_TYPE@, "vEiL"@),
        png::chunk_type::is_tag(VEIL_TYPE@),
        !png::is_structural(VEIL_TYPE@),
{
    reveal_strlit("vEiL");
    assert(text::ascii_chars(VEIL_TYPE@) =~= "vEiL"@);
    assert(VEIL_TYPE@[0] != png::IHDR@[0]);
}

} // verus!
