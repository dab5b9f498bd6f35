//! Choosing a file format, and working on a file held as bytes.

use crate::content::{ExtractedData, HiddenData, extracts, listing_of};
use crate::error::Error;
use crate::png::chunk::ChunkView;
use crate::png::chunk_type::{ChunkType, is_tag};
use crate::png::{
    custom_of, is_custom, is_structural, parse_png, png_wire, signature, Png, STANDARD_HEADER,
};
use crate::text::{ascii_chars, eq_ignoring_ascii_case, same_ignoring_ascii_case};
use vstd::prelude::*;

verus! {

/// The chunk type for text files: `TeXt`.
pub const TEXT_TYPE: [u8; 4] = [0x54, 0x65, 0x58, 0x74];

/// The chunk type for JSON files: `JSON`.
pub const JSON_TYPE: [u8; 4] = [0x4a, 0x53, 0x4f, 0x4e];

/// The name under which PNG files are filed: `PNG_`.
pub const PNG_NAME: [u8; 4] = [0x50, 0x4e, 0x47, 0x5f];

/// The chunk type for JPEG files: `JPEG`.
pub const JPEG_TYPE: [u8; 4] = [0x4a, 0x50, 0x45, 0x47];

/// The name under which GIF files are filed: `GIF_`.
pub const GIF_NAME: [u8; 4] = [0x47, 0x49, 0x46, 0x5f];

/// The name under which BMP files are filed: `BMP_`.
pub const BMP_NAME: [u8; 4] = [0x42, 0x4d, 0x50, 0x5f];

/// The name under which archives are filed: `ZIP_`.
pub const ZIP_NAME: [u8; 4] = [0x5a, 0x49, 0x50, 0x5f];

/// The name under which PDF files are filed: `PDF_`.
pub const PDF_NAME: [u8; 4] = [0x50, 0x44, 0x46, 0x5f];

/// The name under which text documents are filed: `DOC_`.
pub const DOC_NAME: [u8; 4] = [0x44, 0x4f, 0x43, 0x5f];

/// The name under which spreadsheets are filed: `XLS_`.
pub const XLS_NAME: [u8; 4] = [0x58, 0x4c, 0x53, 0x5f];

/// The name under which presentations are filed: `PPT_`.
pub const PPT_NAME: [u8; 4] = [0x50, 0x50, 0x54, 0x5f];

/// The chunk type for everything else: `DATA`.
pub const DATA_TYPE: [u8; 4] = [0x44, 0x41, 0x54, 0x41];

/// The name under which files with the given extension are filed. The case
/// of ASCII letters in the extension does not count.
pub open spec fn name_for_extension(extension: Seq<char>) -> Seq<u8> {
    if same_ignoring_ascii_case(extension, "txt"@) || same_ignoring_ascii_case(
        extension,
        "text"@,
    ) {
        TEXT_TYPE@
    } else if same_ignoring_ascii_case(extension, "json"@) {
        JSON_TYPE@
    } else if same_ignoring_ascii_case(extension, "png"@) {
        PNG_NAME@
    } else if same_ignoring_ascii_case(extension, "jpg"@) || same_ignoring_ascii_case(
        extension,
        "jpeg"@,
    ) {
        JPEG_TYPE@
    } else if same_ignoring_ascii_case(extension, "gif"@) {
        GIF_NAME@
    } else if same_ignoring_ascii_case(extension, "bmp"@) {
        BMP_NAME@
    } else if same_ignoring_ascii_case(extension, "zip"@) || same_ignoring_ascii_case(
        extension,
        "gz"@,
    ) {
        ZIP_NAME@
    } else if same_ignoring_ascii_case(extension, "pdf"@) {
        PDF_NAME@
    } else if same_ignoring_ascii_case(extension, "doc"@) || same_ignoring_ascii_case(
        extension,
        "docx"@,
    ) {
        DOC_NAME@
    } else if same_ignoring_ascii_case(extension, "xls"@) || same_ignoring_ascii_case(
        extension,
        "xlsx"@,
    ) {
        XLS_NAME@
    } else if same_ignoring_ascii_case(extension, "ppt"@) || same_ignoring_ascii_case(
        extension,
        "pptx"@,
    ) {
        PPT_NAME@
    } else {
        DATA_TYPE@
    }
}

/// The chunk type under which a file with the given extension is hidden: the
/// name under which it is filed where that name is a chunk type, and `DATA`
/// where it is not.
pub open spec fn type_for_extension(extension: Seq<char>) -> Seq<u8> {
    if is_tag(name_for_extension(extension)) {
        name_for_extension(extension)
    } else {
        DATA_TYPE@
    }
}

/// Only text, JSON and JPEG files have a chunk type of their own: every other
/// name holds an underscore, which no chunk type may.
pub proof fn lemma_type_for_extension(extension: Seq<char>)
    ensures
        type_for_extension(extension) == TEXT_TYPE@ || type_for_extension(extension) == JSON_TYPE@
            || type_for_extension(extension) == JPEG_TYPE@ || type_for_extension(extension)
            == DATA_TYPE@,
        is_tag(type_for_extension(extension)),
{
    assert(!is_tag(PNG_NAME@)) by {
        assert(PNG_NAME@[3] == 0x5f);
    }
    assert(!is_tag(GIF_NAME@)) by {
        assert(GIF_NAME@[3] == 0x5f);
    }
    assert(!is_tag(BMP_NAME@)) by {
        assert(BMP_NAME@[3] == 0x5f);
    }
    assert(!is_tag(ZIP_NAME@)) by {
        assert(ZIP_NAME@[3] == 0x5f);
    }
    assert(!is_tag(PDF_NAME@)) by {
        assert(PDF_NAME@[3] == 0x5f);
    }
    assert(!is_tag(DOC_NAME@)) by {
        assert(DOC_NAME@[3] == 0x5f);
    }
    assert(!is_tag(XLS_NAME@)) by {
        assert(XLS_NAME@[3] == 0x5f);
    }
    assert(!is_tag(PPT_NAME@)) by {
        assert(PPT_NAME@[3] == 0x5f);
    }
    assert(is_tag(DATA_TYPE@));
}

/// The name under which files with the given extension are filed.
fn file_name_for_extension(extension: &str) -> (name: [u8; 4])
    ensures
        name@ == name_for_extension(extension@),
{
    if eq_ignoring_ascii_case(extension, "txt") || eq_ignoring_ascii_case(extension, "text") {
        TEXT_TYPE
    } else if eq_ignoring_ascii_case(extension, "json") {
        JSON_TYPE
    } else if eq_ignoring_ascii_case(extension, "png") {
        PNG_NAME
    } else if eq_ignoring_ascii_case(extension, "jpg") || eq_ignoring_ascii_case(
        extension,
        "jpeg",
    ) {
        JPEG_TYPE
    } else if eq_ignoring_ascii_case(extension, "gif") {
        GIF_NAME
    } else if eq_ignoring_ascii_case(extension, "bmp") {
        BMP_NAME
    } else if eq_ignoring_ascii_case(extension, "zip") || eq_ignoring_ascii_case(extension, "gz") {
        ZIP_NAME
    } else if eq_ignoring_ascii_case(extension, "pdf") {
        PDF_NAME
    } else if eq_ignoring_ascii_case(extension, "doc") || eq_ignoring_ascii_case(
        extension,
        "docx",
    ) {
        DOC_NAME
    } else if eq_ignoring_ascii_case(extension, "xls") || eq_ignoring_ascii_case(
        extension,
        "xlsx",
    ) {
        XLS_NAME
    } else if eq_ignoring_ascii_case(extension, "ppt") || eq_ignoring_ascii_case(
        extension,
        "pptx",
    ) {
        PPT_NAME
    } else {
        DATA_TYPE
    }
}

/// The chunk type under which a file with the given extension is hidden.
pub fn get_chunk_type_from_extension(extension: &str) -> (chunk_type: ChunkType)
    ensures
        chunk_type@ == type_for_extension(extension@),
{
    match ChunkType::from_bytes(file_name_for_extension(extension)) {
        Ok(chunk_type) => chunk_type,
        Err(_) => match ChunkType::from_bytes(DATA_TYPE) {
            Ok(chunk_type) => chunk_type,
            Err(_) => vstd::pervasive::unreached(),
        },
    }
}

/// The file formats in which data can be hidden.
#[derive(Debug, Clone, Copy, PartialEq, Eq, Structural)]
pub enum FileFormat {
    /// A PNG image.
    Png,
}

/// What the extension of a file and the bytes it starts with say of its
/// format. At least eight bytes are looked at; the case of ASCII letters in
/// the extension does not count.
pub open spec fn detected(extension: Seq<char>, header: Seq<u8>) -> Result<FileFormat, Error> {
    if header.len() < 8 {
        Err(Error::Truncated)
    } else if !same_ignoring_ascii_case(extension, "png"@) {
        Err(Error::UnsupportedFormat)
    } else if header.subrange(0, 8) != signature() {
        Err(Error::BadSignature)
    } else {
        Ok(FileFormat::Png)
    }
}

impl FileFormat {
    /// The format of a file, from its extension and the bytes it starts with.
    pub fn detect(extension: &str, header: &[u8]) -> (format: Result<FileFormat, Error>)
        ensures
            format == detected(extension@, header@),
    {
        if header.len() < 8 {
            return Err(Error::Truncated);
        }
        if !eq_ignoring_ascii_case(extension, "png") {
            return Err(Error::UnsupportedFormat);
        }
        if !crate::content::starts_with(header, STANDARD_HEADER.as_slice()) {
            assert(STANDARD_HEADER@ =~= signature());
            return Err(Error::BadSignature);
        }
        assert(STANDARD_HEADER@ =~= signature());
        Ok(FileFormat::Png)
    }
}

/// One hidden item, as mathematics: the name of the type it is filed under,
/// and its payload.
pub struct Carried {
    /// The name of the type that the item is filed under.
    pub name: Seq<char>,
    /// The payload.
    pub data: Seq<u8>,
}

/// What a file format offers: finding and hiding data in a file that is
/// held as bytes.
pub trait SteganographyFormat {
    /// What `file` carries, item by item in the order of the file, or why the
    /// file cannot be read.
    spec fn carried(&self, file: Seq<u8>) -> Result<Seq<Carried>, Error>;

    /// Whether data filed under the given chunk type is found again. Types
    /// that the format is built on carry none.
    spec fn carries(&self, chunk_type: Seq<u8>) -> bool;

    /// A catalog of the data hidden in `file`: for each item, what it is and
    /// how long. A file that cannot be read is an error; one that carries
    /// nothing is not.
    fn auto_detect_hidden_data(&self, file: &[u8]) -> (catalog: Result<Vec<HiddenData>, Error>)
        ensures
            match self.carried(file@) {
                Ok(items) => {
                    &&& catalog is Ok
                    &&& catalog->Ok_0@.len() == items.len()
                    &&& forall|j: int|
                        0 <= j < items.len() ==> #[trigger] catalog->Ok_0@[j] == listing_of(
                            items[j].data,
                        )
                },
                Err(e) => catalog == Err::<Vec<HiddenData>, Error>(e),
            },
    ;

    /// The data hidden in `file`, in full. A file that cannot be read is an
    /// error, and so is one that carries nothing.
    fn extract_all_hidden_data(&self, file: &[u8]) -> (extracted: Result<
        Vec<ExtractedData>,
        Error,
    >)
        ensures
            match self.carried(file@) {
                Ok(items) => if items.len() == 0 {
                    extracted == Err::<Vec<ExtractedData>, Error>(Error::NoHiddenData)
                } else {
                    &&& extracted is Ok
                    &&& extracted->Ok_0@.len() == items.len()
                    &&& forall|j: int|
                        0 <= j < items.len() ==> extracts(
                            #[trigger] extracted->Ok_0@[j],
                            items[j].data,
                        )
                },
                Err(e) => extracted == Err::<Vec<ExtractedData>, Error>(e),
            },
    ;

    /// The names of the types under which `file` carries data, item by item.
    fn list_custom_chunks(&self, file: &[u8]) -> (names: Result<Vec<String>, Error>)
        ensures
            match self.carried(file@) {
                Ok(items) => {
                    &&& names is Ok
                    &&& names->Ok_0@.len() == items.len()
                    &&& forall|j: int|
                        0 <= j < items.len() ==> (#[trigger] names->Ok_0@[j])@ == items[j].name
                },
                Err(e) => names == Err::<Vec<String>, Error>(e),
            },
    ;

    /// `file` with `data` hidden in it under the given chunk type, behind
    /// what it carried before. A file that cannot be read is an error.
    fn hide_data(&self, file: &[u8], data: Vec<u8>, chunk_type: ChunkType) -> (written: Result<
        Vec<u8>,
        Error,
    >)
        requires
            data@.len() <= u32::MAX,
        ensures
            match self.carried(file@) {
                Ok(items) => {
                    &&& written is Ok
                    &&& self.carried(written->Ok_0@) == Ok::<Seq<Carried>, Error>(
                        if self.carries(chunk_type@) {
                            items.push(Carried { name: ascii_chars(chunk_type@), data: data@ })
                        } else {
                            items
                        },
                    )
                },
                Err(e) => written == Err::<Vec<u8>, Error>(e),
            },
    ;
}

/// The hidden items among `chunks`: those of the custom chunks.
pub open spec fn carried_by(chunks: Seq<ChunkView>) -> Seq<Carried> {
    let custom = custom_of(chunks);
    Seq::new(
        custom.len(),
        |j: int| Carried { name: ascii_chars(custom[j].tag), data: custom[j].data },
    )
}

impl SteganographyFormat for FileFormat {
    open spec fn carried(&self, file: Seq<u8>) -> Result<Seq<Carried>, Error> {
        match parse_png(file) {
            Ok(chunks) => Ok(carried_by(chunks)),
            Err(e) => Err(e),
        }
    }

    open spec fn carries(&self, chunk_type: Seq<u8>) -> bool {
        !is_structural(chunk_type)
    }

    /// Reads `file` and lists what its custom chunks carry. A file that
    /// cannot be read is an error; one that carries nothing is not.
    fn auto_detect_hidden_data(&self, file: &[u8]) -> (catalog: Result<Vec<HiddenData>, Error>)
        ensures
            catalog is Ok <==> parse_png(file@) is Ok,
            catalog is Err ==> parse_png(file@) == Err::<Seq<ChunkView>, Error>(catalog->Err_0),
            catalog is Ok ==> {
                let custom = custom_of(parse_png(file@)->Ok_0);
                &&& catalog->Ok_0@.len() == custom.len()
                &&& forall|j: int|
                    0 <= j < custom.len() ==> #[trigger] catalog->Ok_0@[j] == listing_of(
                        custom[j].data,
                    )
            },
    {
        match self {
            FileFormat::Png => {
                let png = Png::from_bytes(file)?;
                Ok(png.auto_detect_hidden_data())
            },
        }
    }

    /// Reads `file` and hands out what its custom chunks carry. A file that
    /// cannot be read is an error, and so is one that carries nothing.
    fn extract_all_hidden_data(&self, file: &[u8]) -> (extracted: Result<
        Vec<ExtractedData>,
        Error,
    >)
        ensures
            extracted is Ok <==> parse_png(file@) is Ok && custom_of(parse_png(file@)->Ok_0).len()
                > 0,
            extracted is Err ==> match parse_png(file@) {
                Ok(_) => extracted->Err_0 == Error::NoHiddenData,
                Err(e) => extracted->Err_0 == e,
            },
            extracted is Ok ==> {
                let custom = custom_of(parse_png(file@)->Ok_0);
                &&& extracted->Ok_0@.len() == custom.len()
                &&& forall|j: int|
                    0 <= j < custom.len() ==> extracts(
                        #[trigger] extracted->Ok_0@[j],
                        custom[j].data,
                    )
            },
    {
        match self {
            FileFormat::Png => {
                let png = Png::from_bytes(file)?;
                png.extract_all_hidden_data()
            },
        }
    }

    /// Reads `file` and names the types of its custom chunks, in their order.
    fn list_custom_chunks(&self, file: &[u8]) -> (names: Result<Vec<String>, Error>)
        ensures
            names is Ok <==> parse_png(file@) is Ok,
            names is Err ==> parse_png(file@) == Err::<Seq<ChunkView>, Error>(names->Err_0),
            names is Ok ==> {
                let custom = custom_of(parse_png(file@)->Ok_0);
                &&& names->Ok_0@.len() == custom.len()
                &&& forall|j: int|
                    0 <= j < custom.len() ==> (#[trigger] names->Ok_0@[j])@ == ascii_chars(
                        custom[j].tag,
                    )
            },
    {
        match self {
            FileFormat::Png => {
                let png = Png::from_bytes(file)?;
                let custom = png.custom_chunks();
                let mut names: Vec<String> = Vec::new();
                let mut i: usize = 0;
                while i < custom.len()
                    invariant
                        i <= custom@.len(),
                        names@.len() == i,
                        forall|j: int|
                            0 <= j < i ==> (#[trigger] names@[j])@ == ascii_chars(custom@[j]@.tag),
                    decreases custom@.len() - i,
                {
                    names.push(custom[i].chunk_type().to_string());
                    i += 1;
                }
                Ok(names)
            },
        }
    }

    /// Reads `file`, adds a chunk of the given type around `data` behind its
    /// chunks, and writes the file out again.
    fn hide_data(&self, file: &[u8], data: Vec<u8>, chunk_type: ChunkType) -> (written: Result<
        Vec<u8>,
        Error,
    >)
        ensures
            written is Ok <==> parse_png(file@) is Ok,
            written is Err ==> parse_png(file@) == Err::<Seq<ChunkView>, Error>(written->Err_0),
            written is Ok ==> written->Ok_0@ == png_wire(
                parse_png(file@)->Ok_0.push(ChunkView::build(chunk_type@, data@)),
            ),
    {
        match self {
            FileFormat::Png => {
                let mut png = Png::from_bytes(file)?;
                let ghost before = png@;
                png.hide_data(data, chunk_type);
                let written = png.as_bytes();
                proof {
                    let added = ChunkView::build(chunk_type@, data@);
                    before.lemma_filter_push(added, is_custom());
                    assert(carried_by(before.push(added)) =~= if !is_structural(chunk_type@) {
                        carried_by(before).push(
                            Carried { name: ascii_chars(chunk_type@), data: data@ },
                        )
                    } else {
                        carried_by(before)
                    });
                }
                Ok(written)
            },
        }
    }
}

} // verus!
