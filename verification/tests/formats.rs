use veil::formats::get_chunk_type_from_extension;
use veil::png::{Chunk, ChunkType, Png};
use veil::{DataType, Error, FileFormat, HiddenData, SteganographyFormat};

fn chunk(chunk_type: &str, data: &[u8]) -> Chunk {
    Chunk::new(ChunkType::from_text(chunk_type).unwrap(), data.to_vec())
}

fn plain() -> Vec<u8> {
    Png::from_chunks(vec![
        chunk("IHDR", b"fake header data"),
        chunk("IDAT", b"fake image data"),
        chunk("IEND", b""),
    ])
    .as_bytes()
}

#[test]
fn format_is_detected_from_extension_and_signature() {
    let file = plain();
    assert_eq!(FileFormat::detect("png", &file), Ok(FileFormat::Png));
    assert_eq!(FileFormat::detect("PNG", &file[..8]), Ok(FileFormat::Png));
    assert_eq!(FileFormat::detect("Png", &file), Ok(FileFormat::Png));
    assert_eq!(FileFormat::detect("jpg", &file), Err(Error::UnsupportedFormat));
    assert_eq!(FileFormat::detect("", &file), Err(Error::UnsupportedFormat));
    assert_eq!(FileFormat::detect("pn", &file), Err(Error::UnsupportedFormat));
    assert_eq!(FileFormat::detect("png", &file[1..]), Err(Error::BadSignature));
    assert_eq!(FileFormat::detect("png", &file[..7]), Err(Error::Truncated));
    assert_eq!(FileFormat::detect("jpg", &file[..7]), Err(Error::Truncated));
}

#[test]
fn extension_names_the_chunk_type() {
    let cases = [
        ("txt", "TeXt"),
        ("text", "TeXt"),
        ("TXT", "TeXt"),
        ("json", "JSON"),
        ("Json", "JSON"),
        ("jpg", "JPEG"),
        ("jpeg", "JPEG"),
        ("png", "DATA"),
        ("gif", "DATA"),
        ("bmp", "DATA"),
        ("zip", "DATA"),
        ("gz", "DATA"),
        ("pdf", "DATA"),
        ("doc", "DATA"),
        ("docx", "DATA"),
        ("xls", "DATA"),
        ("xlsx", "DATA"),
        ("ppt", "DATA"),
        ("pptx", "DATA"),
        ("bin", "DATA"),
        ("", "DATA"),
        ("tx", "DATA"),
        ("txts", "DATA"),
    ];
    for (extension, expected) in cases {
        assert_eq!(get_chunk_type_from_extension(extension).to_string(), expected);
    }
}

#[test]
fn format_works_on_a_file_held_as_bytes() {
    let format = FileFormat::Png;
    let file = plain();
    assert_eq!(format.auto_detect_hidden_data(&file), Ok(Vec::new()));
    assert_eq!(format.extract_all_hidden_data(&file), Err(Error::NoHiddenData));
    assert_eq!(format.list_custom_chunks(&file), Ok(Vec::new()));

    let hidden = format
        .hide_data(&file, b"secret".to_vec(), ChunkType::from_text("TeXt").unwrap())
        .unwrap();
    assert_eq!(&hidden[..file.len()], &file[..]);
    assert_eq!(&hidden[file.len()..], &chunk("TeXt", b"secret").as_bytes()[..]);
    assert_eq!(
        format.auto_detect_hidden_data(&hidden),
        Ok(vec![HiddenData { data_type: DataType::Text, size: 6 }])
    );
    assert_eq!(format.list_custom_chunks(&hidden), Ok(vec![String::from("TeXt")]));
    let extracted = format.extract_all_hidden_data(&hidden).unwrap();
    assert_eq!(extracted.len(), 1);
    assert_eq!(extracted[0].content, veil::Content::Text(String::from("secret")));
}

#[test]
fn format_refuses_a_file_that_cannot_be_read() {
    let format = FileFormat::Png;
    let mut file = plain();
    file[0] = 0;
    assert_eq!(format.auto_detect_hidden_data(&file), Err(Error::BadSignature));
    assert_eq!(format.extract_all_hidden_data(&file), Err(Error::BadSignature));
    assert_eq!(format.list_custom_chunks(&file), Err(Error::BadSignature));
    assert_eq!(
        format.hide_data(&file, Vec::new(), ChunkType::from_text("TeXt").unwrap()),
        Err(Error::BadSignature)
    );
    let mut file = plain();
    let last = file.len() - 1;
    file[last] ^= 1;
    assert_eq!(format.extract_all_hidden_data(&file), Err(Error::ChecksumMismatch));
}
