use std::str::FromStr;
use veil::png::{Chunk, ChunkType};
use veil::Error;

fn testing_chunk() -> Chunk {
    let data_length: u32 = 42;
    let chunk_type = "RuSt".as_bytes();
    let message_bytes = "This is where your secret message will be!".as_bytes();
    let crc: u32 = 2882656334;

    let chunk_data: Vec<u8> = data_length
        .to_be_bytes()
        .iter()
        .chain(chunk_type.iter())
        .chain(message_bytes.iter())
        .chain(crc.to_be_bytes().iter())
        .copied()
        .collect();

    Chunk::try_from(chunk_data.as_ref()).unwrap()
}

#[test]
fn test_new_chunk() {
    let chunk_type = ChunkType::from_str("RuSt").unwrap();
    let data = "This is where your secret message will be!"
        .as_bytes()
        .to_vec();
    let chunk = Chunk::new(chunk_type, data);
    assert_eq!(chunk.length(), 42);
    assert_eq!(chunk.crc(), 2882656334);
}

#[test]
fn test_chunk_length() {
    let chunk = testing_chunk();
    assert_eq!(chunk.length(), 42);
}

#[test]
fn test_chunk_type() {
    let chunk = testing_chunk();
    assert_eq!(chunk.chunk_type().to_string(), String::from("RuSt"));
}

#[test]
fn test_chunk_string() {
    let chunk = testing_chunk();
    let chunk_string = chunk.data_as_string().unwrap();
    let expected_chunk_string = String::from("This is where your secret message will be!");
    assert_eq!(chunk_string, expected_chunk_string);
}

#[test]
fn test_chunk_crc() {
    let chunk = testing_chunk();
    assert_eq!(chunk.crc(), 2882656334);
}

#[test]
fn test_valid_chunk_from_bytes() {
    let data_length: u32 = 42;
    let chunk_type = "RuSt".as_bytes();
    let message_bytes = "This is where your secret message will be!".as_bytes();
    let crc: u32 = 2882656334;

    let chunk_data: Vec<u8> = data_length
        .to_be_bytes()
        .iter()
        .chain(chunk_type.iter())
        .chain(message_bytes.iter())
        .chain(crc.to_be_bytes().iter())
        .copied()
        .collect();

    let chunk = Chunk::try_from(chunk_data.as_ref()).unwrap();

    let chunk_string = chunk.data_as_string().unwrap();
    let expected_chunk_string = String::from("This is where your secret message will be!");

    assert_eq!(chunk.length(), 42);
    assert_eq!(chunk.chunk_type().to_string(), String::from("RuSt"));
    assert_eq!(chunk_string, expected_chunk_string);
    assert_eq!(chunk.crc(), 2882656334);
}

#[test]
fn test_invalid_chunk_from_bytes() {
    let data_length: u32 = 42;
    let chunk_type = "RuSt".as_bytes();
    let message_bytes = "This is where your secret message will be!".as_bytes();
    let crc: u32 = 2882656333;

    let chunk_data: Vec<u8> = data_length
        .to_be_bytes()
        .iter()
        .chain(chunk_type.iter())
        .chain(message_bytes.iter())
        .chain(crc.to_be_bytes().iter())
        .copied()
        .collect();

    let chunk = Chunk::try_from(chunk_data.as_ref());

    assert!(chunk.is_err());
}

#[test]
pub fn test_chunk_trait_impls() {
    let data_length: u32 = 42;
    let chunk_type = "RuSt".as_bytes();
    let message_bytes = "This is where your secret message will be!".as_bytes();
    let crc: u32 = 2882656334;

    let chunk_data: Vec<u8> = data_length
        .to_be_bytes()
        .iter()
        .chain(chunk_type.iter())
        .chain(message_bytes.iter())
        .chain(crc.to_be_bytes().iter())
        .copied()
        .collect();

    let chunk: Chunk = TryFrom::try_from(chunk_data.as_ref()).unwrap();

    let _chunk_string = chunk.to_string();
}

#[test]
fn chunk_is_described_line_by_line() {
    assert_eq!(
        testing_chunk().to_string(),
        "Chunk {\n  Length: 42\n  Type: RuSt\n  Data: 42 bytes\n  Crc: 2882656334\n}\n"
    );
    let end = Chunk::new(ChunkType::from_text("IEND").unwrap(), Vec::new());
    assert_eq!(
        end.to_string(),
        "Chunk {\n  Length: 0\n  Type: IEND\n  Data: 0 bytes\n  Crc: 2923585666\n}\n"
    );
    let _debug = format!("{:?}", end);
}

#[test]
fn chunk_bytes_are_length_type_payload_checksum() {
    let end = Chunk::new(ChunkType::from_text("IEND").unwrap(), Vec::new());
    assert_eq!(end.length(), 0);
    assert_eq!(end.crc(), 0xae42_6082);
    assert_eq!(
        end.as_bytes(),
        vec![0, 0, 0, 0, 0x49, 0x45, 0x4e, 0x44, 0xae, 0x42, 0x60, 0x82]
    );

    let chunk = testing_chunk();
    let bytes = chunk.as_bytes();
    assert_eq!(bytes.len(), 12 + 42);
    assert_eq!(&bytes[0..4], &[0, 0, 0, 42]);
    assert_eq!(&bytes[4..8], b"RuSt");
    assert_eq!(&bytes[8..50], chunk.data());
    assert_eq!(&bytes[50..54], &[0xab, 0xd1, 0xd8, 0x4e]);
}

#[test]
fn chunk_length_is_written_big_endian() {
    let data = vec![7u8; 0x0102];
    let chunk = Chunk::new(ChunkType::from_text("teSt").unwrap(), data);
    let bytes = chunk.as_bytes();
    assert_eq!(&bytes[0..4], &[0, 0, 1, 2]);
    let back = Chunk::from_bytes(&bytes).unwrap();
    assert_eq!(back.length(), 0x0102);
    assert_eq!(back.data(), chunk.data());
    assert_eq!(back.crc(), chunk.crc());
}

#[test]
fn chunk_round_trip() {
    for payload in [&b""[..], &b"a"[..], &b"secret"[..], &[0u8, 255, 128, 7][..]] {
        let chunk = Chunk::new(ChunkType::from_text("vEiL").unwrap(), payload.to_vec());
        let back = Chunk::from_bytes(&chunk.as_bytes()).unwrap();
        assert_eq!(back.length(), chunk.length());
        assert_eq!(back.chunk_type(), chunk.chunk_type());
        assert_eq!(back.data(), chunk.data());
        assert_eq!(back.crc(), chunk.crc());
        assert_eq!(back.as_bytes(), chunk.as_bytes());
    }
}

#[test]
fn chunk_ignores_what_follows_it() {
    let chunk = testing_chunk();
    let mut bytes = chunk.as_bytes();
    bytes.extend_from_slice(b"trailing bytes");
    let back = Chunk::from_bytes(&bytes).unwrap();
    assert_eq!(back.length(), 42);
    assert_eq!(back.data(), chunk.data());
}

#[test]
fn chunk_clone_is_the_same_chunk() {
    let chunk = testing_chunk();
    let copy = chunk.clone();
    assert_eq!(copy.as_bytes(), chunk.as_bytes());
}

#[test]
fn short_buffer_is_truncated() {
    assert_eq!(Chunk::from_bytes(&[]).err(), Some(Error::Truncated));
    assert_eq!(Chunk::from_bytes(&[0; 11]).err(), Some(Error::Truncated));
    let bytes = testing_chunk().as_bytes();
    assert_eq!(
        Chunk::from_bytes(&bytes[..bytes.len() - 1]).err(),
        Some(Error::Truncated)
    );
    assert_eq!(Chunk::from_bytes(&bytes[..12]).err(), Some(Error::Truncated));
}

#[test]
fn huge_length_is_truncated() {
    let mut bytes = vec![0xff, 0xff, 0xff, 0xff];
    bytes.extend_from_slice(b"RuSt");
    bytes.extend_from_slice(&[0; 16]);
    assert_eq!(Chunk::from_bytes(&bytes).err(), Some(Error::Truncated));
}

#[test]
fn bad_type_is_reported_before_length_and_checksum() {
    let mut bytes = testing_chunk().as_bytes();
    bytes[6] = b'1';
    assert_eq!(Chunk::from_bytes(&bytes).err(), Some(Error::InvalidTag));
    assert_eq!(Chunk::from_bytes(&bytes[..12]).err(), Some(Error::InvalidTag));
}

#[test]
fn wrong_checksum_is_a_mismatch() {
    let mut bytes = testing_chunk().as_bytes();
    let last = bytes.len() - 1;
    bytes[last] ^= 1;
    assert_eq!(Chunk::from_bytes(&bytes).err(), Some(Error::ChecksumMismatch));
}

#[test]
fn every_flipped_bit_of_type_or_payload_is_refused() {
    let bytes = testing_chunk().as_bytes();
    for at in 4..bytes.len() - 4 {
        for bit in 0..8 {
            let mut changed = bytes.clone();
            changed[at] ^= 1 << bit;
            let still_letters = changed[4..8].iter().all(|b| b.is_ascii_alphabetic());
            let expected = if still_letters {
                Error::ChecksumMismatch
            } else {
                Error::InvalidTag
            };
            assert_eq!(Chunk::from_bytes(&changed).err(), Some(expected));
        }
    }
}

#[test]
fn payload_that_is_not_utf8_is_no_text() {
    let chunk = Chunk::new(ChunkType::from_text("vEiL").unwrap(), vec![0xff, 0xfe]);
    assert_eq!(chunk.data_as_string(), Err(Error::InvalidEncoding));
    let chunk = Chunk::new(
        ChunkType::from_text("vEiL").unwrap(),
        "h\u{e9}llo \u{1f600}".as_bytes().to_vec(),
    );
    assert_eq!(chunk.data_as_string(), Ok(String::from("h\u{e9}llo \u{1f600}")));
}

#[test]
fn every_changed_byte_of_type_or_payload_is_refused() {
    let chunk = Chunk::new(ChunkType::from_text("vEiL").unwrap(), b"secret".to_vec());
    let bytes = chunk.as_bytes();
    for at in 4..bytes.len() - 4 {
        for byte in 0..=255u8 {
            if byte == bytes[at] {
                continue;
            }
            let mut changed = bytes.clone();
            changed[at] = byte;
            let still_letters = changed[4..8].iter().all(|b| b.is_ascii_alphabetic());
            let expected = if still_letters {
                Error::ChecksumMismatch
            } else {
                Error::InvalidTag
            };
            assert_eq!(Chunk::from_bytes(&changed).err(), Some(expected));
        }
    }
}

#[test]
fn checksum_is_crc32_iso_hdlc() {
    // The checksum covers the type and the payload, and not the length.
    let end = Chunk::new(ChunkType::from_text("IEND").unwrap(), Vec::new());
    assert_eq!(end.crc(), 0xae42_6082);
    let chunk = Chunk::new(ChunkType::from_text("abcd").unwrap(), b"efgh".to_vec());
    assert_eq!(chunk.crc(), 0xaeef_2a50);
    let other = Chunk::new(ChunkType::from_text("abcd").unwrap(), b"efgi".to_vec());
    assert_ne!(other.crc(), chunk.crc());
}
