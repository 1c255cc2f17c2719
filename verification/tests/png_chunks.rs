use pge::ressources::png::chunk;
use pge::ressources::png::chunk::Chunk;
use pge::ressources::png::chunktype;
use pge::ressources::png::chunktype::ChunkType;
use pge::ressources::png::{Error, Png, PNG_SIGNATURE};

fn frame(kind: &[u8; 4], data: &[u8], crc: [u8; 4]) -> Vec<u8> {
    let mut out = Vec::new();
    out.extend_from_slice(&(data.len() as u32).to_be_bytes());
    out.extend_from_slice(kind);
    out.extend_from_slice(data);
    out.extend_from_slice(&crc);
    out
}

fn stream(chunks: &[Vec<u8>]) -> Vec<u8> {
    let mut out = PNG_SIGNATURE.to_vec();
    for c in chunks {
        out.extend_from_slice(c);
    }
    out
}

#[test]
fn chunk_type_keeps_its_bytes() {
    let t = ChunkType::from_bytes(*b"IHDR").unwrap();
    assert_eq!(t.bytes(), [73, 72, 68, 82]);
    assert_eq!(t.as_string(), "IHDR");
    assert_eq!(t.try_as_string(), Some("IHDR".to_string()));
}

#[test]
fn chunk_type_reads_the_case_bits() {
    let t = ChunkType::from_bytes(*b"IHDR").unwrap();
    assert!(t.is_critical());
    assert!(t.is_public());
    assert!(t.is_reserved_bit_valid());
    assert!(t.is_valid());
    let t = ChunkType::from_bytes(*b"tEXt").unwrap();
    assert!(!t.is_critical());
    assert!(t.is_public());
    assert!(t.is_reserved_bit_valid());
    let t = ChunkType::from_bytes(*b"prVt").unwrap();
    assert!(!t.is_critical());
    assert!(!t.is_public());
}

#[test]
fn safe_to_copy_by_the_last_letter() {
    for kind in [b"IHDR", b"IDAT", b"cHRM", b"abCD"] {
        assert!(!ChunkType::from_bytes(*kind).unwrap().is_safe_to_copy());
    }
    for kind in [b"tEXt", b"RuSt", b"pHYs", b"abCd"] {
        assert!(ChunkType::from_bytes(*kind).unwrap().is_safe_to_copy());
    }
    // Only bit five of the last byte counts.
    assert!(!ChunkType::from_bytes([65, 65, 65, 1]).unwrap().is_safe_to_copy());
    assert!(ChunkType::from_bytes([65, 65, 65, 33]).unwrap().is_safe_to_copy());
    assert!(ChunkType::from_bytes([65, 65, 65, 32]).unwrap().is_safe_to_copy());
    assert!(!ChunkType::from_bytes([97, 97, 65, 223]).unwrap().is_safe_to_copy());
}

#[test]
fn chunk_type_with_reserved_bit_is_refused() {
    match ChunkType::from_bytes(*b"Rust") {
        Err(chunktype::Error::InvalidChunk { message }) => {
            assert_eq!(message, "The chunk is invalid!")
        }
        Ok(_) => panic!("the reserved bit is set"),
    }
    assert!(ChunkType::from_bytes([0, 0, 32, 0]).is_err());
    assert!(ChunkType::from_bytes([255, 255, 223, 255]).is_ok());
}

#[test]
fn chunk_type_that_is_not_text() {
    let t = ChunkType::from_bytes([255, 255, 223, 255]).unwrap();
    assert_eq!(t.try_as_string(), None);
    let t = ChunkType::from_bytes([0xC3, 0xA9, 0x41, 0x42]).unwrap();
    assert_eq!(t.try_as_string(), Some("\u{e9}AB".to_string()));
    assert_eq!(t.as_string(), "\u{e9}AB");
}

#[test]
fn chunk_holds_its_parts() {
    let t = ChunkType::from_bytes(*b"IDAT").unwrap();
    let c = Chunk::new(t, vec![1, 2, 3, 4, 5], [9, 8, 7, 6]);
    assert_eq!(c.length(), 5);
    assert_eq!(c.chunk_type().bytes(), *b"IDAT");
    assert_eq!(c.data(), &[1, 2, 3, 4, 5]);
    assert_eq!(c.crc_bytes(), [9, 8, 7, 6]);
    let empty = Chunk::new(t, Vec::new(), [0; 4]);
    assert_eq!(empty.length(), 0);
    assert!(empty.data().is_empty());
}

#[test]
fn stream_is_cut_up_to_the_closing_chunk() {
    let header = [0, 0, 0, 2, 0, 0, 0, 3, 8, 2, 0, 0, 0];
    let bytes = stream(&[
        frame(b"IHDR", &header, [1, 2, 3, 4]),
        frame(b"IDAT", &[10, 20, 30], [5, 6, 7, 8]),
        frame(b"IEND", &[], [0xAE, 0x42, 0x60, 0x82]),
        frame(b"tEXt", &[1], [0, 0, 0, 0]),
    ]);
    let png = Png::from_res(&bytes, "tile").unwrap();
    assert_eq!(png.name(), "tile");
    let chunks = png.chunks();
    assert_eq!(chunks.len(), 3);
    assert_eq!(chunks[0].chunk_type().bytes(), *b"IHDR");
    assert_eq!(chunks[0].length(), 13);
    assert_eq!(chunks[0].data(), &header);
    assert_eq!(chunks[0].crc_bytes(), [1, 2, 3, 4]);
    assert_eq!(chunks[1].chunk_type().bytes(), *b"IDAT");
    assert_eq!(chunks[1].data(), &[10, 20, 30]);
    assert_eq!(chunks[1].crc_bytes(), [5, 6, 7, 8]);
    assert_eq!(chunks[2].chunk_type().bytes(), *b"IEND");
    assert_eq!(chunks[2].length(), 0);
    assert_eq!(chunks[2].crc_bytes(), [0xAE, 0x42, 0x60, 0x82]);
}

#[test]
fn stream_of_the_closing_chunk_alone() {
    let bytes = stream(&[frame(b"IEND", &[], [0; 4])]);
    let png = Png::from_res(&bytes, "empty").unwrap();
    assert_eq!(png.chunks().len(), 1);
}

#[test]
fn length_is_read_most_significant_byte_first() {
    let data = vec![7u8; 0x0102];
    let bytes = stream(&[frame(b"IDAT", &data, [0; 4]), frame(b"IEND", &[], [0; 4])]);
    assert_eq!(&bytes[8..12], &[0, 0, 1, 2]);
    let png = Png::from_res(&bytes, "big").unwrap();
    assert_eq!(png.chunks()[0].length(), 258);
    assert_eq!(png.chunks()[0].data().len(), 258);
}

#[test]
fn stream_without_signature_is_corrupted() {
    let mut bytes = stream(&[frame(b"IEND", &[], [0; 4])]);
    bytes[0] = 136;
    assert!(matches!(
        Png::from_res(&bytes, "bad"),
        Err(Error::PngFileCorrupted { name }) if name == "bad"
    ));
    assert!(matches!(
        Png::from_res(&PNG_SIGNATURE[..7], "short"),
        Err(Error::PngFileCorrupted { name }) if name == "short"
    ));
    assert!(matches!(Png::from_res(&[], "none"), Err(Error::PngFileCorrupted { .. })));
}

#[test]
fn stream_that_ends_early_is_corrupted() {
    let whole = stream(&[
        frame(b"IDAT", &[1, 2, 3], [0; 4]),
        frame(b"IEND", &[], [0; 4]),
    ]);
    assert!(Png::from_res(&whole, "whole").is_ok());
    for cut in 8..whole.len() {
        assert!(
            matches!(
                Png::from_res(&whole[..cut], "cut"),
                Err(Error::PngFileCorrupted { name }) if name == "cut"
            ),
            "cut at {cut}"
        );
    }
    // No closing chunk at all.
    let open = stream(&[frame(b"IDAT", &[1, 2, 3], [0; 4])]);
    assert!(matches!(Png::from_res(&open, "open"), Err(Error::PngFileCorrupted { .. })));
    // A length that points past the end.
    let mut long = stream(&[frame(b"IEND", &[], [0; 4])]);
    long[8] = 0xFF;
    assert!(matches!(Png::from_res(&long, "long"), Err(Error::PngFileCorrupted { .. })));
}

#[test]
fn chunk_with_reserved_bit_is_invalid() {
    let bytes = stream(&[
        frame(b"IDAT", &[1], [0; 4]),
        frame(b"eXiF", &[2], [0; 4]),
        frame(b"IEND", &[], [0; 4]),
    ]);
    match Png::from_res(&bytes, "odd") {
        Err(Error::InvalidChunk {
            name,
            inner: chunk::Error::InvalidChunk(chunktype::Error::InvalidChunk { message }),
        }) => {
            assert_eq!(name, "odd");
            assert_eq!(message, "The chunk is invalid!");
        }
        other => panic!("{:?}", other.map(|p| p.chunks().len())),
    }
}

#[test]
fn header_is_read_from_the_first_chunk() {
    let header = [0, 0, 1, 2, 0, 0, 3, 4, 8, 6, 0, 0, 1];
    let bytes = stream(&[
        frame(b"IHDR", &header, [1, 2, 3, 4]),
        frame(b"IEND", &[], [0; 4]),
    ]);
    let png = Png::from_res(&bytes, "tile").unwrap();
    let info = png.read_ihdr().unwrap();
    assert_eq!(info.width, 258);
    assert_eq!(info.height, 772);
    assert_eq!(info.bit_depth, 8);
    assert_eq!(info.color_type, 6);
    assert_eq!(info.compression_method, 0);
    assert_eq!(info.filter_method, 0);
    assert_eq!(info.interlace_method, 1);
    assert_eq!((info.key_r, info.key_g, info.key_b), (0, 0, 0));
    assert!(info.key_defined);
    assert!(info.palette.is_empty());
}

#[test]
fn header_reads_the_largest_sizes() {
    let header = [255, 255, 255, 255, 128, 0, 0, 0, 16, 2, 0, 0, 0, 99];
    let bytes = stream(&[frame(b"IHDR", &header, [0; 4]), frame(b"IEND", &[], [0; 4])]);
    let info = Png::from_res(&bytes, "wide").unwrap().read_ihdr().unwrap();
    assert_eq!(info.width, u32::MAX);
    assert_eq!(info.height, 1 << 31);
    assert_eq!(info.bit_depth, 16);
    assert_eq!(info.color_type, 2);
}

#[test]
fn header_must_come_first() {
    let bytes = stream(&[
        frame(b"IDAT", &[1, 2, 3], [0; 4]),
        frame(b"IHDR", &[0; 13], [0; 4]),
        frame(b"IEND", &[], [0; 4]),
    ]);
    let png = Png::from_res(&bytes, "late").unwrap();
    match png.read_ihdr() {
        Err(Error::InvalidChunkOrder { name, message }) => {
            assert_eq!(name, "late");
            assert_eq!(message, "The first chunk must be an IHDR chunk. Found IDAT");
        }
        other => panic!("{:?}", other.map(|i| i.width)),
    }
    let bytes = stream(&[frame(b"IEND", &[], [0; 4])]);
    match Png::from_res(&bytes, "bare").unwrap().read_ihdr() {
        Err(Error::InvalidChunkOrder { message, .. }) => {
            assert_eq!(message, "The first chunk must be an IHDR chunk. Found IEND");
        }
        other => panic!("{:?}", other.map(|i| i.width)),
    }
}

#[test]
fn checksum_of_known_chunks() {
    let iend = Chunk::new(ChunkType::from_bytes(*b"IEND").unwrap(), Vec::new(), [0; 4]);
    assert_eq!(iend.crc(), 0xAE42_6082);
    let idat = Chunk::new(ChunkType::from_bytes(*b"IDAT").unwrap(), vec![1, 2, 3, 4, 5], [0; 4]);
    assert_eq!(idat.crc(), 0xCDA5_3720);
    let text = Chunk::new(ChunkType::from_bytes(*b"tEXt").unwrap(), b"123456789".to_vec(), [0; 4]);
    assert_eq!(text.crc(), 0xCDDB_A47B);
    // The header of an image of one pixel, eight bits deep, in true colour.
    let header = vec![0, 0, 0, 1, 0, 0, 0, 1, 8, 2, 0, 0, 0];
    let ihdr = Chunk::new(ChunkType::from_bytes(*b"IHDR").unwrap(), header, [0; 4]);
    assert_eq!(ihdr.crc(), 0x9077_53DE);
}

#[test]
fn checksum_is_compared_most_significant_byte_first() {
    let kind = ChunkType::from_bytes(*b"IEND").unwrap();
    assert!(Chunk::new(kind, Vec::new(), [0xAE, 0x42, 0x60, 0x82]).crc_check());
    assert!(!Chunk::new(kind, Vec::new(), [0x82, 0x60, 0x42, 0xAE]).crc_check());
    assert!(!Chunk::new(kind, Vec::new(), [0xAE, 0x42, 0x60, 0x83]).crc_check());
    assert!(!Chunk::new(kind, vec![0], [0xAE, 0x42, 0x60, 0x82]).crc_check());
    let kind = ChunkType::from_bytes(*b"IDAT").unwrap();
    assert!(Chunk::new(kind, vec![1, 2, 3, 4, 5], [0xCD, 0xA5, 0x37, 0x20]).crc_check());
    assert!(!Chunk::new(kind, vec![1, 2, 3, 4, 6], [0xCD, 0xA5, 0x37, 0x20]).crc_check());
}

#[test]
fn checksums_of_a_cut_stream() {
    let bytes = stream(&[
        frame(b"IDAT", &[1, 2, 3, 4, 5], [0xCD, 0xA5, 0x37, 0x20]),
        frame(b"IEND", &[], [0, 0, 0, 0]),
    ]);
    let png = Png::from_res(&bytes, "sums").unwrap();
    assert!(png.chunks()[0].crc_check());
    assert!(!png.chunks()[1].crc_check());
}

#[test]
fn header_that_cannot_be_read() {
    let short = stream(&[frame(b"IHDR", &[0; 12], [0; 4]), frame(b"IEND", &[], [0; 4])]);
    assert!(!Png::from_res(&short, "short").unwrap().header_readable());
    let whole = stream(&[frame(b"IHDR", &[0; 13], [0; 4]), frame(b"IEND", &[], [0; 4])]);
    assert!(Png::from_res(&whole, "whole").unwrap().header_readable());
    let other = stream(&[frame(b"IDAT", &[], [0; 4]), frame(b"IEND", &[], [0; 4])]);
    assert!(Png::from_res(&other, "other").unwrap().header_readable());
    let odd = stream(&[frame(&[255, 255, 65, 255], &[], [0; 4]), frame(b"IEND", &[], [0; 4])]);
    assert!(!Png::from_res(&odd, "odd").unwrap().header_readable());
}
