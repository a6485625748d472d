use std::io::Write;

use nbtrs::{Error, RegionFile, Taglike};

/// Builds a region source with one chunk record at sector 2 for slot (0, 0):
/// the 8192-byte header, then the record `[len][code][payload]`.
fn region_with_chunk(code: u8, payload: &[u8], timestamp: u32) -> Vec<u8> {
    let mut data = vec![0u8; 8192];
    // Slot (0, 0): sector offset 2, sector count 1.
    let word: u32 = (2 << 8) | 1;
    data[0..4].copy_from_slice(&word.to_be_bytes());
    data[4096..4100].copy_from_slice(&timestamp.to_be_bytes());
    let len: u32 = 1 + payload.len() as u32;
    data.extend_from_slice(&len.to_be_bytes());
    data.push(code);
    data.extend_from_slice(payload);
    data
}

fn zlib_compress(plain: &[u8]) -> Vec<u8> {
    let mut enc = flate2::write::ZlibEncoder::new(Vec::new(), flate2::Compression::default());
    enc.write_all(plain).unwrap();
    enc.finish().unwrap()
}

/// A named document: compound "Level" { Long "LastUpdate" = 137577,
/// Int "zPos" = 0 } under an empty root name.
fn level_blob() -> Vec<u8> {
    let mut plain: Vec<u8> = vec![10, 0, 0];
    plain.extend_from_slice(&[10, 0, 5, b'L', b'e', b'v', b'e', b'l']);
    plain.extend_from_slice(&[4, 0, 10]);
    plain.extend_from_slice(b"LastUpdate");
    plain.extend_from_slice(&137577u64.to_be_bytes());
    plain.extend_from_slice(&[3, 0, 4]);
    plain.extend_from_slice(b"zPos");
    plain.extend_from_slice(&0u32.to_be_bytes());
    plain.push(0); // end of "Level"
    plain.push(0); // end of root
    plain
}

#[test]
fn region_header_too_short() {
    let data = vec![0u8; 100];
    assert_eq!(RegionFile::new(data).unwrap_err(), Error::UnexpectedEof);
}

#[test]
fn region_absent_slot() {
    let data = region_with_chunk(2, &zlib_compress(&level_blob()), 1383443712);
    let region = RegionFile::new(data).unwrap();
    // Slot (13, 23) has offset zero and timestamp zero.
    assert!(!region.chunk_exists(13, 23).unwrap());
    assert_eq!(region.get_chunk_timestamp(13, 23).unwrap(), None);
    assert_eq!(
        region.load_chunk(13, 23).unwrap_err(),
        Error::AbsentChunk { x: 13, z: 23 }
    );
}

#[test]
fn region_present_slot() {
    let data = region_with_chunk(2, &zlib_compress(&level_blob()), 1383443712);
    let region = RegionFile::new(data).unwrap();
    assert!(region.chunk_exists(0, 0).unwrap());
    assert_eq!(region.get_chunk_timestamp(0, 0).unwrap(), Some(1383443712));
    assert_eq!(region.get_chunk_offset(0, 0).unwrap(), 8192);
}

#[test]
fn region_out_of_bounds_coordinates() {
    let data = region_with_chunk(2, &zlib_compress(&level_blob()), 1);
    let region = RegionFile::new(data).unwrap();
    assert_eq!(
        region.chunk_exists(32, 0).unwrap_err(),
        Error::OutOfBounds { x: 32, z: 0 }
    );
    assert_eq!(
        region.get_chunk_timestamp(0, 200).unwrap_err(),
        Error::OutOfBounds { x: 0, z: 200 }
    );
    assert_eq!(
        region.load_chunk(255, 255).unwrap_err(),
        Error::OutOfBounds { x: 255, z: 255 }
    );
}

#[test]
fn region_chunk_pipeline() {
    // The loaded chunk decompresses and decodes to exactly the blob's
    // structure; the root name is discarded.
    let data = region_with_chunk(2, &zlib_compress(&level_blob()), 1383443712);
    let region = RegionFile::new(data).unwrap();
    let tag = region.load_chunk(0, 0).unwrap();
    let level = tag.key("Level").unwrap();
    assert_eq!(level.key("LastUpdate").as_i64().unwrap(), 137577);
    assert_eq!(level.key("zPos").as_i32().unwrap(), 0);
    // Loads are not cached: a second load decodes the same tree again.
    let again = region.load_chunk(0, 0).unwrap();
    assert_eq!(tag, again);
}

#[test]
fn region_unsupported_compression_code() {
    let data = region_with_chunk(5, &zlib_compress(&level_blob()), 1);
    let region = RegionFile::new(data).unwrap();
    assert_eq!(
        region.load_chunk(0, 0).unwrap_err(),
        Error::UnsupportedCompressionFormat { compression_type: 5 }
    );
}

#[test]
fn region_corrupt_compressed_payload() {
    let data = region_with_chunk(2, &[1, 2, 3, 4], 1);
    let region = RegionFile::new(data).unwrap();
    assert_eq!(region.load_chunk(0, 0).unwrap_err(), Error::BadCompressedData);
}

#[test]
fn region_truncated_record() {
    // The slot points at sector 2, but the source ends inside the header of
    // the record.
    let mut data = vec![0u8; 8192];
    let word: u32 = (2 << 8) | 1;
    data[0..4].copy_from_slice(&word.to_be_bytes());
    data.extend_from_slice(&[0, 0]);
    let region = RegionFile::new(data).unwrap();
    assert_eq!(region.load_chunk(0, 0).unwrap_err(), Error::UnexpectedEof);
}
