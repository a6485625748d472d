//! The region container: a fixed-slot, randomly addressable store of up to
//! 1024 independently compressed encoded trees, indexed by an (x, z)
//! coordinate with x and z in `[0, 32)`.
//!
//! The container owns the region source's bytes. Its 8192-byte header holds
//! 1024 big-endian offset words — the upper three bytes count 4096-byte
//! sectors from the start of the source, zero meaning the slot is absent,
//! and the low byte is a sector-count hint — followed by 1024 big-endian
//! modification timestamps. The header tables are read once at construction;
//! chunk payloads are read on each call and never cached.

use vstd::prelude::*;

use crate::error::{Error, ErrorV};
use crate::format::{be_val, spec_parse_root};
use crate::tag::{tag_view, Tag, TagV};

verus! {

/// The byte offset stored in a header slot: the offset word's upper three
/// bytes, in 4096-byte sectors. Zero means the slot holds no chunk.
pub open spec fn slot_offset(data: Seq<u8>, i: int) -> int {
    (be_val(data, 4 * i, 4) as int / 256) * 4096
}

/// The sector-count hint stored in a header slot: the offset word's low byte.
pub open spec fn slot_sectors(data: Seq<u8>, i: int) -> int {
    be_val(data, 4 * i, 4) as int % 256
}

/// The modification timestamp stored in a header slot. Zero means absent.
pub open spec fn slot_timestamp(data: Seq<u8>, i: int) -> int {
    be_val(data, 4096 + 4 * i, 4) as int
}

/// The header slot that coordinate (x, z) addresses.
pub open spec fn slot_index(x: u8, z: u8) -> int {
    x + z * 32
}

/// What inflating a zlib stream yields; a function of the compressed bytes
/// alone, with no result for a stream the format rejects.
pub uninterp spec fn zlib_inflate(bytes: Seq<u8>) -> Option<Seq<u8>>;

/// Relies on `flate2::read::ZlibDecoder`: inflates a whole zlib stream,
/// failing on malformed input. Inflation is deterministic in its input.
#[verifier::external_body]
fn zlib_decompress(data: &[u8]) -> (r: Option<Vec<u8>>)
    ensures
        match r {
            Some(v) => zlib_inflate(data@) == Some(v@),
            None => zlib_inflate(data@) is None,
        },
{
    let mut decoder = flate2::read::ZlibDecoder::new(data);
    let mut out = Vec::new();
    match std::io::Read::read_to_end(&mut decoder, &mut out) {
        Ok(_) => Some(out),
        Err(_) => None,
    }
}

/// The whole chunk-loading pipeline for coordinate (x, z) over a region
/// source: bounds check, absent-slot check, the 4-byte length covering the
/// compression-type byte plus payload, the compression-type byte (2, zlib,
/// is the only supported scheme), inflation, and a full decode of the
/// inflated bytes, whose root name is discarded.
pub open spec fn spec_load_chunk(data: Seq<u8>, x: u8, z: u8) -> Result<TagV, ErrorV> {
    if !(x < 32 && z < 32) {
        Err(ErrorV::OutOfBounds { x, z })
    } else {
        let off = slot_offset(data, slot_index(x, z));
        if off == 0 {
            Err(ErrorV::AbsentChunk { x, z })
        } else if off + 5 > data.len() {
            Err(ErrorV::UnexpectedEof)
        } else {
            let total = be_val(data, off, 4);
            let code = data[off + 4];
            if code != 2 {
                Err(ErrorV::UnsupportedCompressionFormat { compression_type: code })
            } else if total < 1 {
                Err(ErrorV::UnexpectedEof)
            } else if off + 4 + total > data.len() {
                Err(ErrorV::UnexpectedEof)
            } else {
                let compressed = data.subrange(off + 5, off + 4 + total);
                match zlib_inflate(compressed) {
                    None => Err(ErrorV::BadCompressedData),
                    Some(plain) => match spec_parse_root(plain) {
                        Ok((name, t)) => Ok(t),
                        Err(e) => Err(e),
                    },
                }
            }
        }
    }
}

/// A region container over an in-memory seekable byte source.
///
/// Constructed by [`RegionFile::new`], which reads the two header tables
/// once; they are immutable for the life of the container.
#[derive(Debug)]
pub struct RegionFile {
    /// Byte offset of each chunk from the start of the source; zero means
    /// the chunk does not exist.
    offsets: Vec<u64>,
    /// Modification timestamp of each chunk; zero if the chunk does not
    /// exist.
    timestamps: Vec<u32>,
    /// Size hint of each chunk, in 4096-byte sectors; not authoritative for
    /// decoding.
    chunk_size: Vec<u8>,
    /// The region source's bytes.
    data: Vec<u8>,
}

impl RegionFile {
    /// The header tables mirror the source exactly.
    pub closed spec fn wf(&self) -> bool {
        &&& self.offsets@.len() == 1024
        &&& self.timestamps@.len() == 1024
        &&& self.chunk_size@.len() == 1024
        &&& self.data@.len() >= 8192
        &&& forall|i: int| 0 <= i < 1024 ==> self.offsets@[i] == slot_offset(self.data@, i)
        &&& forall|i: int|
            0 <= i < 1024 ==> self.timestamps@[i] == slot_timestamp(self.data@, i)
        &&& forall|i: int| 0 <= i < 1024 ==> self.chunk_size@[i] == slot_sectors(self.data@, i)
    }

    /// The source this container reads.
    pub closed spec fn source(&self) -> Seq<u8> {
        self.data@
    }

    /// Reads the fixed 8192-byte header of a region source and takes
    /// ownership of it. Fails exactly when the source is shorter than the
    /// header.
    pub fn new(data: Vec<u8>) -> (r: Result<RegionFile, Error>)
        ensures
            (match r {
                Ok(rf) => data@.len() >= 8192 && rf.wf() && rf.source() == data@,
                Err(e) => data@.len() < 8192 && e.deep_view() == ErrorV::UnexpectedEof,
            }),
    {
        if data.len() < 8192 {
            return Err(Error::UnexpectedEof);
        }
        let mut offsets: Vec<u64> = Vec::new();
        let mut timestamps: Vec<u32> = Vec::new();
        let mut chunk_size: Vec<u8> = Vec::new();
        let mut i: usize = 0;
        while i < 1024
            invariant
                data@.len() >= 8192,
                0 <= i <= 1024,
                offsets@.len() == i,
                chunk_size@.len() == i,
                forall|j: int| 0 <= j < i ==> offsets@[j] == slot_offset(data@, j),
                forall|j: int| 0 <= j < i ==> chunk_size@[j] == slot_sectors(data@, j),
            decreases 1024 - i,
        {
            let v = crate::parse::be_u32(data.as_slice(), 4 * i);
            offsets.push(((v / 256) as u64) * 4096);
            chunk_size.push((v % 256) as u8);
            i += 1;
        }
        let mut i: usize = 0;
        while i < 1024
            invariant
                data@.len() >= 8192,
                0 <= i <= 1024,
                timestamps@.len() == i,
                forall|j: int| 0 <= j < i ==> timestamps@[j] == slot_timestamp(data@, j),
            decreases 1024 - i,
        {
            let ts = crate::parse::be_u32(data.as_slice(), 4096 + 4 * i);
            timestamps.push(ts);
            i += 1;
        }
        Ok(RegionFile { offsets, timestamps, chunk_size, data })
    }

    /// The unix timestamp of the chunk's last modification, or `None` if the
    /// chunk does not exist. Out-of-range coordinates are an ordinary
    /// failure, never a crash.
    pub fn get_chunk_timestamp(&self, x: u8, z: u8) -> (r: Result<Option<u32>, Error>)
        requires
            self.wf(),
        ensures
            (match r {
                Ok(ts) => x < 32 && z < 32 && (match ts {
                    Some(t) => t == slot_timestamp(self.source(), slot_index(x, z)) && t != 0,
                    None => slot_timestamp(self.source(), slot_index(x, z)) == 0,
                }),
                Err(e) => !(x < 32 && z < 32) && e.deep_view() == ErrorV::OutOfBounds { x, z },
            }),
    {
        if !(x < 32 && z < 32) {
            return Err(Error::OutOfBounds { x, z });
        }
        let idx: usize = x as usize + (z as usize) * 32;
        let ts = self.timestamps[idx];
        if ts == 0 {
            Ok(None)
        } else {
            Ok(Some(ts))
        }
    }

    /// The byte offset of the chunk's record in the source, measured from
    /// the source's start; zero means the chunk does not exist.
    pub fn get_chunk_offset(&self, x: u8, z: u8) -> (r: Result<u64, Error>)
        requires
            self.wf(),
        ensures
            (match r {
                Ok(off) => x < 32 && z < 32 && off == slot_offset(
                    self.source(),
                    slot_index(x, z),
                ),
                Err(e) => !(x < 32 && z < 32) && e.deep_view() == ErrorV::OutOfBounds { x, z },
            }),
    {
        if !(x < 32 && z < 32) {
            return Err(Error::OutOfBounds { x, z });
        }
        let idx: usize = x as usize + (z as usize) * 32;
        Ok(self.offsets[idx])
    }

    /// Whether the chunk exists in this region: true exactly when its slot's
    /// stored offset is nonzero.
    pub fn chunk_exists(&self, x: u8, z: u8) -> (r: Result<bool, Error>)
        requires
            self.wf(),
        ensures
            (match r {
                Ok(b) => x < 32 && z < 32 && (b <==> slot_offset(
                    self.source(),
                    slot_index(x, z),
                ) != 0),
                Err(e) => !(x < 32 && z < 32) && e.deep_view() == ErrorV::OutOfBounds { x, z },
            }),
    {
        if !(x < 32 && z < 32) {
            return Err(Error::OutOfBounds { x, z });
        }
        let idx: usize = x as usize + (z as usize) * 32;
        Ok(self.offsets[idx] > 0)
    }

    /// Loads and fully decodes the chunk at (x, z): seeks to the slot's byte
    /// offset, reads the length-prefixed compressed record, checks the
    /// compression-type code, inflates the payload and decodes it, returning
    /// the tree and discarding the root's name. A slot whose stored offset
    /// is zero fails with the distinct absent-chunk error before any read is
    /// attempted. Nothing is cached: each call re-reads and re-inflates.
    pub fn load_chunk(&self, x: u8, z: u8) -> (r: Result<Tag, Error>)
        requires
            self.wf(),
        ensures
            (match r {
                Ok(t) => spec_load_chunk(self.source(), x, z) == Ok::<TagV, ErrorV>(
                    tag_view(t),
                ),
                Err(e) => spec_load_chunk(self.source(), x, z) == Err::<TagV, ErrorV>(
                    e.deep_view(),
                ),
            }),
            r matches Ok(t) ==> crate::tag::tagv_wf(tag_view(t)),
    {
        if !(x < 32 && z < 32) {
            return Err(Error::OutOfBounds { x, z });
        }
        let idx: usize = x as usize + (z as usize) * 32;
        let off = self.offsets[idx];
        if off == 0 {
            return Err(Error::AbsentChunk { x, z });
        }
        let len = self.data.len();
        if off + 5 > (len as u64) {
            return Err(Error::UnexpectedEof);
        }
        let off = off as usize;
        let total = crate::parse::be_u32(self.data.as_slice(), off);
        let code = self.data[off + 4];
        if code != 2 {
            return Err(Error::UnsupportedCompressionFormat { compression_type: code });
        }
        if total < 1 {
            return Err(Error::UnexpectedEof);
        }
        if (total as u64) > (len - (off + 4)) as u64 {
            return Err(Error::UnexpectedEof);
        }
        let total = total as usize;
        let compressed = vstd::slice::slice_subrange(
            self.data.as_slice(),
            off + 5,
            off + 4 + total,
        );
        match zlib_decompress(compressed) {
            None => Err(Error::BadCompressedData),
            Some(plain) => {
                match Tag::parse(plain.as_slice()) {
                    Ok((_name, t)) => Ok(t),
                    Err(e) => Err(e),
                }
            },
        }
    }
}

} // verus!
