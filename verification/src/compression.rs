//! Market-data payload compression: LZ4 and Zstd through their crates,
//! format detection from magic bytes, CRC-32 integrity checks, and the
//! engine's byte counters.
use vstd::prelude::*;

verus! {

/// Compression format of a payload.
#[derive(Clone, Copy, Debug, PartialEq, Eq, Structural)]
pub enum CompressionType {
    Uncompressed,
    LZ4,
    Zstd,
}

/// Errors of the compression engine.
#[derive(Clone, Copy, Debug, PartialEq, Eq, Structural)]
pub enum CompressionError {
    /// The LZ4 library refused the input
    Lz4CompressionFailed,
    Lz4DecompressionFailed,
    /// The Zstd library refused the input
    ZstdCompressionFailed,
    ZstdDecompressionFailed,
    /// The checksum of a payload does not match
    DataIntegrityFailed,
}

/// CRC-32 (IEEE) checksum of a byte string, as computed by the `crc` crate.
pub uninterp spec fn crc32_ieee(data: Seq<u8>) -> u32;

/// LZ4 block compression of a byte string at a high-compression level, with
/// the source length prepended, as computed by the `lz4` crate (None when it
/// fails).
pub uninterp spec fn lz4_block_compress(data: Seq<u8>, level: i32) -> Option<Seq<u8>>;

/// LZ4 block decompression of a size-prefixed block (None when it fails).
pub uninterp spec fn lz4_block_decompress(data: Seq<u8>) -> Option<Seq<u8>>;

/// Zstd single-shot compression at a level, as computed by the `zstd` crate
/// (None when it fails).
pub uninterp spec fn zstd_bulk_compress(data: Seq<u8>, level: i32) -> Option<Seq<u8>>;

/// Zstd single-shot decompression with a capacity bound (None when it fails).
pub uninterp spec fn zstd_bulk_decompress(data: Seq<u8>, capacity: usize) -> Option<Seq<u8>>;

/// Calls `crc::crc32::checksum_ieee`: the CRC-32 (IEEE polynomial) of the
/// bytes. The contract only names the result; its value is not stated.
#[verifier::external_body]
pub(crate) fn crc32_checksum_ieee(data: &[u8]) -> (r: u32)
    ensures
        r == crc32_ieee(data@),
{
    crc::crc32::checksum_ieee(data)
}

/// Calls `lz4::block::compress` in high-compression mode with the source
/// length prepended. The contract names the result (the compressed bytes, or
/// a failure) as a function of the data and the level; the bytes are not
/// described, except that `lz4::block::decompress` (reading the prepended
/// size) gives the source back from them.
#[verifier::external_body]
fn lz4_compress_block(data: &[u8], level: i32) -> (r: Option<Vec<u8>>)
    ensures
        match r {
            Some(v) => lz4_block_compress(data@, level) == Some(v@),
            None => lz4_block_compress(data@, level) is None,
        },
        r matches Some(v) ==> lz4_block_decompress(v@) == Some(data@),
{
    lz4::block::compress(data, Some(lz4::block::CompressionMode::HIGHCOMPRESSION(level)), true).ok()
}

/// Calls `lz4::block::decompress` with the size read from the block prefix.
/// The contract names the result as a function of the data only.
#[verifier::external_body]
fn lz4_decompress_block(data: &[u8]) -> (r: Option<Vec<u8>>)
    ensures
        match r {
            Some(v) => lz4_block_decompress(data@) == Some(v@),
            None => lz4_block_decompress(data@) is None,
        },
{
    lz4::block::decompress(data, None).ok()
}

/// Calls `zstd::bulk::compress` at a level. The contract names the result as
/// a function of the data and the level, and states that the output is a
/// Zstd frame: it starts with the frame magic number 0xFD2FB528 (stored
/// little-endian), and `zstd::bulk::decompress` with a capacity of at least
/// the source length gives the source back from it.
#[verifier::external_body]
fn zstd_compress_bulk(data: &[u8], level: i32) -> (r: Option<Vec<u8>>)
    ensures
        match r {
            Some(v) => zstd_bulk_compress(data@, level) == Some(v@),
            None => zstd_bulk_compress(data@, level) is None,
        },
        r matches Some(v) ==> v@.len() >= 4 && v@[0] == 0x28 && v@[1] == 0xB5 && v@[2] == 0x2F && v@[3] == 0xFD,
        r matches Some(v) ==> forall|capacity: usize| data@.len() <= capacity
            ==> #[trigger] zstd_bulk_decompress(v@, capacity) == Some(data@),
{
    zstd::bulk::compress(data, level).ok()
}

/// Calls `zstd::bulk::decompress` with a capacity bound; the crate documents
/// that the output is at most `capacity` bytes, or an error is returned.
#[verifier::external_body]
fn zstd_decompress_bulk(data: &[u8], capacity: usize) -> (r: Option<Vec<u8>>)
    ensures
        match r {
            Some(v) => zstd_bulk_decompress(data@, capacity) == Some(v@) && v@.len() <= capacity,
            None => zstd_bulk_decompress(data@, capacity) is None,
        },
{
    zstd::bulk::decompress(data, capacity).ok()
}

/// Byte counters of the engine.
#[derive(Clone, Copy, Debug, PartialEq, Eq, Structural)]
pub struct CompressionStats {
    pub total_compressions: u64,
    pub total_decompressions: u64,
    pub total_original_bytes: u64,
    pub total_compressed_bytes: u64,
}

/// Compression engine with its levels and counters.
pub struct CompressionEngine {
    pub lz4_level: i32,
    pub zstd_level: i32,
    pub stats: CompressionStats,
}

/// Largest decompressed Zstd payload accepted (10 MiB).
pub open spec fn zstd_capacity() -> usize {
    10485760
}

/// Marker put before an LZ4 block: the LZ4 frame magic 0x184D2204, stored
/// little-endian.
pub open spec fn lz4_tag() -> Seq<u8> {
    seq![0x04u8, 0x22u8, 0x4Du8, 0x18u8]
}

/// Format detected from the first four bytes: the LZ4 frame magic in either
/// byte order, the Zstd magic, else uncompressed.
pub open spec fn detected_type(d: Seq<u8>) -> CompressionType {
    if d.len() >= 4 && ((d[0] == 0x18 && d[1] == 0x4D && d[2] == 0x22 && d[3] == 0x04) || (d[0] == 0x04
        && d[1] == 0x22 && d[2] == 0x4D && d[3] == 0x18)) {
        CompressionType::LZ4
    } else if d.len() >= 4 && d[0] == 0x28 && d[1] == 0xB5 && d[2] == 0x2F && d[3] == 0xFD {
        CompressionType::Zstd
    } else {
        CompressionType::Uncompressed
    }
}

/// Outcome of compressing data with a format and levels.
pub open spec fn compression_outcome(data: Seq<u8>, t: CompressionType, lz4_level: i32, zstd_level: i32) -> Result<Seq<u8>, CompressionError> {
    match t {
        CompressionType::Uncompressed => Ok(data),
        CompressionType::LZ4 => match lz4_block_compress(data, lz4_level) {
            Some(v) => Ok(lz4_tag() + v),
            None => Err(CompressionError::Lz4CompressionFailed),
        },
        CompressionType::Zstd => match zstd_bulk_compress(data, zstd_level) {
            Some(v) => Ok(v),
            None => Err(CompressionError::ZstdCompressionFailed),
        },
    }
}

/// Outcome of decompressing data after detecting its format.
pub open spec fn decompression_outcome(data: Seq<u8>) -> Result<Seq<u8>, CompressionError> {
    match detected_type(data) {
        CompressionType::Uncompressed => Ok(data),
        CompressionType::LZ4 => match lz4_block_decompress(data.skip(4)) {
            Some(v) => Ok(v),
            None => Err(CompressionError::Lz4DecompressionFailed),
        },
        CompressionType::Zstd => match zstd_bulk_decompress(data, zstd_capacity()) {
            Some(v) => Ok(v),
            None => Err(CompressionError::ZstdDecompressionFailed),
        },
    }
}

/// When compressed data is given back by decompression: always for LZ4;
/// for Zstd when the data fits the decompression capacity; uncompressed data
/// when it does not start with a recognised magic number.
pub open spec fn round_trips(data: Seq<u8>, t: CompressionType) -> bool {
    match t {
        CompressionType::Uncompressed => detected_type(data) == CompressionType::Uncompressed,
        CompressionType::LZ4 => true,
        CompressionType::Zstd => data.len() <= zstd_capacity(),
    }
}

pub open spec fn clamp_i32(v: i32, lo: i32, hi: i32) -> i32 {
    if v < lo { lo } else if v > hi { hi } else { v }
}

pub open spec fn wrapping_add_u64(a: u64, b: int) -> u64 {
    ((a + b) % 0x1_0000_0000_0000_0000) as u64
}

/// An LZ4 block with the marker in front.
fn tag_lz4_block(block: &Vec<u8>) -> (r: Vec<u8>)
    ensures
        r@ == lz4_tag() + block@,
{
    let mut out: Vec<u8> = Vec::new();
    out.push(0x04);
    out.push(0x22);
    out.push(0x4D);
    out.push(0x18);
    let mut i: usize = 0;
    while i < block.len()
        invariant
            i <= block@.len(),
            out@ == lz4_tag() + block@.take(i as int),
        decreases block@.len() - i,
    {
        out.push(block[i]);
        proof {
            assert(block@.take(i as int + 1) == block@.take(i as int).push(block@[i as int]));
            assert(lz4_tag() + block@.take(i as int + 1) == (lz4_tag() + block@.take(i as int)).push(block@[i as int]));
        }
        i = i + 1;
    }
    proof {
        assert(block@.take(block@.len() as int) == block@);
    }
    out
}

/// The bytes after the first four.
fn skip_marker(data: &[u8]) -> (r: Vec<u8>)
    requires
        data@.len() >= 4,
    ensures
        r@ == data@.skip(4),
{
    let mut out: Vec<u8> = Vec::new();
    let mut i: usize = 4;
    while i < data.len()
        invariant
            4 <= i <= data@.len(),
            out@ == data@.subrange(4, i as int),
        decreases data@.len() - i,
    {
        out.push(data[i]);
        proof {
            assert(data@.subrange(4, i as int + 1) == data@.subrange(4, i as int).push(data@[i as int]));
        }
        i = i + 1;
    }
    out
}

impl CompressionEngine {
    /// Engine with the balanced levels (LZ4 4, Zstd 3).
    pub fn new() -> (e: Self)
        ensures
            e.lz4_level == 4,
            e.zstd_level == 3,
            e.stats == (CompressionStats { total_compressions: 0, total_decompressions: 0, total_original_bytes: 0, total_compressed_bytes: 0 }),
    {
        CompressionEngine {
            lz4_level: 4,
            zstd_level: 3,
            stats: CompressionStats { total_compressions: 0, total_decompressions: 0, total_original_bytes: 0, total_compressed_bytes: 0 },
        }
    }

    /// Engine with explicit levels, clamped to LZ4 0-16 and Zstd 1-22.
    pub fn with_levels(lz4_level: i32, zstd_level: i32) -> (e: Self)
        ensures
            e.lz4_level == clamp_i32(lz4_level, 0, 16),
            e.zstd_level == clamp_i32(zstd_level, 1, 22),
            e.stats == (CompressionStats { total_compressions: 0, total_decompressions: 0, total_original_bytes: 0, total_compressed_bytes: 0 }),
    {
        let l: i32 = if lz4_level < 0 { 0 } else if lz4_level > 16 { 16 } else { lz4_level };
        let z: i32 = if zstd_level < 1 { 1 } else if zstd_level > 22 { 22 } else { zstd_level };
        CompressionEngine {
            lz4_level: l,
            zstd_level: z,
            stats: CompressionStats { total_compressions: 0, total_decompressions: 0, total_original_bytes: 0, total_compressed_bytes: 0 },
        }
    }

    /// Compress a payload in a format, counting the bytes on success.
    pub fn compress(&mut self, data: &[u8], compression_type: CompressionType) -> (r: Result<Vec<u8>, CompressionError>)
        ensures
            final(self).lz4_level == old(self).lz4_level,
            final(self).zstd_level == old(self).zstd_level,
            match r {
                Ok(v) => compression_outcome(data@, compression_type, old(self).lz4_level, old(self).zstd_level) == Ok::<Seq<u8>, CompressionError>(v@),
                Err(e) => compression_outcome(data@, compression_type, old(self).lz4_level, old(self).zstd_level) == Err::<Seq<u8>, CompressionError>(e),
            },
            r is Ok ==> final(self).stats == counted_compression(old(self).stats, data@.len() as int, r->Ok_0@.len() as int),
            r is Err ==> final(self).stats == old(self).stats,
            r is Ok && round_trips(data@, compression_type) ==> decompression_outcome(r->Ok_0@) == Ok::<Seq<u8>, CompressionError>(data@),
    {
        let outcome: Option<Vec<u8>> = match compression_type {
            CompressionType::Uncompressed => {
                let mut copy: Vec<u8> = Vec::new();
                let mut i: usize = 0;
                while i < data.len()
                    invariant
                        i <= data@.len(),
                        copy@ == data@.take(i as int),
                    decreases data.len() - i,
                {
                    copy.push(data[i]);
                    proof {
                        assert(data@.take(i as int + 1) == data@.take(i as int).push(data@[i as int]));
                    }
                    i = i + 1;
                }
                proof {
                    assert(data@.take(data@.len() as int) == data@);
                }
                Some(copy)
            },
            CompressionType::LZ4 => match lz4_compress_block(data, self.lz4_level) {
                Some(block) => {
                    let framed = tag_lz4_block(&block);
                    proof {
                        assert(framed@.skip(4) =~= block@);
                        assert(framed@[0] == 0x04u8 && framed@[1] == 0x22u8 && framed@[2] == 0x4Du8 && framed@[3] == 0x18u8);
                        assert(detected_type(framed@) == CompressionType::LZ4);
                    }
                    Some(framed)
                },
                None => None,
            },
            CompressionType::Zstd => match zstd_compress_bulk(data, self.zstd_level) {
                Some(v) => {
                    proof {
                        assert(detected_type(v@) == CompressionType::Zstd);
                        if data@.len() <= zstd_capacity() {
                            assert(zstd_bulk_decompress(v@, zstd_capacity()) == Some(data@));
                        }
                    }
                    Some(v)
                },
                None => None,
            },
        };
        self.finish_compression(data.len(), compression_type, outcome)
    }

    /// Account for a compression whose library outcome is given: on success
    /// count one compression and its bytes; on failure report the format's
    /// error.
    pub fn finish_compression(&mut self, original_len: usize, compression_type: CompressionType, outcome: Option<Vec<u8>>) -> (r: Result<Vec<u8>, CompressionError>)
        ensures
            final(self).lz4_level == old(self).lz4_level,
            final(self).zstd_level == old(self).zstd_level,
            outcome is Some ==> r is Ok && r->Ok_0@ == outcome->0@
                && final(self).stats == counted_compression(old(self).stats, original_len as int, outcome->0@.len() as int),
            outcome is None ==> r == Err::<Vec<u8>, CompressionError>(match compression_type {
                CompressionType::Zstd => CompressionError::ZstdCompressionFailed,
                _ => CompressionError::Lz4CompressionFailed,
            }) && final(self).stats == old(self).stats,
    {
        match outcome {
            Some(v) => {
                self.stats.total_compressions = self.stats.total_compressions.wrapping_add(1);
                self.stats.total_original_bytes = self.stats.total_original_bytes.wrapping_add(original_len as u64);
                self.stats.total_compressed_bytes = self.stats.total_compressed_bytes.wrapping_add(v.len() as u64);
                Ok(v)
            },
            None => match compression_type {
                CompressionType::Zstd => Err(CompressionError::ZstdCompressionFailed),
                _ => Err(CompressionError::Lz4CompressionFailed),
            },
        }
    }

    /// Decompress a payload after detecting its format.
    pub fn decompress(&mut self, compressed_data: &[u8]) -> (r: Result<Vec<u8>, CompressionError>)
        ensures
            final(self).lz4_level == old(self).lz4_level,
            final(self).zstd_level == old(self).zstd_level,
            match r {
                Ok(v) => decompression_outcome(compressed_data@) == Ok::<Seq<u8>, CompressionError>(v@),
                Err(e) => decompression_outcome(compressed_data@) == Err::<Seq<u8>, CompressionError>(e),
            },
            r is Ok ==> final(self).stats == (CompressionStats {
                total_decompressions: wrapping_add_u64(old(self).stats.total_decompressions, 1),
                ..old(self).stats
            }),
            r is Err ==> final(self).stats == old(self).stats,
    {
        let compression_type = Self::detect_compression_type(compressed_data);
        let outcome: Result<Vec<u8>, CompressionError> = match compression_type {
            CompressionType::Uncompressed => {
                let mut copy: Vec<u8> = Vec::new();
                let mut i: usize = 0;
                while i < compressed_data.len()
                    invariant
                        i <= compressed_data@.len(),
                        copy@ == compressed_data@.take(i as int),
                    decreases compressed_data.len() - i,
                {
                    copy.push(compressed_data[i]);
                    proof {
                        assert(compressed_data@.take(i as int + 1) == compressed_data@.take(i as int).push(compressed_data@[i as int]));
                    }
                    i = i + 1;
                }
                proof {
                    assert(compressed_data@.take(compressed_data@.len() as int) == compressed_data@);
                }
                Ok(copy)
            },
            CompressionType::LZ4 => match lz4_decompress_block(skip_marker(compressed_data).as_slice()) {
                Some(v) => Ok(v),
                None => Err(CompressionError::Lz4DecompressionFailed),
            },
            CompressionType::Zstd => match zstd_decompress_bulk(compressed_data, 10 * 1024 * 1024) {
                Some(v) => Ok(v),
                None => Err(CompressionError::ZstdDecompressionFailed),
            },
        };
        match outcome {
            Ok(v) => {
                self.stats.total_decompressions = self.stats.total_decompressions.wrapping_add(1);
                Ok(v)
            },
            Err(e) => Err(e),
        }
    }

    /// Detect the format of a payload from its magic bytes.
    pub fn detect_compression_type(data: &[u8]) -> (t: CompressionType)
        ensures
            t == detected_type(data@),
    {
        if data.len() >= 4 {
            let (b0, b1, b2, b3) = (data[0], data[1], data[2], data[3]);
            if (b0 == 0x18 && b1 == 0x4D && b2 == 0x22 && b3 == 0x04) || (b0 == 0x04 && b1 == 0x22 && b2 == 0x4D && b3 == 0x18) {
                return CompressionType::LZ4;
            }
            if b0 == 0x28 && b1 == 0xB5 && b2 == 0x2F && b3 == 0xFD {
                return CompressionType::Zstd;
            }
        }
        CompressionType::Uncompressed
    }

    /// Counters of the engine.
    pub fn get_compression_stats(&self) -> (s: CompressionStats)
        ensures
            s == self.stats,
    {
        self.stats
    }

    /// CRC-32 (IEEE) checksum of a payload.
    pub fn checksum(data: &[u8]) -> (c: u32)
        ensures
            c == crc32_ieee(data@),
    {
        crc32_checksum_ieee(data)
    }

    /// Whether a payload matches an expected checksum.
    pub fn verify_data_integrity(data: &[u8], expected_checksum: u32) -> (r: bool)
        ensures
            r == (crc32_ieee(data@) == expected_checksum),
    {
        Self::checksum_matches(crc32_checksum_ieee(data), expected_checksum)
    }

    /// Whether a computed checksum matches the expected one.
    pub fn checksum_matches(computed: u32, expected: u32) -> (r: bool)
        ensures
            r == (computed == expected),
    {
        computed == expected
    }

    /// Checksum a compressed payload and check it before decompressing: a
    /// mismatch is an integrity failure and decompresses nothing.
    pub fn decompress_checked(&mut self, data: &[u8], checksum: u32) -> (r: Result<Vec<u8>, CompressionError>)
        ensures
            crc32_ieee(data@) != checksum ==> r == Err::<Vec<u8>, CompressionError>(CompressionError::DataIntegrityFailed)
                && final(self).stats == old(self).stats,
            crc32_ieee(data@) == checksum ==> match r {
                Ok(v) => decompression_outcome(data@) == Ok::<Seq<u8>, CompressionError>(v@),
                Err(e) => decompression_outcome(data@) == Err::<Seq<u8>, CompressionError>(e),
            },
    {
        if !Self::verify_data_integrity(data, checksum) {
            return Err(CompressionError::DataIntegrityFailed);
        }
        self.decompress(data)
    }
}

/// Counters after one successful compression.
pub open spec fn counted_compression(s: CompressionStats, original: int, compressed: int) -> CompressionStats {
    CompressionStats {
        total_compressions: wrapping_add_u64(s.total_compressions, 1),
        total_original_bytes: wrapping_add_u64(s.total_original_bytes, original),
        total_compressed_bytes: wrapping_add_u64(s.total_compressed_bytes, compressed),
        ..s
    }
}

/// Uncompressed payloads pass through unchanged in both directions when they
/// carry no magic bytes.
pub proof fn lemma_none_roundtrip(data: Seq<u8>, lz4_level: i32, zstd_level: i32)
    requires
        detected_type(data) == CompressionType::Uncompressed,
    ensures
        compression_outcome(data, CompressionType::Uncompressed, lz4_level, zstd_level) == Ok::<Seq<u8>, CompressionError>(data),
        decompression_outcome(data) == Ok::<Seq<u8>, CompressionError>(data),
{
}

} // verus!
