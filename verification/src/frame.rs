//! The 5-byte response frame: decoding, count extraction, checksum.

use vstd::prelude::*;

verus! {

/// One response frame, exactly as returned by a single 5-byte I2C read:
/// byte 0 is the checksum, bytes 1 and 2 hold the big-endian raw count, and
/// bytes 3 and 4 are the two generic checksum fields.
#[derive(Debug, Clone, Copy, PartialEq, Eq, Structural)]
pub struct RawData {
    pub checksum: u8,
    pub data_high: u8,
    pub data_low: u8,
    pub generic_checksum_1: u8,
    pub generic_checksum_2: u8,
}

/// The frame denoted by a 5-byte response, by position.
pub open spec fn spec_decode(bytes: Seq<u8>) -> RawData
    recommends
        bytes.len() == 5,
{
    RawData {
        checksum: bytes[0],
        data_high: bytes[1],
        data_low: bytes[2],
        generic_checksum_1: bytes[3],
        generic_checksum_2: bytes[4],
    }
}

/// The raw count carried by a frame: the big-endian combination of the
/// high and low data bytes.
pub open spec fn spec_count(frame: RawData) -> int {
    frame.data_high * 256 + frame.data_low
}

/// The plain sum of all five frame bytes; the frame is intact when this
/// sum is divisible by 256.
pub open spec fn spec_frame_sum(frame: RawData) -> int {
    frame.checksum + frame.data_high + frame.data_low + frame.generic_checksum_1
        + frame.generic_checksum_2
}

/// Whether the additive modulo-256 checksum of a frame comes out clean.
pub open spec fn spec_checksum_ok(frame: RawData) -> bool {
    spec_frame_sum(frame) % 256 == 0
}

/// The five bytes of a frame, back in wire order.
pub open spec fn spec_frame_bytes(frame: RawData) -> Seq<u8> {
    seq![
        frame.checksum,
        frame.data_high,
        frame.data_low,
        frame.generic_checksum_1,
        frame.generic_checksum_2,
    ]
}

/// Interprets exactly 5 bytes received from one I2C transaction as a frame.
/// Purely positional; no validation happens here.
pub fn decode(bytes: &[u8; 5]) -> (frame: RawData)
    ensures
        frame == spec_decode(bytes@),
{
    RawData {
        checksum: bytes[0],
        data_high: bytes[1],
        data_low: bytes[2],
        generic_checksum_1: bytes[3],
        generic_checksum_2: bytes[4],
    }
}

/// Reconstructs the 16-bit raw count from the two data bytes, big-endian.
pub fn get_counts(rawdata: RawData) -> (count: u16)
    ensures
        count == spec_count(rawdata),
{
    let result: u16 = (rawdata.data_high as u16) * 256 + (rawdata.data_low as u16);
    result
}

/// The frame's fields as a fixed 5-byte sequence in wire order, for
/// diagnostic use.
pub fn frame_bytes(frame: &RawData) -> (bytes: [u8; 5])
    ensures
        bytes@ == spec_frame_bytes(*frame),
{
    let bytes: [u8; 5] = [
        frame.checksum,
        frame.data_high,
        frame.data_low,
        frame.generic_checksum_1,
        frame.generic_checksum_2,
    ];
    proof {
        assert(bytes@ =~= spec_frame_bytes(*frame));
    }
    bytes
}

/// Checks the additive frame checksum: the two data bytes, the two generic
/// checksum bytes and the checksum byte must sum to zero modulo 256.  The
/// read path never calls this on its own; callers that need integrity
/// assurance invoke it explicitly after decoding.
pub fn verify_checksum(frame: &RawData) -> (ok: bool)
    ensures
        ok == spec_checksum_ok(*frame),
{
    let s1: u8 = frame.data_high.wrapping_add(frame.data_low);
    let s2: u8 = s1.wrapping_add(frame.generic_checksum_1);
    let s3: u8 = s2.wrapping_add(frame.generic_checksum_2);
    let checksum_result: u8 = s3.wrapping_add(frame.checksum);
    proof {
        let h = frame.data_high as int;
        let l = frame.data_low as int;
        let g1 = frame.generic_checksum_1 as int;
        let g2 = frame.generic_checksum_2 as int;
        let c = frame.checksum as int;
        assert(s1 == (h + l) % 256);
        assert(s2 == ((h + l) % 256 + g1) % 256);
        assert(s3 == (((h + l) % 256 + g1) % 256 + g2) % 256);
        assert(checksum_result == ((((h + l) % 256 + g1) % 256 + g2) % 256 + c) % 256);
        assert(((((h + l) % 256 + g1) % 256 + g2) % 256 + c) % 256 == (h + l + g1 + g2 + c)
            % 256) by (nonlinear_arith)
            requires
                0 <= h < 256 && 0 <= l < 256 && 0 <= g1 < 256 && 0 <= g2 < 256 && 0 <= c < 256,
        ;
    }
    checksum_result == 0
}

/// Extracting the count from a decoded 5-byte response yields exactly the
/// big-endian 16-bit value of bytes 1 and 2, independent of the other three
/// bytes.
pub proof fn lemma_count_of_decode(bytes: Seq<u8>)
    requires
        bytes.len() == 5,
    ensures
        spec_count(spec_decode(bytes)) == bytes[1] * 256 + bytes[2],
{
}

/// Re-encoding a decoded frame gives back the original frame: `frame_bytes`
/// and `decode` are inverse to each other.
pub proof fn lemma_frame_bytes_roundtrip(frame: RawData)
    ensures
        spec_decode(spec_frame_bytes(frame)) == frame,
{
}

/// For any four data bytes, choosing the checksum byte as the modulo-256
/// two's-complement negation of their sum yields a frame that passes the
/// checksum.
pub proof fn lemma_complement_checksum(data_high: u8, data_low: u8, g1: u8, g2: u8)
    ensures
        ({
            let s = data_high + data_low + g1 + g2;
            let frame = (RawData {
                checksum: (((256 - s % 256) % 256) as u8),
                data_high,
                data_low,
                generic_checksum_1: g1,
                generic_checksum_2: g2,
            });
            spec_checksum_ok(frame)
        }),
{
    let s = data_high + data_low + g1 + g2;
    let cs = (256 - s % 256) % 256;
    assert((cs + s) % 256 == 0) by (nonlinear_arith)
        requires
            0 <= s < 1024 && cs == (256 - s % 256) % 256,
    ;
}

} // verus!
