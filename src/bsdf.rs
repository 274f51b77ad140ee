use crate::endian::{
    i16_le_at, i16_of, le_i16_bytes, le_u16_bytes, lemma_i16_le_round_trip,
    lemma_u16_le_round_trip, push_i16_le, push_u16_le, u16_le_at, u16_of,
};
use crate::error::ConvertError;
use crate::stats::is_range;
use vstd::prelude::*;

verus! {

/// The format version that this library writes and reads.
pub const BSDF_VERSION: u16 = 0;

/// Length of the trailer that follows the sample block.
pub const TRAILER_LEN: usize = 8;

/// File extension of a binary tile.
pub const BSDF_EXTENSION: &'static str = "bsdf";

/// One decoded tile: `ippd × ippd` samples in destination scan order and
/// their statistics.
#[derive(Debug, Clone, PartialEq, Eq)]
pub struct Tile {
    pub ippd: u16,
    pub samples: Vec<i16>,
    pub min: i16,
    pub max: i16,
}

/// What a tile holds, as mathematical values.
pub ghost struct TileView {
    pub ippd: u16,
    pub samples: Seq<i16>,
    pub min: i16,
    pub max: i16,
}

impl View for Tile {
    type V = TileView;

    open spec fn view(&self) -> TileView {
        TileView { ippd: self.ippd, samples: self.samples@, min: self.min, max: self.max }
    }
}

/// The samples of `s` as little-endian 16-bit values, one after another.
pub open spec fn sample_block(s: Seq<i16>) -> Seq<u8> {
    Seq::new(2 * s.len(), |k: int| le_i16_bytes(s[k / 2])[k % 2])
}

/// The trailer: side length, minimum, maximum and format version, each as
/// two little-endian bytes.
pub open spec fn trailer(ippd: u16, min: i16, max: i16) -> Seq<u8> {
    le_u16_bytes(ippd) + le_i16_bytes(min) + le_i16_bytes(max) + le_u16_bytes(BSDF_VERSION)
}

/// A whole binary tile.
pub open spec fn bsdf_bytes(ippd: u16, samples: Seq<i16>, min: i16, max: i16) -> Seq<u8> {
    sample_block(samples) + trailer(ippd, min, max)
}

/// Number of bytes in the sample block of a tile of side `ippd`.
pub open spec fn block_len(ippd: u16) -> int {
    2 * ippd * ippd
}

/// What a binary tile decodes to: its trailer is read from the last eight
/// bytes, and the bytes before it must be exactly the `ippd²` samples.
pub open spec fn parse_bsdf(b: Seq<u8>) -> Result<TileView, ConvertError> {
    if b.len() < 8 {
        Err(ConvertError::TruncatedTile { len: b.len() as usize })
    } else {
        let t = b.len() - 8;
        let ippd = u16_of(b[t], b[t + 1]);
        let version = u16_of(b[t + 6], b[t + 7]);
        if version != BSDF_VERSION {
            Err(ConvertError::UnsupportedVersion { version })
        } else if t != block_len(ippd) {
            Err(
                ConvertError::ByteCountMismatch {
                    expected: block_len(ippd) as u64,
                    actual: t as u64,
                },
            )
        } else {
            Ok(
                TileView {
                    ippd,
                    samples: Seq::new(
                        (ippd * ippd) as nat,
                        |i: int| i16_of(b[2 * i], b[2 * i + 1]),
                    ),
                    min: i16_of(b[t + 2], b[t + 3]),
                    max: i16_of(b[t + 4], b[t + 5]),
                },
            )
        }
    }
}

/// Writes `samples` as the sample block, checks that the block holds exactly
/// `2 · ippd²` bytes (else `ByteCountMismatch`), then appends the trailer.
pub fn encode_bsdf(ippd: u16, samples: &[i16], min: i16, max: i16) -> (r: Result<
    Vec<u8>,
    ConvertError,
>)
    ensures
        r is Ok <==> samples@.len() == ippd * ippd,
        r matches Ok(b) ==> b@ == bsdf_bytes(ippd, samples@, min, max),
        r matches Err(e) ==> e == (ConvertError::ByteCountMismatch {
            expected: block_len(ippd) as u64,
            actual: (2 * samples@.len()) as u64,
        }),
{
    let mut out: Vec<u8> = Vec::new();
    let mut i: usize = 0;
    while i < samples.len()
        invariant
            0 <= i <= samples@.len(),
            out@ == sample_block(samples@.subrange(0, i as int)),
        decreases samples@.len() - i,
    {
        push_i16_le(&mut out, samples[i]);
        i += 1;
        assert(out@ =~= sample_block(samples@.subrange(0, i as int)));
    }
    assert(samples@.subrange(0, samples@.len() as int) =~= samples@);
    let side = ippd as u64;
    proof {
        assert(side * side <= 65535 * 65535 && block_len(ippd) == 2 * (side * side)) by (nonlinear_arith)
            requires
                side == ippd,
                side <= 65535,
        ;
    }
    let expected: u64 = 2 * (side * side);
    let actual: u64 = out.len() as u64;
    if actual != expected {
        return Err(ConvertError::ByteCountMismatch { expected, actual });
    }
    push_u16_le(&mut out, ippd);
    push_i16_le(&mut out, min);
    push_i16_le(&mut out, max);
    push_u16_le(&mut out, BSDF_VERSION);
    assert(out@ =~= bsdf_bytes(ippd, samples@, min, max));
    Ok(out)
}

/// Reads a binary tile back: the trailer from its last eight bytes, then the
/// `ippd²` samples before it.
pub fn decode_bsdf(bytes: &[u8]) -> (r: Result<Tile, ConvertError>)
    ensures
        match r {
            Ok(t) => parse_bsdf(bytes@) == Ok::<TileView, ConvertError>(t@),
            Err(e) => parse_bsdf(bytes@) == Err::<TileView, ConvertError>(e),
        },
{
    let len = bytes.len();
    if len < TRAILER_LEN {
        return Err(ConvertError::TruncatedTile { len });
    }
    let t = len - TRAILER_LEN;
    let ippd = u16_le_at(bytes, t);
    let min = i16_le_at(bytes, t + 2);
    let max = i16_le_at(bytes, t + 4);
    let version = u16_le_at(bytes, t + 6);
    if version != BSDF_VERSION {
        return Err(ConvertError::UnsupportedVersion { version });
    }
    let side = ippd as u64;
    proof {
        assert(side * side <= 65535 * 65535 && block_len(ippd) == 2 * (side * side)) by (nonlinear_arith)
            requires
                side == ippd,
                side <= 65535,
        ;
    }
    let expected: u64 = 2 * (side * side);
    if t as u64 != expected {
        return Err(ConvertError::ByteCountMismatch { expected, actual: t as u64 });
    }
    let n: usize = t / 2;
    let mut samples: Vec<i16> = Vec::new();
    let mut i: usize = 0;
    while i < n
        invariant
            n == ippd * ippd,
            t == 2 * n,
            t + 8 == bytes@.len(),
            0 <= i <= n,
            samples@.len() == i,
            forall|j: int| 0 <= j < i ==> #[trigger] samples@[j] == i16_of(bytes@[2 * j], bytes@[2 * j + 1]),
        decreases n - i,
    {
        samples.push(i16_le_at(bytes, 2 * i));
        i += 1;
    }
    let tile = Tile { ippd, samples, min, max };
    assert(tile@.samples =~= Seq::new(
        (ippd * ippd) as nat,
        |i: int| i16_of(bytes@[2 * i], bytes@[2 * i + 1]),
    ));
    Ok(tile)
}

/// Decoding an encoded grid gives back the grid bit for bit, the side length,
/// and the minimum and maximum that were written.
pub proof fn lemma_bsdf_round_trip(ippd: u16, samples: Seq<i16>, min: i16, max: i16)
    requires
        samples.len() == ippd * ippd,
    ensures
        parse_bsdf(bsdf_bytes(ippd, samples, min, max)) == Ok::<TileView, ConvertError>(
            TileView { ippd, samples, min, max },
        ),
{
    let b = bsdf_bytes(ippd, samples, min, max);
    let n = samples.len();
    let t = b.len() - 8;
    assert(t == 2 * n);
    assert(block_len(ippd) == 2 * (ippd * ippd)) by (nonlinear_arith);
    lemma_u16_le_round_trip(ippd);
    lemma_i16_le_round_trip(min);
    lemma_i16_le_round_trip(max);
    lemma_u16_le_round_trip(BSDF_VERSION);
    assert(b[t] == le_u16_bytes(ippd)[0] && b[t + 1] == le_u16_bytes(ippd)[1]);
    assert(b[t + 2] == le_i16_bytes(min)[0] && b[t + 3] == le_i16_bytes(min)[1]);
    assert(b[t + 4] == le_i16_bytes(max)[0] && b[t + 5] == le_i16_bytes(max)[1]);
    assert(b[t + 6] == le_u16_bytes(BSDF_VERSION)[0] && b[t + 7] == le_u16_bytes(
        BSDF_VERSION,
    )[1]);
    let decoded = Seq::new((ippd * ippd) as nat, |i: int| i16_of(b[2 * i], b[2 * i + 1]));
    assert forall|i: int| 0 <= i < n implies #[trigger] decoded[i] == samples[i] by {
        assert((2 * i) / 2 == i && (2 * i) % 2 == 0);
        assert((2 * i + 1) / 2 == i && (2 * i + 1) % 2 == 1);
        lemma_i16_le_round_trip(samples[i]);
    }
    assert(decoded =~= samples);
}

/// A tile written from a grid and its true range reads back as that grid,
/// and its trailer holds the least and the greatest sample of the grid.
pub proof fn lemma_round_trip_keeps_range(ippd: u16, samples: Seq<i16>, min: i16, max: i16)
    requires
        ippd > 0,
        samples.len() == ippd * ippd,
        is_range(samples, false, min, max),
    ensures
        parse_bsdf(bsdf_bytes(ippd, samples, min, max)) matches Ok(t) && t.samples == samples
            && (forall|k: int| 0 <= k < samples.len() ==> t.min <= #[trigger] samples[k] <= t.max)
            && (exists|k: int| 0 <= k < samples.len() && #[trigger] samples[k] == t.min)
            && (exists|k: int| 0 <= k < samples.len() && #[trigger] samples[k] == t.max),
{
    lemma_bsdf_round_trip(ippd, samples, min, max);
    assert(ippd * ippd > 0) by (nonlinear_arith)
        requires
            ippd > 0,
    ;
    assert(crate::stats::counted(samples[0], false));
}

} // verus!
