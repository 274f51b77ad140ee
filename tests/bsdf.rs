use sdftool::{decode_bsdf, encode_bsdf, ConvertError, Tile, BSDF_VERSION};

#[test]
fn encode_writes_little_endian_samples_then_the_trailer() {
    let bytes = encode_bsdf(2, &[1, -1, 256, i16::MIN], -1, 256).unwrap();
    assert_eq!(
        bytes,
        vec![1, 0, 255, 255, 0, 1, 0, 128, 2, 0, 255, 255, 0, 1, 0, 0]
    );
    assert_eq!(BSDF_VERSION, 0);
}

#[test]
fn encode_checks_the_byte_count() {
    assert_eq!(
        encode_bsdf(1200, &[0; 10], 0, 0).unwrap_err(),
        ConvertError::ByteCountMismatch { expected: 2_880_000, actual: 20 }
    );
    assert_eq!(
        encode_bsdf(2, &[1, 2, 3], 1, 3).unwrap_err(),
        ConvertError::ByteCountMismatch { expected: 8, actual: 6 }
    );
    assert_eq!(
        encode_bsdf(1, &[], 0, 0).unwrap_err(),
        ConvertError::ByteCountMismatch { expected: 2, actual: 0 }
    );
    assert_eq!(encode_bsdf(0, &[], 0, 0).unwrap().len(), 8);
}

#[test]
fn decode_reads_back_an_encoded_tile() {
    let samples: Vec<i16> = (0..9).map(|k| (k * 1000 - 4000) as i16).collect();
    let bytes = encode_bsdf(3, &samples, -4000, 4000).unwrap();
    let tile = decode_bsdf(&bytes).unwrap();
    assert_eq!(
        tile,
        Tile { ippd: 3, samples: samples.clone(), min: -4000, max: 4000 }
    );
}

#[test]
fn round_trip_of_a_full_grid_keeps_every_sample() {
    let n = 1200usize;
    let samples: Vec<i16> = (0..n * n).map(|k| (k as i64 * 37 % 65536 - 32768) as i16).collect();
    let min = *samples.iter().min().unwrap();
    let max = *samples.iter().max().unwrap();
    let bytes = encode_bsdf(1200, &samples, min, max).unwrap();
    assert_eq!(bytes.len(), 2_880_008);
    let tile = decode_bsdf(&bytes).unwrap();
    assert_eq!(tile.samples, samples);
    assert_eq!((tile.min, tile.max), (i16::MIN, i16::MAX));
}

#[test]
fn decode_rejects_bad_tiles() {
    assert_eq!(
        decode_bsdf(&[0, 0, 0]).unwrap_err(),
        ConvertError::TruncatedTile { len: 3 }
    );
    assert_eq!(
        decode_bsdf(&[0, 0, 0, 0, 0, 0, 1, 0]).unwrap_err(),
        ConvertError::UnsupportedVersion { version: 1 }
    );
    assert_eq!(
        decode_bsdf(&[5, 0, 2, 0, 0, 0, 0, 0, 0, 0]).unwrap_err(),
        ConvertError::ByteCountMismatch { expected: 8, actual: 2 }
    );
    assert_eq!(
        decode_bsdf(&[5, 0, 1, 0, 0, 0, 0, 0, 0, 0]).unwrap(),
        Tile { ippd: 1, samples: vec![5], min: 0, max: 0 }
    );
}
