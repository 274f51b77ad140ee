use sdftool::{decode_bsdf, decode_sdf, sdf_to_bsdf, ConvertError, Resolution};

const IPPD: usize = 1200;

fn sample(j: usize) -> i16 {
    (j % 20011) as i16 - 10000
}

fn header() -> Vec<String> {
    vec![
        "-44".to_string(),
        "72".to_string(),
        "-45".to_string(),
        "71".to_string(),
    ]
}

fn sdf_lines(data_lines: usize) -> Vec<String> {
    let mut lines = header();
    for j in 0..data_lines {
        lines.push(sample(j).to_string());
    }
    lines
}

#[test]
fn sdf_places_samples_column_by_column() {
    let res = Resolution::from_raw(3).unwrap();
    let lines = sdf_lines(IPPD * IPPD);
    assert_eq!(lines.len(), IPPD * IPPD + 4);
    let tile = decode_sdf(res, &lines).unwrap();
    assert_eq!(tile.ippd, 1200);
    assert_eq!(tile.samples.len(), 1_440_000);
    // line 5, the first data line
    assert_eq!(tile.samples[0], sample(0));
    // line ippd + 4 ends the first column
    assert_eq!(tile.samples[(IPPD - 1) * IPPD], sample(IPPD - 1));
    // line ippd + 5 starts the second column
    assert_eq!(tile.samples[1], sample(IPPD));
    for (x, y) in [(0, 1), (7, 3), (IPPD - 1, IPPD - 1), (500, 17)] {
        assert_eq!(tile.samples[y * IPPD + x], sample(x * IPPD + y));
    }
    assert_eq!(tile.min, -10000);
    assert_eq!(tile.max, 10010);
}

#[test]
fn sdf_one_line_short_is_a_count_mismatch() {
    let res = Resolution::from_raw(3).unwrap();
    let lines = sdf_lines(IPPD * IPPD - 1);
    assert_eq!(lines.len(), IPPD * IPPD + 3);
    assert_eq!(
        decode_sdf(res, &lines).unwrap_err(),
        ConvertError::SampleCountMismatch { expected: 1_440_000, actual: 1_439_999 }
    );
}

#[test]
fn sdf_one_line_long_is_a_count_mismatch() {
    let res = Resolution::from_raw(3).unwrap();
    let lines = sdf_lines(IPPD * IPPD + 1);
    assert_eq!(
        sdf_to_bsdf(res, &lines).unwrap_err(),
        ConvertError::SampleCountMismatch { expected: 1_440_000, actual: 1_440_001 }
    );
}

#[test]
fn sdf_header_only_is_a_count_mismatch() {
    let res = Resolution::from_raw(3).unwrap();
    assert_eq!(
        decode_sdf(res, &header()).unwrap_err(),
        ConvertError::SampleCountMismatch { expected: 1_440_000, actual: 0 }
    );
    assert_eq!(
        decode_sdf(res, &[]).unwrap_err(),
        ConvertError::SampleCountMismatch { expected: 1_440_000, actual: 0 }
    );
}

#[test]
fn sdf_malformed_sample_names_its_line() {
    let res = Resolution::from_raw(3).unwrap();
    let mut lines = header();
    for s in ["12", "+7", "-0", "1 2", "x"] {
        lines.push(s.to_string());
    }
    assert_eq!(
        decode_sdf(res, &lines).unwrap_err(),
        ConvertError::MalformedSample { line: 8 }
    );
    let mut lines = header();
    lines.push("32768".to_string());
    assert_eq!(
        decode_sdf(res, &lines).unwrap_err(),
        ConvertError::MalformedSample { line: 5 }
    );
    let mut lines = header();
    lines.push("".to_string());
    assert_eq!(
        sdf_to_bsdf(res, &lines).unwrap_err(),
        ConvertError::MalformedSample { line: 5 }
    );
}

#[test]
fn sdf_malformed_sample_wins_over_count() {
    let res = Resolution::from_raw(3).unwrap();
    let mut lines = sdf_lines(10);
    lines.push("-".to_string());
    assert_eq!(
        decode_sdf(res, &lines).unwrap_err(),
        ConvertError::MalformedSample { line: 15 }
    );
}

#[test]
fn sdf_header_lines_are_not_read() {
    let res = Resolution::from_raw(3).unwrap();
    let mut lines = sdf_lines(IPPD * IPPD);
    lines[0] = "not a number".to_string();
    lines[3] = "".to_string();
    let tile = decode_sdf(res, &lines).unwrap();
    assert_eq!(tile.samples[0], sample(0));
}

#[test]
fn sdf_resolution_three_tile_has_2880008_bytes() {
    let res = Resolution::from_raw(3).unwrap();
    assert_eq!(res.ippd(), 1200);
    let lines = sdf_lines(IPPD * IPPD);
    let tile = decode_sdf(res, &lines).unwrap();
    assert_eq!(tile.samples.len(), 1_440_000);
    let bytes = sdf_to_bsdf(res, &lines).unwrap();
    assert_eq!(bytes.len(), 1_440_000 * 2 + 8);
    assert_eq!(bytes.len(), 2_880_008);
    // the first sample, little-endian: -10000 is 0xd8f0
    assert_eq!(&bytes[0..2], &[0xf0, 0xd8]);
    // trailer: ippd, min, max, version
    assert_eq!(
        &bytes[2_880_000..],
        &[0xb0, 0x04, 0xf0, 0xd8, 0x1a, 0x27, 0x00, 0x00]
    );
}

#[test]
fn sdf_round_trip_reproduces_grid_and_range() {
    let res = Resolution::from_raw(3).unwrap();
    let lines = sdf_lines(IPPD * IPPD);
    let tile = decode_sdf(res, &lines).unwrap();
    let bytes = sdf_to_bsdf(res, &lines).unwrap();
    let back = decode_bsdf(&bytes).unwrap();
    assert_eq!(back, tile);
    assert_eq!(back.min, *tile.samples.iter().min().unwrap());
    assert_eq!(back.max, *tile.samples.iter().max().unwrap());
}
