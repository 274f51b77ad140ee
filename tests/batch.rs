use rayon::prelude::{IntoParallelRefIterator, ParallelIterator};
use sdftool::{
    classify, convert, decode_bsdf, decode_hgt, decode_sdf, first_failure, ConvertError,
    Resolution, Source, SourceFormat,
};

const IPPD: usize = 1200;
const SIDE: usize = IPPD + 1;

fn raster(seed: usize) -> Vec<u8> {
    let mut b = Vec::with_capacity(2 * SIDE * SIDE);
    for k in 0..SIDE * SIDE {
        b.extend_from_slice(&(((k + seed) % 9000) as i16 - 100).to_be_bytes());
    }
    b
}

fn sdf(seed: usize) -> Vec<String> {
    let mut lines: Vec<String> = (0..4).map(|h| h.to_string()).collect();
    for k in 0..IPPD * IPPD {
        lines.push((((k * seed) % 3000) as i16).to_string());
    }
    lines
}

#[test]
fn classify_by_extension() {
    assert_eq!(classify("N44W072.hgt").unwrap(), SourceFormat::Hgt);
    assert_eq!(classify("44:45:71:72.sdf").unwrap(), SourceFormat::Sdf);
    assert_eq!(classify("a.b.sdf").unwrap(), SourceFormat::Sdf);
    for name in ["tile.bsdf", "tile.HGT", "tile", ".hgt", "tile.hgt.gz", "tile.", "", "hgt"] {
        assert_eq!(
            classify(name).unwrap_err(),
            ConvertError::UnsupportedFormat { name: name.to_string() }
        );
    }
}

#[test]
fn first_failure_is_the_earliest_error() {
    let ok: Result<(), u8> = Ok(());
    assert_eq!(first_failure::<(), u8>(&[]), None);
    assert_eq!(first_failure(&[ok, ok]), None);
    assert_eq!(first_failure(&[ok, Err(1), ok, Err(2)]), Some(1));
    assert_eq!(first_failure(&[Err(3), ok]), Some(0));
}

#[test]
fn batch_reports_the_malformed_file_and_keeps_the_others() {
    let res = Resolution::from_raw(3).unwrap();
    let mut bad = sdf(1);
    bad[4 + 12345] = "12.5".to_string();
    let sources = vec![
        Source::Hgt(raster(0)),
        Source::Sdf(sdf(7)),
        Source::Sdf(bad),
        Source::Hgt(raster(500)),
    ];
    let results: Vec<Result<Vec<u8>, ConvertError>> =
        sources.par_iter().map(|s| convert(res, s)).collect();
    assert_eq!(results.iter().filter(|r| r.is_err()).count(), 1);
    let failed = first_failure(&results).unwrap();
    assert_eq!(failed, 2);
    assert_eq!(
        results[failed].clone().unwrap_err(),
        ConvertError::MalformedSample { line: 12350 }
    );
    for (i, src) in sources.iter().enumerate() {
        if i == failed {
            continue;
        }
        let tile = decode_bsdf(results[i].as_ref().unwrap()).unwrap();
        let expected = match src {
            Source::Hgt(b) => decode_hgt(res, b).unwrap(),
            Source::Sdf(lines) => decode_sdf(res, lines).unwrap(),
        };
        assert_eq!(tile, expected);
        assert_eq!(results[i].as_ref().unwrap().len(), 2_880_008);
    }
}
