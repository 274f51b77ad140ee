use sdftool::{ConvertError, Resolution};
use std::convert::TryFrom;

#[test]
fn ippd_is_3600_over_the_rate() {
    let one = Resolution::from_raw(1).unwrap();
    assert_eq!(one.ippd(), 3600);
    assert_eq!(one.ippd(), 3600);
    assert_eq!(one.rate(), 1);
    let three = Resolution::from_raw(3).unwrap();
    assert_eq!(three.ippd(), 1200);
    assert_eq!(three.ippd(), three.ippd());
    assert_eq!(three.rate(), 3);
}

#[test]
fn other_rates_are_invalid() {
    for raw in [0u16, 2, 4, 5, 6, 10, 30, 60, 3600, u16::MAX] {
        assert_eq!(
            Resolution::from_raw(raw).unwrap_err(),
            ConvertError::InvalidResolution { raw }
        );
    }
}

#[test]
fn try_from_matches_from_raw() {
    assert_eq!(Resolution::try_from(3u16).unwrap().ippd(), 1200);
    assert_eq!(
        Resolution::try_from(2u16).unwrap_err(),
        ConvertError::InvalidResolution { raw: 2 }
    );
}
