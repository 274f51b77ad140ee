use sdftool::{elevation_range, VOID};

#[test]
fn range_covers_every_sample() {
    assert_eq!(elevation_range(&[3, -7, 12, 0], false), (-7, 12));
    assert_eq!(elevation_range(&[VOID, 5], false), (VOID, 5));
    assert_eq!(elevation_range(&[i16::MAX], false), (i16::MAX, i16::MAX));
}

#[test]
fn range_can_leave_voids_out() {
    assert_eq!(elevation_range(&[VOID, 5, -2, VOID], true), (-2, 5));
    assert_eq!(elevation_range(&[VOID, VOID], true), (i16::MAX, i16::MIN));
}

#[test]
fn range_of_nothing_is_the_initial_range() {
    assert_eq!(elevation_range(&[], false), (i16::MAX, i16::MIN));
}
