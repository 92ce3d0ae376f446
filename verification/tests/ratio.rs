use color_layouts::color_peaks::find_closest_ratio;

#[test]
fn table_entries_are_fixed_points() {
    assert_eq!(find_closest_ratio(1, 24), (1, 24));
    assert_eq!(find_closest_ratio(2, 12), (2, 12));
    assert_eq!(find_closest_ratio(3, 8), (3, 8));
    assert_eq!(find_closest_ratio(4, 6), (4, 6));
    assert_eq!(find_closest_ratio(6, 4), (6, 4));
    assert_eq!(find_closest_ratio(8, 3), (8, 3));
    assert_eq!(find_closest_ratio(12, 2), (12, 2));
    assert_eq!(find_closest_ratio(24, 1), (24, 1));
}

#[test]
fn full_hd_viewport_matches_six_by_four() {
    assert_eq!(find_closest_ratio(1920, 1080), (6, 4));
}

#[test]
fn closest_ratio_is_scale_invariant() {
    let base = find_closest_ratio(1920, 1080);
    assert_eq!(find_closest_ratio(3840, 2160), base);
    assert_eq!(find_closest_ratio(192, 108), base);
    assert_eq!(find_closest_ratio(960, 540), base);
}

#[test]
fn landscape_classic_viewport() {
    assert_eq!(find_closest_ratio(800, 600), (6, 4));
}

#[test]
fn square_viewport_prefers_four_by_six() {
    assert_eq!(find_closest_ratio(100, 100), (4, 6));
}

#[test]
fn ties_keep_the_earlier_table_entry() {
    // Both (4, 6) and (6, 4) sit at a truncated distance of 416 from this
    // viewport; the scan keeps the entry it met first.
    assert_eq!(find_closest_ratio(2167, 2000), (4, 6));
}

#[test]
fn portrait_full_hd_matches_four_by_six() {
    assert_eq!(find_closest_ratio(1080, 1920), (4, 6));
}

#[test]
fn extreme_banner_matches_widest_entry() {
    assert_eq!(find_closest_ratio(2400, 100), (24, 1));
}
