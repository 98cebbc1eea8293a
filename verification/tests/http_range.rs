use mooshie_core::http_range::{parse, OPEN_END_CHUNK};

#[test]
fn closed_range() {
    assert_eq!(parse("bytes=0-1023", 4096), Some((0, 1023)));
}

#[test]
fn open_range_is_capped() {
    assert_eq!(
        parse("bytes=100-", 1_000_000_000),
        Some((100, 99 + OPEN_END_CHUNK))
    );
}

#[test]
fn open_range_clamps_to_len() {
    assert_eq!(parse("bytes=10-", 20), Some((10, 19)));
}

#[test]
fn end_clamps_to_len() {
    assert_eq!(parse("bytes=0-999999", 100), Some((0, 99)));
}

#[test]
fn suffix_range() {
    assert_eq!(parse("bytes=-500", 4096), Some((3596, 4095)));
}

#[test]
fn rejects_start_past_eof() {
    assert_eq!(parse("bytes=4096-", 4096), None);
}

#[test]
fn rejects_multi_range_and_garbage() {
    assert_eq!(parse("bytes=0-1,5-9", 4096), None);
    assert_eq!(parse("items=0-1", 4096), None);
    assert_eq!(parse("bytes=a-b", 4096), None);
    assert_eq!(parse("bytes=5-2", 4096), None);
    assert_eq!(parse("bytes=-0", 4096), None);
    assert_eq!(parse("bytes=0-", 0), None);
}

#[test]
fn suffix_longer_than_resource_starts_at_zero() {
    assert_eq!(parse("bytes=-5000", 4096), Some((0, 4095)));
}

#[test]
fn surrounding_whitespace_and_plus_sign_are_accepted() {
    assert_eq!(parse("  bytes= +5 - 9 ", 100), Some((5, 9)));
    assert_eq!(parse("bytes=18446744073709551616-", 100), None);
}
