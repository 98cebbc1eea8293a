use mooshie_core::report::{chunk_chars, log_comment_bodies};

#[test]
fn short_log_is_a_single_chunk() {
    assert_eq!(chunk_chars("hello", 60_000), vec!["hello".to_string()]);
}

#[test]
fn long_log_splits_into_bounded_chunks() {
    let log = "x".repeat(130_000);
    let chunks = chunk_chars(&log, 60_000);
    assert_eq!(chunks.len(), 3);
    assert!(chunks.iter().all(|c| c.chars().count() <= 60_000));
    assert_eq!(chunks.concat().chars().count(), 130_000);
}

#[test]
fn empty_log_is_one_empty_chunk() {
    assert_eq!(chunk_chars("", 0), vec![String::new()]);
    assert_eq!(chunk_chars("abcde", 2), vec!["ab", "cd", "e"]);
}

#[test]
fn log_comments_only_for_long_logs() {
    assert!(log_comment_bodies(7, "short").is_empty());
    let long = "y".repeat(60_001);
    assert!(log_comment_bodies(0, &long).is_empty());
    let one = log_comment_bodies(7, &long);
    assert_eq!(one.len(), 2);
    assert!(one[0].starts_with("<details><summary>Full diagnostics log (part 1/2)</summary>\n\n````log\n"));
    assert!(one[1].ends_with("y\n````\n\n</details>"));
}
