use mooshie_core::github::{
    find_issue_by_sig, issue_body, issue_title, release_note, truncate_chars, IssueSummary,
    ReportPayload,
};
use mooshie_core::dedup::marker;

fn sample() -> ReportPayload {
    ReportPayload {
        error_code: "out_of_memory".into(),
        raw_message: "CUDA out of memory".into(),
        app_version: "1.4.35".into(),
        os: "windows".into(),
        arch: "x86_64".into(),
        mode: "desktop".into(),
        timestamp: "2026-07-05T00:00:00Z".into(),
        user_note: Some("was generating a batch".into()),
        logs_tail: Some("line1\nline2".into()),
    }
}

#[test]
fn title_is_prefixed_and_truncated() {
    let long = "x".repeat(200);
    let t = issue_title("disk_full", &long);
    assert!(t.starts_with("[in-app] disk_full: "));
    assert_eq!(t.chars().filter(|c| *c == 'x').count(), 80);
}

#[test]
fn body_contains_env_note_logs_and_marker() {
    let body = issue_body(&sample(), "abc123def456aaaa");
    assert!(body.contains("### What happened"));
    assert!(body.contains("was generating a batch"));
    assert!(body.contains("CUDA out of memory"));
    assert!(body.contains("- App version: `1.4.35`"));
    assert!(body.contains("### Diagnostics"));
    assert!(body.contains("line1\nline2"));
    assert!(body.contains("<!-- mooshie-sig: abc123def456aaaa -->"));
}

#[test]
fn body_has_no_summary_section() {
    let body = issue_body(&sample(), "sig0000000000000");
    assert!(!body.contains("### Summary"));
    assert!(body.contains("<!-- mooshie-sig: sig0000000000000 -->"));
}

#[test]
fn blank_note_and_logs_fall_back() {
    let mut p = sample();
    p.user_note = Some("   ".into());
    p.logs_tail = Some("\n".into());
    p.raw_message = String::new();
    let body = issue_body(&p, "s");
    assert!(body.contains("(no description provided)"));
    assert!(body.contains("(empty)"));
    assert!(!body.contains("### Diagnostics"));
    assert!(body.ends_with("\n<!-- mooshie-sig: s -->"));
    assert!(body.starts_with("### What happened\n(no description provided)\n\n### Error\n```\n(empty)\n```\n"));
}

#[test]
fn truncation_counts_characters() {
    assert_eq!(truncate_chars("héllo", 2), "hé");
    assert_eq!(truncate_chars("hi", 10), "hi");
}

#[test]
fn issue_lookup_skips_empty_links_and_picks_the_first_match() {
    let m = marker("abc");
    let issues = vec![
        IssueSummary { number: 1, html_url: "https://x/1".into(), body: "nothing".into() },
        IssueSummary { number: 2, html_url: String::new(), body: m.clone() },
        IssueSummary { number: 3, html_url: "https://x/3".into(), body: format!("b\n{m}") },
        IssueSummary { number: 4, html_url: "https://x/4".into(), body: m.clone() },
    ];
    let found = find_issue_by_sig(&issues, "abc").expect("match");
    assert_eq!(found.number, 3);
    assert_eq!(found.html_url, "https://x/3");
    assert!(find_issue_by_sig(&issues, "zzz").is_none());
}

#[test]
fn release_notes_need_a_tag() {
    let n = release_note(Some("v1.2.3".to_string()), None, Some("2025-01-01T00:00:00Z".to_string())).unwrap();
    assert_eq!((n.version.as_str(), n.body.as_str(), n.published_at.as_str()), ("v1.2.3", "", "2025-01-01T00:00:00Z"));
    assert!(release_note(None, Some("body".to_string()), None).is_none());
}
