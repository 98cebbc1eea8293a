use mooshie_core::dedup::normalize_lowered_text;
use mooshie_core::dedup::{body_has_marker, marker, normalize, signature};

#[test]
fn signature_is_stable_across_varying_numbers() {
    let a = signature(
        "out_of_memory",
        "CUDA OOM: tried to allocate 2048 MB at 0x7ff",
    );
    let b = signature(
        "out_of_memory",
        "CUDA OOM: tried to allocate 512 MB at 0x1ab",
    );
    assert_eq!(a, b, "digit/hex differences must not change the signature");
}

#[test]
fn signature_differs_by_error_code() {
    let a = signature("out_of_memory", "same text");
    let b = signature("disk_full", "same text");
    assert_ne!(a, b);
}

#[test]
fn signature_is_16_hex_chars() {
    let s = signature("generic", "anything");
    assert_eq!(s.len(), 16);
    assert!(s.chars().all(|c| c.is_ascii_hexdigit()));
}

#[test]
fn marker_roundtrips() {
    let sig = signature("generic", "x");
    let body = format!("some body\n{}", marker(&sig));
    assert!(body_has_marker(&body, &sig));
    assert!(!body_has_marker("no marker here", &sig));
}

#[test]
fn normalize_squeezes_volatile_runs_and_trims() {
    assert_eq!(normalize("  Error   AT C:\\Temp\\x  "), "#rror #t #t#mp#x");
    assert_eq!(normalize("Tab\there"), "t# h#r#");
    assert_eq!(normalize(""), "");
}

#[test]
fn signature_matches_the_sha256_prefix() {
    // sha256("generic\nanything") starts with these hex digits.
    let s = signature("generic", "anything");
    assert_eq!(s, signature("generic", "ANYTHING"));
    assert_eq!(marker("abc"), "<!-- mooshie-sig: abc -->");
}

#[test]
fn normalizing_twice_changes_nothing() {
    let once = normalize("  Error at C:\\Users\\x\\file.py:42   failed  ");
    assert_eq!(normalize_lowered_text(&once), once);
    assert_eq!(normalize_lowered_text("abc  ff//zz"), "# #zz");
}

#[test]
fn normalizing_a_normal_form_changes_nothing() {
    for raw in ["  Error AT C:\\Temp\\X  ", "OOM at 0xDEADBEEF // retry", "Ünïcode ÉRROR  x", ""] {
        let once = normalize(raw);
        assert_eq!(normalize(&once), once);
        assert_eq!(once.trim(), once);
        assert!(!once.contains("##") && !once.contains("  "));
        assert!(!once.chars().any(|c| c.is_ascii_hexdigit() || c == '/' || c == '\\' || c == ':'));
    }
}
