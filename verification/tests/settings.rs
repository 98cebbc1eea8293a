use mooshie_core::settings::{configured_gallery_path, seed_from_text, seed_from_u64, seed_to_text, PromptAssistantOpts};

#[test]
fn seeds_round_trip_through_text() {
    for v in [0i64, 1, -1, 42, 31337, i64::MAX, i64::MIN, 1 << 53] {
        assert_eq!(seed_from_text(&seed_to_text(v)), Some(v));
        assert_eq!(seed_to_text(v), v.to_string());
    }
}

#[test]
fn seed_text_follows_i64_parsing() {
    assert_eq!(seed_from_text(" 123 "), Some(123));
    assert_eq!(seed_from_text("+7"), Some(7));
    assert_eq!(seed_from_text("-9223372036854775808"), Some(i64::MIN));
    assert_eq!(seed_from_text("9223372036854775808"), None);
    assert_eq!(seed_from_text("-9223372036854775809"), None);
    assert_eq!(seed_from_text("-+5"), None);
    assert_eq!(seed_from_text("-"), None);
    assert_eq!(seed_from_text("1.5"), None);
    assert_eq!(seed_from_text(""), None);
}

#[test]
fn unsigned_seeds_wrap_like_a_cast() {
    assert_eq!(seed_from_u64(5), 5);
    assert_eq!(seed_from_u64(u64::MAX), -1);
    assert_eq!(seed_from_u64(1u64 << 63), i64::MIN);
}

#[test]
fn blank_gallery_path_means_the_default() {
    assert_eq!(configured_gallery_path(Some("  /data/gallery ")), Some("/data/gallery".to_string()));
    assert_eq!(configured_gallery_path(Some("   ")), None);
    assert_eq!(configured_gallery_path(None), None);
}

#[test]
fn assistant_answer_length_sets_the_token_budget() {
    let mut o = PromptAssistantOpts::new();
    assert_eq!(o.max_tokens(), 192);
    o.length = Some("short".to_string());
    assert_eq!(o.max_tokens(), 96);
    o.length = Some("detailed".to_string());
    assert_eq!(o.max_tokens(), 384);
    o.length = Some("medium".to_string());
    assert_eq!(o.max_tokens(), 192);
}
