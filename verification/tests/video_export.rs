use mooshie_core::video_export::{
    crossfade_available, default_crossfade_frames, divisors, ext_for, offered_fps,
    output_dimensions, output_frame_count, over_size_limit, quality_to_crf, snap_fps,
    supports_audio, export_capability, export_unavailable, MIN_OFFERED_FPS,
};

#[test]
fn divisors_descend_from_n() {
    assert_eq!(divisors(24), vec![24, 12, 8, 6, 4, 3, 2, 1]);
    assert_eq!(divisors(48), vec![48, 24, 16, 12, 8, 6, 4, 3, 2, 1]);
    assert_eq!(divisors(1), vec![1]);
    assert_eq!(divisors(0), Vec::<u32>::new());
}

#[test]
fn offered_fps_floors_at_six() {
    assert_eq!(offered_fps(24), vec![24, 12, 8, 6]);
    assert_eq!(offered_fps(48), vec![48, 24, 16, 12, 8, 6]);
}

#[test]
fn offered_fps_never_exceeds_the_source() {
    assert!(!offered_fps(16).contains(&24));
    assert_eq!(offered_fps(16), vec![16, 8]);
}

#[test]
fn offered_fps_degenerate_sources_still_offer_something() {
    assert_eq!(offered_fps(5), vec![5]);
    assert_eq!(offered_fps(0), vec![MIN_OFFERED_FPS]);
}

#[test]
fn snap_fps_picks_the_highest_offered_at_or_below_target() {
    assert_eq!(snap_fps(16, 48), 16);
    assert_eq!(snap_fps(16, 24), 12);
    assert_eq!(snap_fps(12, 24), 12);
    assert_eq!(snap_fps(24, 24), 24);
    assert_eq!(snap_fps(60, 24), 24);
    assert_eq!(snap_fps(2, 24), 6);
}

#[test]
fn snapping_an_already_offered_rate_is_a_no_op() {
    for src in [8u32, 12, 16, 24, 30, 48, 60] {
        for offered in offered_fps(src) {
            assert_eq!(snap_fps(offered, src), offered, "src={src} rate={offered}");
        }
    }
    assert_eq!(snap_fps(16, 24), 12);
    assert_eq!(snap_fps(30, 24), 24);
    assert_eq!(snap_fps(0, 24), MIN_OFFERED_FPS);
}

#[test]
fn output_dimensions_snap_even_and_never_upscale() {
    assert_eq!(output_dimensions(832, 480, 640), (640, 370));
    assert_eq!(output_dimensions(480, 270, 640), (480, 270));
    assert_eq!(output_dimensions(833, 481, 833), (832, 480));
}

#[test]
fn loop_mode_frame_math() {
    assert_eq!(output_frame_count("none", 124, 4), 124);
    assert_eq!(output_frame_count("trim", 124, 4), 123);
    assert_eq!(output_frame_count("crossfade", 124, 4), 120);
    assert_eq!(output_frame_count("pingpong", 124, 4), 246);
}

#[test]
fn loop_mode_frame_math_degenerates_safely() {
    assert_eq!(output_frame_count("trim", 1, 4), 1);
    assert_eq!(output_frame_count("pingpong", 2, 4), 2);
    assert_eq!(output_frame_count("crossfade", 10, 4), 10);
    assert_eq!(output_frame_count("nonsense", 124, 4), 124);
}

#[test]
fn crossfade_offered_only_when_the_clip_is_long_enough() {
    assert!(crossfade_available(124, 4));
    assert!(crossfade_available(13, 4));
    assert!(!crossfade_available(12, 4));
    assert!(!crossfade_available(4, 4));
    assert!(!crossfade_available(124, 0));
}

#[test]
fn default_crossfade_scales_with_clip_length() {
    assert_eq!(default_crossfade_frames(24), 2);
    assert_eq!(default_crossfade_frames(124), 10);
    assert_eq!(default_crossfade_frames(1000), 16);
    assert_eq!(default_crossfade_frames(3), 0);
    assert_eq!(default_crossfade_frames(0), 0);
}

#[test]
fn default_crossfade_is_always_available_when_nonzero() {
    for f in [4, 5, 6, 7, 12, 13, 24, 48, 124, 500, 5000] {
        let n = default_crossfade_frames(f);
        if n > 0 {
            assert!(
                crossfade_available(f, n),
                "default_crossfade_frames({f}) = {n} is not itself available"
            );
        }
    }
}

#[test]
fn size_limits_follow_the_platform_table() {
    let twenty_mb = 20 * 1024 * 1024;
    assert!(!over_size_limit(twenty_mb, "discord"));
    assert!(over_size_limit(twenty_mb + 1, "discord"));
    assert!(!over_size_limit(twenty_mb + 1, "nitro"));
    assert!(over_size_limit(500 * 1024 * 1024 + 1, "nitro"));
    assert!(!over_size_limit(u64::MAX, "none"));
    assert!(!over_size_limit(u64::MAX, "anything-else"));
}

#[test]
fn extensions_cover_every_format_and_default_to_avif() {
    assert_eq!(ext_for("avif"), "avif");
    assert_eq!(ext_for("webp"), "webp");
    assert_eq!(ext_for("gif"), "gif");
    assert_eq!(ext_for("mp4"), "mp4");
    assert_eq!(ext_for(""), "avif");
    assert_eq!(ext_for("mkv"), "avif");
}

#[test]
fn quality_maps_onto_the_crf_scale_inverted() {
    assert_eq!(quality_to_crf(0), 34);
    assert_eq!(quality_to_crf(100), 14);
    assert_eq!(quality_to_crf(70), 20);
    assert_eq!(quality_to_crf(78), 18);
    assert_eq!(quality_to_crf(90), 16);
    assert_eq!(quality_to_crf(500), 14);
    for q in 1..=100u32 {
        assert!(quality_to_crf(q) <= quality_to_crf(q - 1));
    }
}

#[test]
fn audio_survives_only_on_mp4_and_never_under_pingpong() {
    assert!(supports_audio("mp4", "auto"));
    assert!(supports_audio("mp4", "none"));
    assert!(supports_audio("mp4", "trim"));
    assert!(supports_audio("mp4", "crossfade"));
    assert!(!supports_audio("mp4", "pingpong"));
    assert!(!supports_audio("avif", "none"));
    assert!(!supports_audio("webp", "none"));
    assert!(!supports_audio("gif", "none"));
}

#[test]
fn quality_to_crf_matches_rounded_linear_map_at_every_step() {
    // 34 - q/5 rounded to nearest: fractions .2/.4 round down, .6/.8 round up.
    assert_eq!(quality_to_crf(1), 34);
    assert_eq!(quality_to_crf(2), 34);
    assert_eq!(quality_to_crf(3), 33);
    assert_eq!(quality_to_crf(4), 33);
    assert_eq!(quality_to_crf(5), 33);
}

#[test]
fn output_dimensions_of_an_empty_source_are_zero() {
    assert_eq!(output_dimensions(0, 480, 640), (0, 0));
    assert_eq!(output_dimensions(640, 0, 640), (0, 0));
    // A one-pixel source still yields the 2px minimum grid.
    assert_eq!(output_dimensions(1, 1, 1), (2, 2));
    // Halves round up to the next even height.
    assert_eq!(output_dimensions(4, 2, 2), (2, 2));
}

#[test]
fn offered_fps_of_a_prime_source_is_the_source() {
    assert_eq!(offered_fps(7), vec![7]);
    assert_eq!(offered_fps(30), vec![30, 15, 10, 6]);
    assert_eq!(snap_fps(9, 30), 6);
}

#[test]
fn export_capability_follows_the_probe() {
    let ok = export_capability(true, "ok 1\n", "");
    assert!(ok.available && ok.mp4 && ok.reason.is_none());
    let no_mp4 = export_capability(true, "ok 0", "");
    assert!(no_mp4.available && !no_mp4.mp4);
    assert!(!export_capability(true, "   ", "").mp4);
    let failed = export_capability(false, "", "Traceback...\nModuleNotFoundError: No module named 'av'\n");
    assert!(!failed.available && !failed.mp4);
    assert_eq!(failed.reason.as_deref(), Some("ModuleNotFoundError: No module named 'av'"));
    assert_eq!(export_capability(false, "", "").reason.as_deref(), Some("unknown import failure"));
    assert_eq!(export_unavailable("no venv".to_string()).reason.as_deref(), Some("no venv"));
}

#[test]
fn default_crossfade_never_falls_as_clips_grow() {
    let mut last = 0;
    for f in 0..400u32 {
        let n = default_crossfade_frames(f);
        assert!(n >= last);
        last = n;
    }
}
