use mooshie_core::gallery::gallery_video_location;
use mooshie_core::gallery::{
    check_gallery_rename, count_import, detect_image_mime, file_name_stem, generation_mode_label,
    import_progress_due, import_step, numbered_video_name, poster_name_for_video, saved_video,
    validate_gallery_video_name, ImportResult, ImportStep,
};
use mooshie_core::gallery::{
    infer_image_mime, infer_image_mime_pub, is_listable_gallery_file, parse_index_from_base,
    render_output_filename_base, sanitize_filename_component, template_value,
    resolve_gallery_image_path, validate_gallery_filename, video_dimensions, format_label, ImageFormat, GalleryPathResolveError,
};

#[test]
fn rejects_gallery_filenames_with_path_segments() {
    assert_eq!(
        validate_gallery_filename("../image.png"),
        Err(GalleryPathResolveError::InvalidFilename)
    );
    assert_eq!(
        validate_gallery_filename("alice/image.png"),
        Err(GalleryPathResolveError::InvalidFilename)
    );
    assert_eq!(
        validate_gallery_filename("alice\\image.png"),
        Err(GalleryPathResolveError::InvalidFilename)
    );
}

#[test]
fn plain_gallery_filenames_are_accepted() {
    assert_eq!(validate_gallery_filename("image.png"), Ok(()));
    assert_eq!(validate_gallery_filename("a.b.png"), Ok(()));
    assert_eq!(GalleryPathResolveError::Ambiguous.message(), "Ambiguous gallery filename");
    assert_eq!(GalleryPathResolveError::NotFound.message(), "Gallery image not found");
    assert_eq!(GalleryPathResolveError::InvalidFilename.message(), "Invalid filename");
}

#[test]
fn listings_show_media_but_not_poster_sidecars() {
    assert!(is_listable_gallery_file("a.PNG"));
    assert!(is_listable_gallery_file("clip.mp4"));
    assert!(is_listable_gallery_file("x.jxl"));
    assert!(is_listable_gallery_file("x.jpeg"));
    assert!(!is_listable_gallery_file("clip_poster.webp"));
    assert!(!is_listable_gallery_file("clip_POSTER.WEBP"));
    assert!(is_listable_gallery_file("clip_poster2.webp"));
    assert!(!is_listable_gallery_file("notes.txt"));
    assert!(!is_listable_gallery_file("png"));
}

#[test]
fn image_mime_comes_from_magic_bytes_then_the_extension() {
    assert_eq!(infer_image_mime(&[0xFF, 0xD8, 0xFF, 0xE0, 0], None), "image/jpeg");
    assert_eq!(infer_image_mime(&[0xFF, 0xD8, 0xFF, 0xE1], Some("png")), "image/jpeg");
    assert_eq!(infer_image_mime(b"RIFF....WEBP", None), "image/webp");
    assert_eq!(infer_image_mime(&[0x89, 0x50, 0x4E, 0x47], Some("jpg")), "image/jpeg");
    assert_eq!(infer_image_mime(&[], Some("jpeg")), "image/jpeg");
    assert_eq!(infer_image_mime(&[], Some("webp")), "image/webp");
    assert_eq!(infer_image_mime(&[], Some("gif")), "image/png");
    assert_eq!(infer_image_mime_pub(&[1, 2], None), "image/png");
}

#[test]
fn file_name_components_are_made_safe() {
    assert_eq!(sanitize_filename_component("  my image!  "), "my_image");
    assert_eq!(sanitize_filename_component("../etc/passwd"), "etc_passwd");
    assert_eq!(sanitize_filename_component("a...b"), "a_.b");
    assert_eq!(sanitize_filename_component("__x__"), "x");
    assert_eq!(sanitize_filename_component("日本"), "");
}

#[test]
fn the_index_is_the_trailing_digit_run() {
    assert_eq!(parse_index_from_base("ComfyUI_00042"), "00042");
    assert_eq!(parse_index_from_base("abc"), "0");
    assert_eq!(parse_index_from_base("12a"), "0");
    assert_eq!(parse_index_from_base(""), "0");
}

#[test]
fn template_tokens_resolve_from_the_prompt_and_metadata() {
    let meta = vec![
        ("model".to_string(), "sdxl".to_string()),
        ("seed".to_string(), "42".to_string()),
        ("checkpoint".to_string(), "juggernaut".to_string()),
    ];
    assert_eq!(template_value("prompt_id", "p1", "txt2img", "b_7", Some(&meta), 100), "p1");
    assert_eq!(template_value("mode", "p1", "txt2img", "b_7", Some(&meta), 100), "txt2img");
    assert_eq!(template_value("index", "p1", "txt2img", "b_7", Some(&meta), 100), "7");
    assert_eq!(template_value("date", "p1", "txt2img", "b_7", Some(&meta), 100), "100");
    assert_eq!(template_value("time", "p1", "txt2img", "b_7", None, 5), "5");
    assert_eq!(template_value("model", "p1", "txt2img", "b_7", Some(&meta), 100), "juggernaut");
    assert_eq!(template_value("model", "p1", "txt2img", "b_7", Some(&meta[..2]), 100), "sdxl");
    assert_eq!(template_value("model", "p1", "txt2img", "b_7", None, 100), "unknown-model");
    assert_eq!(template_value("seed", "p1", "txt2img", "b_7", Some(&meta), 100), "42");
    assert_eq!(template_value("seed", "p1", "txt2img", "b_7", None, 100), "0");
    assert_eq!(template_value("other", "p1", "txt2img", "b_7", None, 100), "");
}

#[test]
fn output_names_follow_the_template_or_fall_back() {
    let meta = vec![("seed".to_string(), "9".to_string())];
    assert_eq!(
        render_output_filename_base(Some(" {mode}-{seed}-{index} "), "p1", "img2img", "out_12", Some(&meta), 0),
        "img2img-9-12"
    );
    assert_eq!(
        render_output_filename_base(None, "p 1", "txt2img", "base", None, 0),
        "p_1__txt2img__base"
    );
    assert_eq!(
        render_output_filename_base(Some("   "), "p1", "txt2img", "base", None, 0),
        "p1__txt2img__base"
    );
    assert_eq!(
        render_output_filename_base(Some("{unknown}!!"), "p1", "txt2img", "base", None, 0),
        "unknown"
    );
    assert_eq!(
        render_output_filename_base(Some("___"), "p1", "txt2img", "base", None, 0),
        "p1__txt2img__base"
    );
}

#[test]
fn detected_mime_follows_magic_bytes() {
    assert_eq!(detect_image_mime(b"\x89PNG\r\n"), "image/png");
    assert_eq!(detect_image_mime(b"\xff\xd8\xff"), "image/jpeg");
    assert_eq!(detect_image_mime(b"GIF89a"), "image/gif");
    assert_eq!(detect_image_mime(b"RIFF\x00\x00\x00\x00WEBPVP8 "), "image/webp");
    assert_eq!(detect_image_mime(b"RIFF\x00\x00\x00\x00WAVE"), "image/jpeg");
    assert_eq!(detect_image_mime(b""), "image/jpeg");
}

#[test]
fn interpolation_accepts_only_bare_mp4_gallery_names() {
    assert_eq!(validate_gallery_video_name("  mooshie_video_00001_.mp4 "), Ok("mooshie_video_00001_.mp4".to_string()));
    assert_eq!(validate_gallery_video_name("CLIP.MP4"), Ok("CLIP.MP4".to_string()));
    for bad in ["../clip.mp4", "sub/clip.mp4", "sub\\clip.mp4", "   ", "", "a..b.mp4"] {
        assert_eq!(validate_gallery_video_name(bad), Err("Invalid filename".to_string()), "accepted {bad:?}");
    }
    assert_eq!(validate_gallery_video_name("still.png"), Err("Only mp4 clips can be interpolated".to_string()));
    assert_eq!(validate_gallery_video_name("clip.mp4.txt"), Err("Only mp4 clips can be interpolated".to_string()));
}

#[test]
fn gallery_renames_keep_names_bare_and_videos_mp4() {
    assert_eq!(check_gallery_rename("a.png", "b.png"), Ok(None));
    assert_eq!(
        check_gallery_rename("clip.mp4", "renamed.MP4"),
        Ok(Some(("clip_poster.webp".to_string(), "renamed.MP4_poster.webp".to_string())))
    );
    assert_eq!(
        check_gallery_rename("clip.MP4", "new.mp4"),
        Ok(Some(("clip.MP4_poster.webp".to_string(), "new_poster.webp".to_string())))
    );
    assert_eq!(check_gallery_rename("a.png", "../b.png"), Err("Invalid filename: ../b.png".to_string()));
    assert_eq!(check_gallery_rename("a.png", "  "), Err("Invalid gallery filename for rename:   ".to_string()));
    assert_eq!(check_gallery_rename("a.png", "."), Err("Invalid gallery filename for rename: .".to_string()));
    assert_eq!(check_gallery_rename("clip.mp4", "clip.webm"), Err("Videos must keep the .mp4 extension".to_string()));
}

#[test]
fn saved_images_record_a_known_mode_and_a_stem() {
    assert_eq!(generation_mode_label(Some("img2img")), "img2img");
    assert_eq!(generation_mode_label(Some("upscale")), "unknown");
    assert_eq!(generation_mode_label(None), "unknown");
    assert_eq!(file_name_stem("photo.final.png"), "photo.final");
    assert_eq!(file_name_stem("noext"), "noext");
    assert_eq!(file_name_stem(".hidden"), "");
}

#[test]
fn saved_videos_get_free_names_and_posters() {
    assert_eq!(numbered_video_name("clip", 0), "clip.mp4");
    assert_eq!(numbered_video_name("clip", 12), "clip_12.mp4");
    assert_eq!(poster_name_for_video("clip_1.mp4"), "clip_1_poster.webp");
    assert_eq!(poster_name_for_video("odd.mp4.mp4"), "odd_poster.webp");
    let v = saved_video("clip.mp4".to_string(), true);
    assert_eq!(v.poster_filename, Some("clip_poster.webp".to_string()));
    assert_eq!(saved_video("clip.mp4".to_string(), false).poster_filename, None);
}

#[test]
fn imports_skip_images_already_in_the_gallery() {
    let existing = vec!["imported__a.png".to_string(), "other__b.png".to_string(), "c.png".to_string()];
    assert_eq!(import_step(&existing, Some("a.png")), ImportStep::Skip);
    assert_eq!(import_step(&existing, Some("b.png")), ImportStep::Skip);
    assert_eq!(import_step(&existing, Some("c.png")), ImportStep::Copy("imported__c.png".to_string()));
    assert_eq!(import_step(&existing, None), ImportStep::Fail);
    let mut tally = ImportResult { imported: 0, skipped: 0, failed: 0 };
    count_import(&mut tally, 2);
    count_import(&mut tally, 1);
    count_import(&mut tally, 0);
    count_import(&mut tally, 2);
    assert_eq!((tally.imported, tally.skipped, tally.failed), (2, 1, 1));
    assert!(import_progress_due(50, 3, 100));
    assert!(import_progress_due(7, 99, 100));
    assert!(!import_progress_due(7, 3, 100));
}

#[test]
fn resolves_the_one_gallery_file_of_a_name() {
    let found = vec!["/g/users/alice/image.png".to_string()];
    assert_eq!(resolve_gallery_image_path("image.png", found), Ok("/g/users/alice/image.png".to_string()));
}

#[test]
fn refuses_a_gallery_name_found_twice() {
    let found = vec!["/g/image.png".to_string(), "/g/users/alice/image.png".to_string()];
    assert_eq!(resolve_gallery_image_path("image.png", found), Err(GalleryPathResolveError::Ambiguous));
    let found = vec!["/g/users/alice/image.png".to_string(), "/g/users/bob/image.png".to_string()];
    assert_eq!(resolve_gallery_image_path("image.png", found), Err(GalleryPathResolveError::Ambiguous));
}

#[test]
fn reports_a_missing_or_invalid_gallery_name() {
    assert_eq!(resolve_gallery_image_path("image.png", vec![]), Err(GalleryPathResolveError::NotFound));
    let found = vec!["/g/x.png".to_string()];
    assert_eq!(resolve_gallery_image_path("../image.png", found), Err(GalleryPathResolveError::InvalidFilename));
    assert_eq!(GalleryPathResolveError::Ambiguous.message(), "Ambiguous gallery filename");
}

#[test]
fn video_dimensions_need_a_positive_stored_size() {
    assert_eq!(video_dimensions(Some((1280, 720))), Some((1280, 720)));
    assert_eq!(video_dimensions(Some((0, 720))), None);
    assert_eq!(video_dimensions(Some((1280, -1))), Some((1280, u32::MAX)));
    assert_eq!(video_dimensions(Some((4294967296, 720))), None);
    assert_eq!(video_dimensions(None), None);
}

#[test]
fn index_labels_name_each_format() {
    assert_eq!(format_label(ImageFormat::Png), "png");
    assert_eq!(format_label(ImageFormat::Jxl), "jxl");
    assert_eq!(format_label(ImageFormat::WebP), "webp");
    assert_eq!(format_label(ImageFormat::Mp4), "mp4");
    assert_eq!(format_label(ImageFormat::Avif), "avif");
    assert_eq!(format_label(ImageFormat::Gif), "gif");
    assert_eq!(format_label(ImageFormat::Unknown), "unknown");
}

#[test]
fn a_clip_must_resolve_inside_the_gallery() {
    assert_eq!(
        gallery_video_location("a.mp4", Some("/g/a.mp4".to_string()), Ok("/g".to_string())),
        Ok("/g/a.mp4".to_string())
    );
    assert_eq!(
        gallery_video_location("a.mp4", Some("/elsewhere/a.mp4".to_string()), Ok("/g".to_string())),
        Err("Not a gallery file".to_string())
    );
    assert_eq!(
        gallery_video_location("a.mp4", Some("/gx/a.mp4".to_string()), Ok("/g".to_string())),
        Err("Not a gallery file".to_string())
    );
    assert_eq!(gallery_video_location("a.mp4", None, Ok("/g".to_string())), Err("Video not found: a.mp4".to_string()));
    assert_eq!(
        gallery_video_location("a.mp4", Some("/g/a.mp4".to_string()), Err("denied".to_string())),
        Err("Gallery unavailable: denied".to_string())
    );
}
