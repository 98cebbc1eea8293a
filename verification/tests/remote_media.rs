use mooshie_core::remote_media::{animadex_url, cdn_url, data_url, encode_base64, sidecar_thumbnail_candidates};

#[test]
fn cdn_paths_lose_leading_slashes() {
    assert_eq!(cdn_url("//models/a.json"), "https://cdn.mooshieblob.com/models/a.json");
    assert_eq!(cdn_url("x"), "https://cdn.mooshieblob.com/x");
}

#[test]
fn animadex_proxy_only_reaches_the_characters_api() {
    assert_eq!(animadex_url("/api/characters/42").unwrap(), "https://animadex.net/api/characters/42");
    assert_eq!(
        animadex_url("api/users/1").unwrap_err(),
        "animadex proxy: path must start with api/characters/"
    );
    assert!(animadex_url("https://evil.test/api/characters/").is_err());
}

#[test]
fn base64_is_the_standard_padded_encoding() {
    assert_eq!(encode_base64(b""), "");
    assert_eq!(encode_base64(b"M"), "TQ==");
    assert_eq!(encode_base64(b"Ma"), "TWE=");
    assert_eq!(encode_base64(b"Man"), "TWFu");
    assert_eq!(encode_base64(&[0xfb, 0xff, 0xfe]), "+//+");
    assert_eq!(data_url("image/png", b"\x89PNG"), "data:image/png;base64,iVBORw==");
}

#[test]
fn sidecar_thumbnails_sit_next_to_the_model() {
    let c = sidecar_thumbnail_candidates("/m/loras/style.safetensors").unwrap();
    let got: Vec<(String, &str)> = c.into_iter().collect();
    assert_eq!(
        got,
        vec![
            ("/m/loras/style.png".to_string(), "image/png"),
            ("/m/loras/style.jpg".to_string(), "image/jpeg"),
            ("/m/loras/style.jpeg".to_string(), "image/jpeg"),
            ("/m/loras/style.preview.png".to_string(), "image/png"),
            ("/m/loras/style.preview.jpg".to_string(), "image/jpeg"),
        ]
    );
    assert!(sidecar_thumbnail_candidates("/").is_none());
}
