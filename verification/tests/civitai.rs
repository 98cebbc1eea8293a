use mooshie_core::civitai::civitai_images;
use mooshie_core::civitai::version_creator;
use mooshie_core::civitai::{choose_thumbnail, civitai_image, follow_image_redirect, image_cache_fresh, image_cache_key, image_request_token, nsfw_label};
use mooshie_core::civitai::{
    checkpoint_civitai_info, lora_civitai_info, CivitaiVersionFacts, ModelspecFields,
    is_allowed_civitai_image_host, parse_civitai_image_id, parse_civitai_image_id_pub,
    parse_civitai_image_url,
};

#[test]
fn sidecar_image_url_allows_civitai_image_hosts() {
    assert!(parse_civitai_image_url("https://image.civitai.com/example.jpeg").is_ok());
    assert!(parse_civitai_image_url("https://cdn.civitai.com/example.png").is_ok());
    assert!(parse_civitai_image_url("https://civitai.com/images/123").is_ok());
    assert!(parse_civitai_image_url("https://imagecache.civitai.com/example.jpeg").is_ok());
}

#[test]
fn sidecar_image_url_rejects_non_civitai_and_non_https_targets() {
    assert!(parse_civitai_image_url("http://image.civitai.com/example.jpeg").is_err());
    assert!(parse_civitai_image_url("http://127.0.0.1:8188/view").is_err());
    assert!(parse_civitai_image_url("https://169.254.169.254/latest/meta-data").is_err());
    assert!(parse_civitai_image_url("https://civitai.com.evil.test/example.png").is_err());
}

#[test]
fn cached_image_fetch_uses_same_civitai_only_url_policy() {
    assert!(parse_civitai_image_url("https://www.civitai.com/images/123").is_ok());
    assert!(parse_civitai_image_url("https://localhost/admin").is_err());
    assert!(parse_civitai_image_url("file:///etc/passwd").is_err());
}

#[test]
fn url_refusals_say_why() {
    assert_eq!(
        parse_civitai_image_url("http://civitai.com/x").err().as_deref(),
        Some("CivitAI image URL must use HTTPS")
    );
    assert_eq!(
        parse_civitai_image_url("https://example.com/x").err().as_deref(),
        Some("Only CivitAI image URLs can be used as sidecar thumbnails")
    );
    assert_eq!(
        parse_civitai_image_url("not a url").err().as_deref(),
        Some("Invalid CivitAI image URL: relative URL without a base")
    );
    assert!(parse_civitai_image_url("  https://CIVITAI.com/x  ").is_ok());
}

#[test]
fn image_ids_come_from_numbers_or_image_pages() {
    assert_eq!(parse_civitai_image_id(" 12345 "), Ok(12345));
    assert_eq!(parse_civitai_image_id("https://civitai.com/images/987?x=1"), Ok(987));
    assert_eq!(parse_civitai_image_id("https://civitai.com/images/42/"), Ok(42));
    assert_eq!(parse_civitai_image_id_pub("https://civitai.com/images/7#c"), Ok(7));
    assert_eq!(
        parse_civitai_image_id("https://civitai.com/models/5"),
        Err("Could not parse CivitAI image id from \"https://civitai.com/models/5\"".to_string())
    );
    assert!(parse_civitai_image_id("").is_err());
}

#[test]
fn civitai_hosts_are_exact_or_subdomains() {
    assert!(is_allowed_civitai_image_host("civitai.com"));
    assert!(is_allowed_civitai_image_host("Image.CivitAI.com"));
    assert!(!is_allowed_civitai_image_host("civitai.com.evil.test"));
    assert!(!is_allowed_civitai_image_host("evilcivitai.com"));
}

#[test]
fn token_is_sent_only_to_civitai_hosts() {
    assert_eq!(image_request_token(Some("image.civitai.com"), Some("key")), Some("key".to_string()));
    assert_eq!(image_request_token(Some("CivitAI.com"), Some(" key ")), Some(" key ".to_string()));
    assert_eq!(image_request_token(Some("image-b2.civitai-cdn.net"), Some("key")), None);
    assert_eq!(image_request_token(Some("civitai.com"), Some("  ")), None);
    assert_eq!(image_request_token(None, Some("key")), None);
}

#[test]
fn redirects_must_stay_on_https() {
    let (next, host) = follow_image_redirect("https://civitai.com/images/1", "https://cdn.example.net/x.jpeg").unwrap();
    assert_eq!(next, "https://cdn.example.net/x.jpeg");
    assert_eq!(host.as_deref(), Some("cdn.example.net"));
    let (rel, _) = follow_image_redirect("https://civitai.com/images/1", "/api/x").unwrap();
    assert_eq!(rel, "https://civitai.com/api/x");
    assert_eq!(
        follow_image_redirect("https://civitai.com/images/1", "http://127.0.0.1:8188/view").unwrap_err(),
        "CivitAI image redirect must use HTTPS"
    );
    assert!(follow_image_redirect("https://civitai.com/", "https://[bad").unwrap_err().starts_with("Image fetch redirect invalid: "));
}

#[test]
fn cached_images_expire_after_a_week() {
    assert!(image_cache_fresh(Some(0)));
    assert!(image_cache_fresh(Some(604799)));
    assert!(!image_cache_fresh(Some(604800)));
    assert!(!image_cache_fresh(None));
    assert_eq!(image_cache_key(""), "e3b0c44298fc1c149afbf4c8996fb92427ae41e4649b934ca495991b7852b855");
    assert_eq!(image_cache_key("https://civitai.com/a").len(), 64);
}

#[test]
fn sample_images_carry_sizes_and_nsfw_labels() {
    let img = civitai_image("https://image.civitai.com/a.jpeg".to_string(), Some(832), None, Some(1));
    assert_eq!(img.width, Some(832));
    assert_eq!(img.height, None);
    assert_eq!(img.nsfw.as_deref(), Some("None"));
    assert_eq!(nsfw_label(4), "Level4");
    assert_eq!(civitai_image("u".to_string(), None, None, None).nsfw, None);
    let images = vec![img];
    assert_eq!(choose_thumbnail(Some("data:x".to_string()), &images).as_deref(), Some("data:x"));
    assert_eq!(choose_thumbnail(None, &images).as_deref(), Some("https://image.civitai.com/a.jpeg"));
    assert_eq!(choose_thumbnail(None, &vec![]), None);
}

fn facts(base_model: Option<&str>, images: Vec<&str>) -> CivitaiVersionFacts {
    CivitaiVersionFacts {
        version_id: Some(11),
        model_id: Some(7),
        base_model: base_model.map(str::to_string),
        model_name: Some("Civit Name".to_string()),
        description: Some("<p>desc</p>".to_string()),
        creator: Some("maker".to_string()),
        download_count: Some(100),
        thumbs_up_count: Some(5),
        trained_words: vec!["trig".to_string()],
        images: images.into_iter().map(|u| civitai_image(u.to_string(), Some(512), Some(768), Some(2))).collect(),
    }
}

fn spec_fields(title: Option<&str>, architecture: Option<&str>) -> ModelspecFields {
    ModelspecFields {
        title: title.map(str::to_string),
        author: Some("author".to_string()),
        architecture: architecture.map(str::to_string),
        trigger_phrase: Some("phrase".to_string()),
        description: None,
        tags: Some("a,b".to_string()),
    }
}

#[test]
fn lora_info_takes_civitai_fields_and_first_image_as_thumbnail() {
    let info = lora_civitai_info(
        "style.safetensors".to_string(),
        "ABCDEF0123".to_string(),
        Some("sdxl".to_string()),
        None,
        Some(spec_fields(Some("Title"), Some("stable-diffusion-xl-v1-base/lora"))),
        Some(facts(Some("SDXL 1.0"), vec!["https://image.civitai.com/a.jpeg", "https://image.civitai.com/b.jpeg"])),
    );
    assert_eq!(info.hash.as_deref(), Some("ABCDEF0123"));
    assert_eq!(info.thumbnail_url.as_deref(), Some("https://image.civitai.com/a.jpeg"));
    assert_eq!(info.civitai_name.as_deref(), Some("Civit Name"));
    assert_eq!(info.civitai_base_model.as_deref(), Some("SDXL 1.0"));
    assert_eq!(info.civitai_trigger_words, vec!["trig".to_string()]);
    assert_eq!(info.civitai_images.len(), 2);
    assert_eq!(info.civitai_images[0].nsfw.as_deref(), Some("Level2"));
    assert_eq!(info.civitai_creator, None);
    assert_eq!(info.modelspec_trigger_phrase.as_deref(), Some("phrase"));
    assert_eq!(info.modelspec_title.as_deref(), Some("Title"));
}

#[test]
fn lora_info_without_civitai_keeps_the_sidecar() {
    let info = lora_civitai_info(
        "style.pt".to_string(),
        "ABCDEF0123".to_string(),
        None,
        Some("data:image/png;base64,AA==".to_string()),
        None,
        None,
    );
    assert_eq!(info.thumbnail_url.as_deref(), Some("data:image/png;base64,AA=="));
    assert!(info.civitai_images.is_empty());
    assert_eq!(info.civitai_version_id, None);
    assert_eq!(info.modelspec_title, None);
}

#[test]
fn checkpoint_prefers_civitai_base_model_and_modelspec_title() {
    let info = checkpoint_civitai_info(
        "model.safetensors".to_string(),
        Some("ABCDEF0123".to_string()),
        Some("SD 1.5".to_string()),
        Some("sd15".to_string()),
        Some("data:image/png;base64,AA==".to_string()),
        Some(spec_fields(Some("My Model"), Some("stable-diffusion-v1"))),
        Some(facts(Some("Illustrious"), vec!["https://image.civitai.com/a.jpeg"])),
    );
    assert_eq!(info.base_model.as_deref(), Some("Illustrious"));
    assert_eq!(info.display_name.as_deref(), Some("My Model"));
    assert_eq!(info.thumbnail_url.as_deref(), Some("data:image/png;base64,AA=="));
    assert_eq!(info.civitai_creator.as_deref(), Some("maker"));
    assert_eq!(info.civitai_images.len(), 1);
}

#[test]
fn checkpoint_falls_back_to_resolved_then_declared_base_model() {
    let with_resolved = checkpoint_civitai_info(
        "model.safetensors".to_string(),
        Some("ABCDEF0123".to_string()),
        Some("SD 1.5".to_string()),
        None,
        None,
        Some(spec_fields(None, Some("stable-diffusion-v1"))),
        Some(facts(None, vec![])),
    );
    assert_eq!(with_resolved.base_model.as_deref(), Some("SD 1.5"));
    assert_eq!(with_resolved.display_name.as_deref(), Some("Civit Name"));
    assert_eq!(with_resolved.thumbnail_url, None);

    let unhashed = checkpoint_civitai_info(
        "model.safetensors".to_string(),
        None,
        None,
        None,
        None,
        Some(spec_fields(None, Some("stable-diffusion-v1"))),
        None,
    );
    assert_eq!(unhashed.hash, None);
    assert_eq!(unhashed.base_model.as_deref(), Some("stable-diffusion-v1"));
    assert_eq!(unhashed.display_name, None);
    assert_eq!(unhashed.civitai_creator, None);
}

#[test]
fn accepted_image_urls_come_back_as_parsed() {
    assert_eq!(
        parse_civitai_image_url("  https://Image.CivitAI.com/a b.jpeg "),
        Ok(("https://image.civitai.com/a%20b.jpeg".to_string(), "image.civitai.com".to_string()))
    );
    assert_eq!(
        parse_civitai_image_url("http://image.civitai.com/x"),
        Err("CivitAI image URL must use HTTPS".to_string())
    );
}

#[test]
fn civitai_images_without_a_url_are_skipped() {
    let imgs = civitai_images(vec![
        (Some("https://a/1.jpg".to_string()), Some(512), Some(768), Some(1)),
        (None, Some(1), Some(1), None),
        (Some("https://a/2.jpg".to_string()), None, None, Some(4)),
    ]);
    assert_eq!(imgs.len(), 2);
    assert_eq!(imgs[0].url, "https://a/1.jpg");
    assert_eq!(imgs[0].width, Some(512));
    assert_eq!(imgs[0].nsfw, Some("None".to_string()));
    assert_eq!(imgs[1].url, "https://a/2.jpg");
    assert_eq!(imgs[1].nsfw, Some("Level4".to_string()));
}

#[test]
fn the_creator_falls_back_to_the_user_only_when_absent() {
    assert_eq!(version_creator(Some(Some("a".into())), Some(Some("b".into()))), Some("a".to_string()));
    assert_eq!(version_creator(None, Some(Some("b".into()))), Some("b".to_string()));
    assert_eq!(version_creator(Some(None), Some(Some("b".into()))), None);
    assert_eq!(version_creator(None, None), None);
}
