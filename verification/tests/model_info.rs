use mooshie_core::gguf::GgufArchitectureMeta;
use mooshie_core::model_info::{modelspec_info, ModelspecFacts};
use mooshie_core::models::{is_sdxl_like_family, model_family_from_base_model, turbo_model_variant_from_filename};
use mooshie_core::modelspec::{parse_safetensors_header, MetaValue, SafetensorsHeader};

fn facts(filename: &str, category: &str) -> ModelspecFacts {
    ModelspecFacts {
        category: category.to_string(),
        filename: filename.to_string(),
        lora_manager: None,
        forge: None,
        stability_matrix: None,
        hash_lookup: None,
        header: None,
        gguf: None,
        vaes: None,
        encoders: None,
    }
}

fn get<'a>(v: &'a [(String, String)], k: &str) -> Option<&'a str> {
    v.iter().find(|(key, _)| key == k).map(|(_, x)| x.as_str())
}

#[test]
fn safetensors_header_is_read_two_levels_deep() {
    let h = parse_safetensors_header(
        br#"{"__metadata__":{"modelspec.title":"T","ss_x":3,"n":null},"v_pred":1,"a.weight":{}}"#,
    )
    .unwrap();
    assert!(h.has_v_pred);
    assert_eq!(
        h.keys,
        Some(vec!["__metadata__".to_string(), "a.weight".to_string(), "v_pred".to_string()])
    );
    assert_eq!(h.metadata.len(), 3);
    assert_eq!(h.metadata[0].0, "modelspec.title");
    assert!(matches!(&h.metadata[0].1, MetaValue::Text(t) if t == "T"));
    assert_eq!(h.metadata[1].0, "n");
    assert!(matches!(h.metadata[1].1, MetaValue::Null));
    assert!(matches!(&h.metadata[2].1, MetaValue::Other(t) if t == "3"));
}

#[test]
fn odd_safetensors_headers() {
    let h = parse_safetensors_header(b"[1, 2]").unwrap();
    assert!(h.metadata.is_empty() && !h.has_v_pred && h.keys.is_none());
    let h = parse_safetensors_header(br#"{"__metadata__": "x"}"#).unwrap();
    assert!(h.metadata.is_empty());
    assert!(parse_safetensors_header(b"{").is_err());
}

#[test]
fn files_without_metadata_get_no_info() {
    assert_eq!(modelspec_info(facts("model.ckpt", "checkpoints")), Ok(None));
}

#[test]
fn a_sidecar_base_model_decides_the_family() {
    let mut f = facts("mystery.safetensors", "loras");
    f.lora_manager = Some("Pony".to_string());
    f.header = Some(Ok(SafetensorsHeader { metadata: vec![], has_v_pred: false, keys: Some(vec![]) }));
    let info = modelspec_info(f).unwrap().unwrap();
    let family = model_family_from_base_model("Pony");
    assert_eq!(get(&info, "base_model"), Some("Pony"));
    assert_eq!(get(&info, "family"), Some(family));
    assert_eq!(get(&info, "is_sdxl_like"), Some(if is_sdxl_like_family(family) { "true" } else { "false" }));
    assert_eq!(get(&info, "turbo_model_variant"), Some(turbo_model_variant_from_filename("mystery.safetensors")));
    assert_eq!(get(&info, "hash"), None);
}

#[test]
fn an_unreadable_header_fails_when_runtime_fields_are_needed() {
    let mut f = facts("mystery.safetensors", "loras");
    f.lora_manager = Some("SDXL 1.0".to_string());
    f.header = Some(Err("boom".to_string()));
    let expected = if is_sdxl_like_family(model_family_from_base_model("SDXL 1.0")) {
        Err("boom".to_string())
    } else {
        Ok(())
    };
    assert_eq!(modelspec_info(f).map(|_| ()), expected);
}

#[test]
fn unresolved_files_keep_their_hash_and_lookup() {
    let mut f = facts("zzz.safetensors", "loras");
    f.hash_lookup = Some(("ABCDEF0123".to_string(), None));
    let info = modelspec_info(f).unwrap().unwrap();
    if get(&info, "base_model").is_none() {
        assert_eq!(get(&info, "hash"), Some("ABCDEF0123"));
        assert_eq!(get(&info, "family"), Some("unknown"));
        assert_eq!(get(&info, "is_sdxl_like"), Some("false"));
    }
}

#[test]
fn gguf_files_are_split_diffusion_models() {
    let mut f = facts("unet.gguf", "diffusion_models");
    f.gguf = Some(GgufArchitectureMeta { architecture: None, gguf_architecture: Some("xyz".to_string()) });
    let info = modelspec_info(f).unwrap().unwrap();
    assert_eq!(get(&info, "model_kind"), Some("diffusion_model"));
    assert_eq!(get(&info, "model_kind_source"), Some("gguf"));
    assert_eq!(get(&info, "gguf_architecture"), Some("xyz"));
}
