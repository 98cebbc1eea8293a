use mooshie_core::modelspec::{sidecar_base_model, SidecarKind};
use mooshie_core::modelspec::{
    effective_is_split, kind_from_family, model_file_format, needs_runtime_metadata,
    safetensors_display_fields, safetensors_header_len, safetensors_runtime_fields, soft_identity,
    structural_override, MetaValue, ModelFileFormat, SoftIdentity,
};
use mooshie_core::modelspec::{lora_manager_base_model, sidecar_metadata_path, sidecar_text};

#[test]
fn only_safetensors_and_gguf_carry_metadata() {
    assert_eq!(model_file_format("a.safetensors"), ModelFileFormat::Safetensors);
    assert_eq!(model_file_format("a.SAFETENSORS"), ModelFileFormat::Other);
    assert_eq!(model_file_format("a.GGUF"), ModelFileFormat::Gguf);
    assert_eq!(model_file_format("a.ckpt"), ModelFileFormat::Other);
}

#[test]
fn the_first_naming_source_wins() {
    assert_eq!(soft_identity("animayume_v05.safetensors", Some("SDXL".into()), None, None), SoftIdentity::Anima);
    assert_eq!(
        soft_identity("x.safetensors", None, Some("Pony".into()), Some("SDXL".into())),
        SoftIdentity::BaseModel("Pony".into())
    );
    assert_eq!(soft_identity("flux1-dev.ckpt", None, None, None), SoftIdentity::Family("flux1d"));
    // Any "s" (as in ".safetensors") makes a flux1 name read as schnell.
    assert_eq!(soft_identity("flux1-dev.safetensors", None, None, None), SoftIdentity::Family("flux1s"));
    assert_eq!(soft_identity("mystery.safetensors", None, None, None), SoftIdentity::Unresolved);
}

#[test]
fn weights_override_only_incompatible_or_unknown_families() {
    assert_eq!(structural_override(Some("illustrious"), "sdxl"), (false, false));
    assert_eq!(structural_override(Some("flux"), "sdxl"), (true, true));
    assert_eq!(structural_override(Some("unknown"), "flux"), (true, false));
    assert_eq!(structural_override(None, "flux"), (true, false));
    assert_eq!(structural_override(Some("krea2"), "flux"), (false, false));
    assert_eq!(structural_override(Some("sdxl"), "anima"), (true, true));
    assert_eq!(structural_override(Some("anima"), "anima"), (true, false));
}

#[test]
fn kind_and_split_decisions() {
    assert_eq!(kind_from_family(false, Some("flux")), Some(("diffusion_model", "family")));
    assert_eq!(kind_from_family(true, Some("flux")), None);
    assert_eq!(kind_from_family(false, Some("sdxl")), None);
    assert!(effective_is_split("diffusion_models", None));
    assert!(effective_is_split("checkpoints", Some("diffusion_model")));
    assert!(!effective_is_split("checkpoints", Some("checkpoint")));
    assert!(!effective_is_split("loras", Some("diffusion_model")));
    assert!(needs_runtime_metadata(true, true, None));
    assert!(needs_runtime_metadata(true, false, Some("Illustrious")));
    assert!(!needs_runtime_metadata(false, true, None));
    assert!(!needs_runtime_metadata(true, false, Some("Flux.1 D")));
}

fn meta(k: &str, v: MetaValue) -> (String, MetaValue) {
    (k.to_string(), v)
}

fn as_map(v: Vec<(String, String)>) -> std::collections::BTreeMap<String, String> {
    v.into_iter().collect()
}

#[test]
fn safetensors_header_length_is_bounded() {
    assert_eq!(safetensors_header_len([16, 0, 0, 0, 0, 0, 0, 0]), Ok(16));
    assert_eq!(safetensors_header_len([0, 0, 0x40, 6, 0, 0, 0, 0]), Ok(104857600));
    assert_eq!(
        safetensors_header_len([1, 0, 0x40, 6, 0, 0, 0, 0]),
        Err("Safetensors header too large".to_string())
    );
}

#[test]
fn display_fields_collect_modelspec_and_infer_structure() {
    let md = vec![
        meta("modelspec.title", MetaValue::Text("My LoRA".to_string())),
        meta("modelspec.architecture", MetaValue::Text("stable-diffusion-xl-v1-base".to_string())),
        meta("modelspec.resolution", MetaValue::Other("1024".to_string())),
        meta("modelspec.thumbnail", MetaValue::Null),
        meta("prediction_type", MetaValue::Text("epsilon".to_string())),
        meta("ss_network_dim", MetaValue::Other("32".to_string())),
    ];
    let keys = ["__metadata__", "lora_unet_down_blocks_0.alpha"];
    let m = as_map(safetensors_display_fields(&md, true, Some(&keys)).unwrap());
    assert_eq!(m.get("title").map(String::as_str), Some("My LoRA"));
    assert_eq!(m.get("resolution").map(String::as_str), Some("1024"));
    assert_eq!(m.get("prediction_type").map(String::as_str), Some("epsilon"));
    assert_eq!(m.get("modelspec_keys").map(String::as_str), Some("architecture,resolution,title"));
    assert_eq!(m.get("header_v_pred").map(String::as_str), Some("true"));
    assert_eq!(m.get("architecture").map(String::as_str), Some("stable-diffusion-xl-v1-base"));
    assert!(!m.contains_key("architecture_inferred"));
    assert!(!m.contains_key("thumbnail"));
    assert!(!m.contains_key("ss_network_dim"));
}

#[test]
fn declared_prediction_type_wins_over_the_plain_key() {
    let md = vec![
        meta("modelspec.prediction_type", MetaValue::Text("v".to_string())),
        meta("prediction_type", MetaValue::Text("epsilon".to_string())),
    ];
    let m = as_map(safetensors_display_fields(&md, false, None).unwrap());
    assert_eq!(m.get("prediction_type").map(String::as_str), Some("v"));
    assert!(safetensors_display_fields(&vec![], false, None).is_none());
}

#[test]
fn runtime_fields_take_string_values_only() {
    let md = vec![
        meta("modelspec.prediction_type", MetaValue::Other("1".to_string())),
        meta("modelspec.predict_key", MetaValue::Text("v_prediction".to_string())),
    ];
    let m = as_map(safetensors_runtime_fields(&md, false).unwrap());
    assert_eq!(m.len(), 1);
    assert_eq!(m.get("predict_key").map(String::as_str), Some("v_prediction"));
    assert!(safetensors_runtime_fields(&vec![], false).is_none());
    let v = as_map(safetensors_runtime_fields(&vec![], true).unwrap());
    assert_eq!(v.get("header_v_pred").map(String::as_str), Some("true"));
}

#[test]
fn sidecar_text_is_trimmed_and_drops_blanks_and_placeholders() {
    assert_eq!(sidecar_text(Some("  SDXL 1.0 "), None), Some("SDXL 1.0".to_string()));
    assert_eq!(sidecar_text(Some("   "), None), None);
    assert_eq!(sidecar_text(None, None), None);
    assert_eq!(sidecar_text(Some(" Other "), Some("other")), None);
    assert_eq!(sidecar_text(Some("Others"), Some("other")), Some("Others".to_string()));
}

#[test]
fn lora_manager_base_model_falls_back_to_its_civitai_block() {
    assert_eq!(lora_manager_base_model(Some("Pony"), Some("SDXL 1.0")), Some("Pony".to_string()));
    assert_eq!(lora_manager_base_model(Some("UNKNOWN"), Some(" SDXL 1.0")), Some("SDXL 1.0".to_string()));
    assert_eq!(lora_manager_base_model(None, Some("unknown")), None);
    assert_eq!(lora_manager_base_model(Some(""), None), None);
}

#[test]
fn sidecar_metadata_sits_next_to_the_model() {
    let expected = std::path::Path::new("/models/loras").join("style.metadata.json");
    assert_eq!(
        sidecar_metadata_path("/models/loras/style.safetensors", ".metadata.json"),
        Some(expected.to_string_lossy().to_string())
    );
    assert_eq!(sidecar_metadata_path("", ".civitai.info"), None);
}

#[test]
fn sidecars_name_their_base_model() {
    assert_eq!(
        sidecar_base_model(SidecarKind::LoraManager, br#"{"base_model": " SDXL 1.0 "}"#),
        Ok(Some("SDXL 1.0".to_string()))
    );
    assert_eq!(
        sidecar_base_model(SidecarKind::LoraManager, br#"{"base_model": "Unknown", "civitai": {"baseModel": "Pony"}}"#),
        Ok(Some("Pony".to_string()))
    );
    assert_eq!(
        sidecar_base_model(SidecarKind::LoraManager, br#"{"base_model": 3, "civitai": {"baseModel": "unknown"}}"#),
        Ok(None)
    );
    assert_eq!(sidecar_base_model(SidecarKind::Forge, br#"{"baseModel": "Flux.1 D"}"#), Ok(Some("Flux.1 D".to_string())));
    assert_eq!(sidecar_base_model(SidecarKind::Forge, br#"{"baseModel": "   "}"#), Ok(None));
    assert_eq!(sidecar_base_model(SidecarKind::StabilityMatrix, br#"{"BaseModel": "Other"}"#), Ok(None));
    assert_eq!(
        sidecar_base_model(SidecarKind::StabilityMatrix, br#"{"BaseModel": "SD 1.5"}"#),
        Ok(Some("SD 1.5".to_string()))
    );
    assert_eq!(sidecar_base_model(SidecarKind::Forge, b"[1, 2]"), Ok(None));
    assert!(sidecar_base_model(SidecarKind::Forge, b"{not json").is_err());
}
