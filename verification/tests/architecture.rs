use mooshie_core::architecture::{
    architecture_class, dominant_tensor_key_prefix, family_from_architecture,
    gguf_arch_to_app_arch, infer_architecture_from_key_names, infer_model_kind_from_key_names,
};

fn many(prefix: &str, n: usize) -> Vec<String> {
    (0..n).map(|i| format!("{prefix}{i}.weight")).collect()
}

fn refs(v: &[String]) -> Vec<&str> {
    v.iter().map(String::as_str).collect()
}

#[test]
fn the_dominant_prefix_needs_more_than_five_names() {
    let five = many("model.diffusion_model.input_blocks.", 5);
    assert_eq!(dominant_tensor_key_prefix(&refs(&five)), "");
    let six = many("model.diffusion_model.input_blocks.", 6);
    assert_eq!(dominant_tensor_key_prefix(&refs(&six)), "model.diffusion_model.");
    let mut mixed = many("net.blocks.", 7);
    mixed.extend(many("model.model.x.", 6));
    assert_eq!(dominant_tensor_key_prefix(&refs(&mixed)), "net.");
}

#[test]
fn architectures_follow_tensor_markers() {
    let mut flux = many("double_blocks.", 3);
    flux.extend(many("single_blocks.", 3));
    assert_eq!(infer_architecture_from_key_names(&refs(&flux)).as_deref(), Some("flux"));
    let mut sdxl = many("model.diffusion_model.input_blocks.", 6);
    sdxl.push("model.diffusion_model.label_emb.0.weight".to_string());
    assert_eq!(
        infer_architecture_from_key_names(&refs(&sdxl)).as_deref(),
        Some("stable-diffusion-xl-v1-base")
    );
    let sd15 = many("model.diffusion_model.input_blocks.", 6);
    assert_eq!(infer_architecture_from_key_names(&refs(&sd15)).as_deref(), Some("stable-diffusion-v1-5"));
    let wan = vec!["head.modulation".to_string()];
    assert_eq!(infer_architecture_from_key_names(&refs(&wan)).as_deref(), Some("wan2.1"));
    let mut anima = many("net.blocks.0.mlp.layer1.", 6);
    anima.extend(many("net.llm_adapter.", 6));
    assert_eq!(infer_architecture_from_key_names(&refs(&anima)).as_deref(), Some("anima"));
    let lora = vec!["lora_unet_down.weight".to_string()];
    assert_eq!(infer_architecture_from_key_names(&refs(&lora)), None);
}

#[test]
fn model_kind_needs_a_real_tree() {
    let mut ckpt = many("model.diffusion_model.x.", 10);
    ckpt.extend(many("first_stage_model.y.", 6));
    assert_eq!(infer_model_kind_from_key_names(&refs(&ckpt)), Some("checkpoint"));
    let unet = many("double_blocks.", 6);
    assert_eq!(infer_model_kind_from_key_names(&refs(&unet)), Some("diffusion_model"));
    let few = many("double_blocks.", 5);
    assert_eq!(infer_model_kind_from_key_names(&refs(&few)), None);
}

#[test]
fn architectures_families_and_classes() {
    assert_eq!(family_from_architecture("wan2.1"), Some("wan"));
    assert_eq!(family_from_architecture("stable_cascade"), Some("cascade"));
    assert_eq!(family_from_architecture("cosmos_predict2"), None);
    assert_eq!(architecture_class("pony"), Some("sdxl"));
    assert_eq!(architecture_class("chroma"), Some("flux"));
    assert_eq!(architecture_class("krea2"), None);
    assert_eq!(gguf_arch_to_app_arch("SDXL"), Some("stable-diffusion-xl-v1-base"));
    assert_eq!(gguf_arch_to_app_arch("wan2.1"), Some("wan2.1"));
    assert_eq!(gguf_arch_to_app_arch("llama"), None);
}
