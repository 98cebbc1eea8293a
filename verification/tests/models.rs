use mooshie_core::models::{family_from_lowered, family_from_lowered_base_model};
use mooshie_core::models::{
    family_requires_separate_clip, filename_indicates_anima, find_first_text_encoder_matching,
    find_first_vae_matching, is_sdxl_like_family, model_family_from_base_model,
    model_family_from_filename, recommended_clip_from_available, recommended_vae_from_available,
    text_has_marker_token, text_indicates_anima, turbo_model_variant_from_filename,
};

fn names(v: &[&str]) -> Vec<String> {
    v.iter().map(|s| s.to_string()).collect()
}

#[test]
fn marker_tokens_must_stand_as_words() {
    assert!(text_has_marker_token("my anima model", "anima"));
    assert!(text_has_marker_token("anima_v2", "anima"));
    assert!(!text_has_marker_token("animagine", "anima"));
    assert!(!text_has_marker_token("animationmix", "anima"));
    assert!(text_has_marker_token("xanima anima", "anima"));
    assert!(!text_has_marker_token("", "anima"));
}

#[test]
fn anima_fine_tunes_are_recognised_by_name() {
    assert!(text_indicates_anima("AnimaYume_v05.safetensors"));
    assert!(filename_indicates_anima("  anima-v1.safetensors "));
    assert!(text_indicates_anima("yume_xl"));
    assert!(!text_indicates_anima("Animagine XL"));
    assert!(!text_indicates_anima("nanosaur anima"));
    assert!(!text_indicates_anima("mugen anima"));
}

#[test]
fn base_models_map_to_families() {
    assert_eq!(model_family_from_base_model("  "), "unknown");
    assert_eq!(model_family_from_base_model("Flux.2 Klein 9B-base"), "flux2klein9bbase");
    assert_eq!(model_family_from_base_model("Flux.1 D"), "flux1d");
    assert_eq!(model_family_from_base_model("Qwen Image Edit Plus"), "qwen_edit_plus");
    assert_eq!(model_family_from_base_model("Qwen Image Edit"), "qwen_edit");
    assert_eq!(model_family_from_base_model("Qwen"), "qwen");
    assert_eq!(model_family_from_base_model("Wan Video 14B t2v"), "anima");
    assert_eq!(model_family_from_base_model("Illustrious"), "illustrious");
    assert_eq!(model_family_from_base_model("NoobAI"), "illustrious");
    assert_eq!(model_family_from_base_model("Pony"), "pony");
    assert_eq!(model_family_from_base_model("SD 3.5 Large"), "sd3");
    assert_eq!(model_family_from_base_model("Flux.1 Kontext"), "flux1kontext");
    assert_eq!(model_family_from_base_model("SDXL 1.0"), "sdxl");
    assert_eq!(model_family_from_base_model("SD 1.5"), "sd15");
    assert_eq!(model_family_from_base_model("Other"), "unknown");
}

#[test]
fn file_names_suggest_families() {
    assert_eq!(model_family_from_filename(""), None);
    assert_eq!(model_family_from_filename("flux1-kontext-dev.safetensors"), Some("flux1kontext"));
    assert_eq!(model_family_from_filename("flux2-klein-9b-base.safetensors"), Some("flux2klein9bbase"));
    assert_eq!(model_family_from_filename("flux1-schnell.safetensors"), Some("flux1s"));
    assert_eq!(model_family_from_filename("z_image_zit.safetensors"), Some("zit"));
    assert_eq!(model_family_from_filename("zib_v1.safetensors"), Some("zib"));
    assert_eq!(model_family_from_filename("qwen_image_edit_2509.safetensors"), Some("qwen_edit_plus"));
    assert_eq!(model_family_from_filename("wan2.1_t2v.safetensors"), Some("wan"));
    assert_eq!(model_family_from_filename("animayume_v05.safetensors"), Some("anima"));
    assert_eq!(model_family_from_filename("ponyDiffusionV6XL.safetensors"), Some("pony"));
    assert_eq!(model_family_from_filename("sd_xl_base_1.0.safetensors"), None);
    assert_eq!(model_family_from_filename("juggernautXL_sdxl.safetensors"), Some("sdxl"));
    assert_eq!(model_family_from_filename("v1-5-pruned.ckpt"), None);
    assert_eq!(model_family_from_filename("model_sd15.ckpt"), Some("sd15"));
}

#[test]
fn turbo_variants_follow_the_file_name() {
    assert_eq!(turbo_model_variant_from_filename(""), "none");
    assert_eq!(turbo_model_variant_from_filename("zit_v1"), "turbo");
    assert_eq!(turbo_model_variant_from_filename("x_dmd2"), "dmd2");
    assert_eq!(turbo_model_variant_from_filename("x_dmd"), "dmd");
    assert_eq!(turbo_model_variant_from_filename("sdxl_turbo"), "turbo");
    assert_eq!(turbo_model_variant_from_filename("Lightning-4step"), "lightning");
    assert_eq!(turbo_model_variant_from_filename("lcm-lora"), "lcm");
    assert_eq!(turbo_model_variant_from_filename("Hyper-SD"), "hyper");
    assert_eq!(turbo_model_variant_from_filename("plain"), "none");
}

#[test]
fn family_tables() {
    assert!(is_sdxl_like_family("pony"));
    assert!(!is_sdxl_like_family("flux"));
    assert!(family_requires_separate_clip("krea2"));
    assert!(family_requires_separate_clip("flux1kontext"));
    assert!(!family_requires_separate_clip("sdxl"));
    assert!(!family_requires_separate_clip("zit"));
}

#[test]
fn companion_files_are_found_by_marker() {
    let vaes = names(&["ae.safetensors", "Qwen_Image_VAE.safetensors", "flux2-vae.safetensors"]);
    assert_eq!(find_first_vae_matching(&vaes, &["qwen"]), Some("Qwen_Image_VAE.safetensors".to_string()));
    assert_eq!(find_first_vae_matching(&vaes, &["nope"]), None);
    let encs = names(&["t5_xxl.gguf", "T5_XXL_fp8.safetensors"]);
    assert_eq!(find_first_text_encoder_matching(&encs, &["t5_xxl"]), Some("T5_XXL_fp8.safetensors".to_string()));
}

#[test]
fn recommended_vae_prefers_the_family_vae() {
    let vaes = names(&["sdxl_vae.safetensors", "Qwen_Image_VAE.safetensors", "flux2-vae.safetensors", "ae_flux.safetensors"]);
    assert_eq!(recommended_vae_from_available("checkpoints", "qwen", &vaes), None);
    assert_eq!(recommended_vae_from_available("diffusion_models", "qwen", &[]), None);
    assert_eq!(recommended_vae_from_available("diffusion_models", "wan", &vaes), Some("Qwen_Image_VAE.safetensors".to_string()));
    assert_eq!(recommended_vae_from_available("diffusion_models", "ideogram4", &vaes), Some("flux2-vae.safetensors".to_string()));
    assert_eq!(recommended_vae_from_available("diffusion_models", "zit", &vaes), Some("flux2-vae.safetensors".to_string()));
    assert_eq!(recommended_vae_from_available("diffusion_models", "sd3", &vaes), Some("sdxl_vae.safetensors".to_string()));
    let only = names(&["other.safetensors"]);
    assert_eq!(recommended_vae_from_available("diffusion_models", "flux", &only), Some("other.safetensors".to_string()));
}

#[test]
fn strict_families_never_get_a_substitute_encoder() {
    let encs = names(&["t5xxl_fp16.safetensors", "clip_l.safetensors"]);
    assert_eq!(recommended_clip_from_available("diffusion_models", "anima", &encs), Some((None, "wan")));
    assert_eq!(recommended_clip_from_available("diffusion_models", "ideogram4", &encs), Some((None, "ideogram4")));
    assert_eq!(recommended_clip_from_available("diffusion_models", "krea2", &encs), Some((None, "krea2")));
    let good = names(&["qwen_3_06b_base.safetensors"]);
    assert_eq!(
        recommended_clip_from_available("diffusion_models", "anima", &good),
        Some((Some("qwen_3_06b_base.safetensors".to_string()), "wan"))
    );
}

#[test]
fn lenient_families_fall_back_to_the_first_encoder() {
    let encs = names(&["clip_l.safetensors", "t5xxl_fp16.safetensors", "flan_t5_xxl.safetensors"]);
    assert_eq!(
        recommended_clip_from_available("diffusion_models", "flux1d", &encs),
        Some((Some("flan_t5_xxl.safetensors".to_string()), "chroma"))
    );
    assert_eq!(
        recommended_clip_from_available("diffusion_models", "qwen", &encs),
        Some((Some("clip_l.safetensors".to_string()), "qwen_image"))
    );
    assert_eq!(
        recommended_clip_from_available("diffusion_models", "zit", &encs),
        Some((Some("clip_l.safetensors".to_string()), "lumina2"))
    );
    assert_eq!(
        recommended_clip_from_available("diffusion_models", "sdxl", &encs),
        Some((Some("clip_l.safetensors".to_string()), "wan"))
    );
    assert_eq!(recommended_clip_from_available("loras", "sdxl", &encs), None);
    assert_eq!(recommended_clip_from_available("diffusion_models", "sdxl", &[]), None);
}

#[test]
fn lowered_names_use_the_same_family_tables() {
    assert_eq!(family_from_lowered("my_sdxl_model.safetensors"), model_family_from_filename("  My_SDXL_Model.safetensors "));
    assert_eq!(family_from_lowered("nanosaur-v1"), Some("nanosaur"));
    assert_eq!(family_from_lowered(""), None);
    assert_eq!(family_from_lowered_base_model("sdxl 1.0"), model_family_from_base_model(" SDXL 1.0 "));
    assert_eq!(family_from_lowered_base_model(""), "unknown");
}

#[test]
fn an_empty_marker_stands_wherever_no_word_touches() {
    assert!(text_has_marker_token("", ""));
    assert!(!text_has_marker_token("a", ""));
    assert!(!text_has_marker_token("a b", ""));
    assert!(text_has_marker_token("a  b", ""));
    assert!(text_has_marker_token("x-", ""));
}
