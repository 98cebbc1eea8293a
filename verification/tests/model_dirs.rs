use mooshie_core::model_dirs::{
    delete_model_target, find_known_model_dir, model_file_listing, model_file_path_in_dir,
    model_folder_listing, move_model_targets, new_model_folder_target, FoundModelFile,
    category_subdirs, classify_flat_model_dir, extra_model_root_lines, is_managed_model_file,
    is_safe_path_component, is_safe_relative_model_path, known_model_subdirs,
    model_install_dirs_for_config, model_path_candidates, push_model_install_dir,
    relative_model_filename, resolve_extra_model_root, ExtraModelRoot, ModelInstallDir,
};

fn pairs(dirs: &[ModelInstallDir]) -> Vec<(String, String)> {
    dirs.iter().map(|d| (d.path.clone(), d.label.clone())).collect()
}

fn pair(p: &str, l: &str) -> (String, String) {
    (p.to_string(), l.to_string())
}

#[test]
fn category_subdirs_lists_every_alias_of_a_category() {
    assert_eq!(category_subdirs("vae"), vec!["vae", "VAE", "models/VAE", "Models/VAE"]);
    assert_eq!(category_subdirs("loras").len(), 15);
    assert_eq!(category_subdirs("checkpoints")[1], "Stable-diffusion");
    assert!(category_subdirs("nonsense").is_empty());
    assert!(category_subdirs("VAE").is_empty());
}

#[test]
fn known_subdirs_cover_all_categories_in_order() {
    let all = known_model_subdirs();
    assert_eq!(all.len(), 64);
    assert_eq!(all[0], "checkpoints");
    assert_eq!(all[7], "loras");
    assert_eq!(all[all.len() - 1], "Models/model_patches");
    assert!(all.contains(&"Models/TextEncoders"));
}

#[test]
fn safe_path_component_accepts_only_one_plain_name() {
    assert!(is_safe_path_component("loras"));
    assert!(is_safe_path_component("my model"));
    assert!(!is_safe_path_component(""));
    assert!(!is_safe_path_component(" loras"));
    assert!(!is_safe_path_component("loras\n"));
    assert!(!is_safe_path_component("a/b"));
    assert!(!is_safe_path_component(".."));
    assert!(!is_safe_path_component("."));
    assert!(!is_safe_path_component("/loras"));
}

#[test]
fn safe_relative_model_path_refuses_traversal_and_absolute_paths() {
    assert!(is_safe_relative_model_path("model.safetensors"));
    assert!(is_safe_relative_model_path("sub/dir/model.safetensors"));
    assert!(!is_safe_relative_model_path("../model.safetensors"));
    assert!(!is_safe_relative_model_path("sub/../../model.safetensors"));
    assert!(!is_safe_relative_model_path("/etc/passwd"));
    assert!(!is_safe_relative_model_path(""));
    assert!(!is_safe_relative_model_path(" model.safetensors"));
}

#[test]
fn managed_model_files_are_known_by_extension_in_any_case() {
    assert!(is_managed_model_file("/m/x.safetensors"));
    assert!(is_managed_model_file("/m/x.SafeTensors"));
    assert!(is_managed_model_file("x.GGUF"));
    assert!(is_managed_model_file("x.sft"));
    assert!(!is_managed_model_file("x.txt"));
    assert!(!is_managed_model_file("x.safetensors.part"));
    assert!(!is_managed_model_file("noext"));
}

#[test]
fn flat_folders_are_classified_by_name() {
    assert_eq!(classify_flat_model_dir("/data/MyLoRAs"), "loras");
    assert_eq!(classify_flat_model_dir("/data/LyCORIS"), "loras");
    assert_eq!(classify_flat_model_dir("/data/Checkpoints"), "checkpoints");
    assert_eq!(classify_flat_model_dir("/data/Stable-Diffusion"), "checkpoints");
    assert_eq!(classify_flat_model_dir("/data/sdxl_vae"), "vae");
    assert_eq!(classify_flat_model_dir("/data/RealESRGAN"), "upscale_models");
    assert_eq!(classify_flat_model_dir("/data/control_net"), "controlnet");
    assert_eq!(classify_flat_model_dir("/data/TextualInversion"), "embeddings");
    assert_eq!(classify_flat_model_dir("/data/face_restore"), "ultralytics");
    assert_eq!(classify_flat_model_dir("/data/CLIP"), "text_encoders");
    assert_eq!(classify_flat_model_dir("/data/unet"), "diffusion_models");
    assert_eq!(classify_flat_model_dir("/data/random"), "loras");
    assert_eq!(classify_flat_model_dir("/"), "loras");
}

#[test]
fn install_dirs_start_with_the_comfyui_category_folder() {
    let dirs = model_install_dirs_for_config("/opt/ComfyUI", &[], "loras").unwrap();
    assert_eq!(pairs(&dirs), vec![pair("/opt/ComfyUI/models/loras", "App (ComfyUI)")]);
    let none = model_install_dirs_for_config("", &[], "loras").unwrap();
    assert!(none.is_empty());
}

#[test]
fn install_dirs_refuse_unknown_or_unsafe_categories() {
    assert_eq!(
        model_install_dirs_for_config("/opt/ComfyUI", &[], "nonsense").unwrap_err(),
        "Invalid model category"
    );
    assert_eq!(
        model_install_dirs_for_config("/opt/ComfyUI", &[], "../loras").unwrap_err(),
        "Invalid model category"
    );
    assert!(model_install_dirs_for_config("/opt/ComfyUI", &[], " loras").is_err());
}

#[test]
fn install_dirs_from_structured_and_flat_roots() {
    let roots = vec![
        ExtraModelRoot {
            line: "/data/sd".to_string(),
            base: "/data/sd".to_string(),
            structured: true,
            present_subdirs: vec!["Lora".to_string(), "loras".to_string()],
        },
        ExtraModelRoot {
            line: "/data/MyLoras".to_string(),
            base: "/data/MyLoras".to_string(),
            structured: false,
            present_subdirs: vec![],
        },
        ExtraModelRoot {
            line: "/data/vaes".to_string(),
            base: "/data/vaes".to_string(),
            structured: false,
            present_subdirs: vec![],
        },
    ];
    let dirs = model_install_dirs_for_config("/opt/ComfyUI", &roots, "loras").unwrap();
    assert_eq!(
        pairs(&dirs),
        vec![
            pair("/opt/ComfyUI/models/loras", "App (ComfyUI)"),
            pair("/data/sd/loras", "sd / loras"),
            pair("/data/sd/Lora", "sd / Lora"),
            pair("/data/MyLoras", "MyLoras"),
        ]
    );
}

#[test]
fn install_dirs_drop_paths_that_differ_only_in_case() {
    let roots = vec![
        ExtraModelRoot {
            line: "/data/sd".to_string(),
            base: "/data/sd".to_string(),
            structured: true,
            present_subdirs: vec!["lora".to_string(), "Lora".to_string(), "LORA".to_string()],
        },
        ExtraModelRoot {
            line: "/opt/comfyui/models/LORAS".to_string(),
            base: "/opt/comfyui/models/LORAS".to_string(),
            structured: false,
            present_subdirs: vec![],
        },
    ];
    let dirs = model_install_dirs_for_config("/opt/ComfyUI", &roots, "loras").unwrap();
    assert_eq!(
        pairs(&dirs),
        vec![pair("/opt/ComfyUI/models/loras", "App (ComfyUI)"), pair("/data/sd/lora", "sd / lora")]
    );
}

#[test]
fn pushing_an_install_dir_twice_keeps_the_first() {
    let mut dirs = Vec::new();
    let mut seen = Vec::new();
    push_model_install_dir(&mut dirs, &mut seen, "/A/Loras".to_string(), "first".to_string());
    push_model_install_dir(&mut dirs, &mut seen, "/a/loras".to_string(), "second".to_string());
    push_model_install_dir(&mut dirs, &mut seen, "/b".to_string(), "third".to_string());
    assert_eq!(pairs(&dirs), vec![pair("/A/Loras", "first"), pair("/b", "third")]);
    assert_eq!(seen.len(), 2);
}

#[test]
fn extra_root_lines_are_trimmed_and_blank_lines_skipped() {
    assert_eq!(
        extra_model_root_lines("  /a \n\n/b\r\n   \n"),
        vec!["/a".to_string(), "/b".to_string()]
    );
    assert!(extra_model_root_lines("").is_empty());
}

#[test]
fn extra_root_prefers_itself_then_its_models_folder() {
    assert_eq!(resolve_extra_model_root("/x", true, true), "/x");
    assert_eq!(resolve_extra_model_root("/x", false, true), "/x/models");
    assert_eq!(resolve_extra_model_root("/x", false, false), "/x");
}

#[test]
fn model_search_tries_primary_then_each_root_subfolder_then_flat() {
    let bases = vec!["/e".to_string()];
    let c = model_path_candidates("/c", &bases, "vae", "v.safetensors").unwrap();
    assert_eq!(
        c,
        vec![
            "/c/models/vae/v.safetensors",
            "/e/vae/v.safetensors",
            "/e/VAE/v.safetensors",
            "/e/models/VAE/v.safetensors",
            "/e/Models/VAE/v.safetensors",
            "/e/v.safetensors",
        ]
    );
    assert_eq!(model_path_candidates("/c", &[], "loras", "a.safetensors").unwrap().len(), 1);
    assert!(model_path_candidates("/c", &bases, "vae", "../v.safetensors").is_none());
    assert!(model_path_candidates("/c", &bases, "a/b", "v.safetensors").is_none());
}

#[test]
fn relative_model_filename_is_the_path_below_the_root() {
    assert_eq!(relative_model_filename("/root/loras", "/root/loras/sub/a.safetensors"), "sub/a.safetensors");
    assert_eq!(relative_model_filename("/root/loras", "/root/loras/a.safetensors"), "a.safetensors");
    assert_eq!(relative_model_filename("/root/loras", "/other/a.bin"), "other/a.bin");
}

fn structured_root() -> Vec<ExtraModelRoot> {
    vec![ExtraModelRoot {
        line: "/data/sd".to_string(),
        base: "/data/sd".to_string(),
        structured: true,
        present_subdirs: vec!["Lora".to_string()],
    }]
}

#[test]
fn known_model_dirs_are_found_by_exact_path() {
    let roots = structured_root();
    let d = find_known_model_dir("/opt/ComfyUI", &roots, "loras", "/data/sd/Lora").unwrap();
    assert_eq!((d.path.as_str(), d.label.as_str()), ("/data/sd/Lora", "sd / Lora"));
    assert_eq!(
        find_known_model_dir("/opt/ComfyUI", &roots, "loras", "/data/sd/lora").unwrap_err(),
        "Unknown model directory"
    );
    assert_eq!(
        find_known_model_dir("/opt/ComfyUI", &roots, "bogus", "/data/sd/Lora").unwrap_err(),
        "Invalid model category"
    );
}

#[test]
fn model_file_paths_stay_inside_their_folder() {
    assert_eq!(model_file_path_in_dir("/m/loras", "sub/a.safetensors").unwrap(), "/m/loras/sub/a.safetensors");
    assert_eq!(model_file_path_in_dir("/m/loras", "../a.safetensors").unwrap_err(), "Invalid model filename");
}

#[test]
fn delete_targets_only_model_files_in_known_folders() {
    let roots = structured_root();
    assert_eq!(
        delete_model_target("/opt/ComfyUI", &roots, "loras", "x.safetensors", "/opt/ComfyUI/models/loras").unwrap(),
        "/opt/ComfyUI/models/loras/x.safetensors"
    );
    assert_eq!(
        delete_model_target("/opt/ComfyUI", &roots, "loras", "notes.txt", "/opt/ComfyUI/models/loras").unwrap_err(),
        "Unsupported model file type"
    );
    assert_eq!(
        delete_model_target("/opt/ComfyUI", &roots, "loras", "x.safetensors", "/elsewhere").unwrap_err(),
        "Unknown model directory"
    );
}

#[test]
fn move_targets_refuse_moving_a_file_onto_itself() {
    let roots = structured_root();
    assert_eq!(
        move_model_targets(
            "/opt/ComfyUI", &roots, "loras", "loras", "a.safetensors",
            "/opt/ComfyUI/models/loras", "/data/sd/Lora", "b/a.safetensors",
        )
        .unwrap(),
        ("/opt/ComfyUI/models/loras/a.safetensors".to_string(), "/data/sd/Lora/b/a.safetensors".to_string())
    );
    assert_eq!(
        move_model_targets(
            "/opt/ComfyUI", &roots, "loras", "loras", "a.safetensors",
            "/data/sd/Lora", "/data/sd/Lora", "a.safetensors",
        )
        .unwrap_err(),
        "Choose a different destination directory"
    );
    assert_eq!(
        move_model_targets(
            "/opt/ComfyUI", &roots, "loras", "vae", "a.safetensors",
            "/data/sd/Lora", "/nowhere", "a.safetensors",
        )
        .unwrap_err(),
        "Unknown model directory"
    );
    assert_eq!(
        move_model_targets(
            "/opt/ComfyUI", &roots, "loras", "loras", "a.txt",
            "/data/sd/Lora", "/opt/ComfyUI/models/loras", "a.txt",
        )
        .unwrap_err(),
        "Unsupported model file type"
    );
}

#[test]
fn new_folders_need_a_safe_relative_path() {
    let roots = structured_root();
    assert_eq!(
        new_model_folder_target("/opt/ComfyUI", &roots, "loras", "/data/sd/Lora", "styles/anime").unwrap(),
        "/data/sd/Lora/styles/anime"
    );
    assert_eq!(
        new_model_folder_target("/opt/ComfyUI", &roots, "loras", "/data/sd/Lora", "../up").unwrap_err(),
        "Invalid folder name"
    );
}

fn found(dir: &str, label: &str, path: &str, size: u64) -> FoundModelFile {
    FoundModelFile {
        directory: dir.to_string(),
        directory_label: label.to_string(),
        path: path.to_string(),
        size_bytes: size,
        modified_ms: 7,
    }
}

#[test]
fn model_files_are_listed_by_name_then_label() {
    let walk = vec![
        found("/b", "B", "/b/zeta.safetensors", 1),
        found("/a", "A", "/a/sub/Alpha.gguf", 2),
        found("/b", "B", "/b/alpha.GGUF", 3),
        found("/a", "A", "/a/readme.txt", 4),
    ];
    let listed = model_file_listing("loras", &walk);
    let names: Vec<(String, String)> =
        listed.iter().map(|f| (f.filename.clone(), f.directory_label.clone())).collect();
    assert_eq!(
        names,
        vec![
            ("alpha.GGUF".to_string(), "B".to_string()),
            ("sub/Alpha.gguf".to_string(), "A".to_string()),
            ("zeta.safetensors".to_string(), "B".to_string()),
        ]
    );
    assert_eq!(listed[0].category, "loras");
    assert_eq!(listed[0].size_bytes, 3);
    assert_eq!(listed[1].path, "/a/sub/Alpha.gguf");
}

#[test]
fn model_files_with_equal_names_are_ordered_by_label() {
    let walk = vec![found("/b", "B", "/b/x.pt", 1), found("/a", "A", "/a/X.pt", 2)];
    let listed = model_file_listing("vae", &walk);
    assert_eq!(listed[0].directory_label, "A");
    assert_eq!(listed[1].directory_label, "B");
}

#[test]
fn model_folders_are_listed_by_label_then_path() {
    let walk = vec![
        ("/b".to_string(), "B".to_string(), "/b/zz".to_string()),
        ("/a".to_string(), "A".to_string(), "/a/Styles".to_string()),
        ("/a".to_string(), "A".to_string(), "/a/Styles/anime".to_string()),
        ("/a".to_string(), "A".to_string(), "/a/art".to_string()),
    ];
    let listed = model_folder_listing("loras", &walk);
    let paths: Vec<String> = listed.iter().map(|f| format!("{}:{}", f.directory_label, f.path)).collect();
    assert_eq!(paths, vec!["A:art", "A:Styles", "A:Styles/anime", "B:zz"]);
}
