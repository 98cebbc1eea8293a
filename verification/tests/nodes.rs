use mooshie_core::nodes::{
    clone_command, h3_requirement, native_h3_node_failure, node_check_failure, node_probes,
    object_info_url, proxy_env, required_packages, requirements_command, requirements_stamp,
    requirements_up_to_date, H3Requirement, NodeCheck, PackGroup,
};
use mooshie_core::nodes::{command_output_excerpt, node_info_matches, server_error_payload, NodeInputs};
use mooshie_core::nodes::{custom_node_install_step, install_output_line, InstallEvent, InstallNext};
use mooshie_core::nodes::{
    format_missing_mooshie_nodes_error, is_h3_teacache_installed, is_h3_turbo_installed,
    is_missing_mooshie_nodes_error, is_rife_installed, parse_missing_nodes_from_error,
    required_h3_native_node_class, resolve_pip_bin, rife_ckpt_dir, rife_ckpt_has_checkpoint,
    server_error_kind, MISSING_CONTROLNET_NODES_MARKER, RIFE_CKPT_MIN_BYTES,
};
use mooshie_core::nodes::{
    rife_ckpt_url, rife_download_progress, rife_install_step, rife_short_download, RifeEvent, RifeNext,
    RIFE_MIRROR_COUNT,
};
use std::path::Path;

#[test]
fn parse_missing_mooshie_nodes_from_error() {
    let err = format_missing_mooshie_nodes_error(
        &["MooshieSaveImage".to_string(), "ApplyTiledDiffusion".to_string()],
        None,
    );
    let parsed = parse_missing_nodes_from_error(&err);
    assert_eq!(parsed.len(), 2);
    assert!(parsed.contains(&"MooshieSaveImage".to_string()));
}

#[test]
fn native_h3_node_class_matches_video_variant() {
    assert_eq!(required_h3_native_node_class("fl2va"), "MiniMaxH3ImageToVideo");
    assert_eq!(required_h3_native_node_class("ref2va"), "MiniMaxH3ReferenceToVideo");
    assert_eq!(required_h3_native_node_class("unknown"), "MiniMaxH3ReferenceToVideo");
}

#[test]
fn missing_nodes_error_reads_back_with_a_log_tail() {
    let names = vec!["A".to_string(), "B C".to_string(), "D".to_string()];
    let err = format_missing_mooshie_nodes_error(&names, Some("line one. line two, three".to_string()));
    assert!(err.starts_with("This ComfyUI server has not loaded required MooshieUI custom nodes: A, B C, D. If MooshieUI"));
    assert!(err.ends_with("\n\nComfyUI log (last lines):\nline one. line two, three"));
    assert!(is_missing_mooshie_nodes_error(&err));
    assert_eq!(parse_missing_nodes_from_error(&err), names);
    assert!(parse_missing_nodes_from_error(&format_missing_mooshie_nodes_error(&[], None)).is_empty());
}

#[test]
fn messages_without_the_marker_list_nothing() {
    assert!(!is_missing_mooshie_nodes_error("ComfyUI process exited with exit code: 1"));
    assert!(parse_missing_nodes_from_error("ComfyUI process exited with exit code: 1").is_empty());
    assert!(parse_missing_nodes_from_error("has not loaded required MooshieUI custom nodes").is_empty());
    assert_eq!(
        parse_missing_nodes_from_error("x has not loaded required MooshieUI custom nodes:  , P ,,Q"),
        vec!["P".to_string(), "Q".to_string()]
    );
}

#[test]
fn server_errors_are_classified_for_the_frontend() {
    let err = format_missing_mooshie_nodes_error(&["MooshieSaveImage".to_string()], None);
    assert_eq!(server_error_kind(&err), "missing_mooshie_nodes");
    let cn = format!(
        "{}: CannyEdgePreprocessor. Check the ComfyUI log for custom-node import errors.",
        MISSING_CONTROLNET_NODES_MARKER
    );
    assert_eq!(server_error_kind(&cn), "missing_controlnet_nodes");
    assert_eq!(
        server_error_kind("Required style transfer custom nodes failed to load: X."),
        "missing_style_transfer_nodes"
    );
    assert_eq!(server_error_kind("ComfyUI process exited with exit code: 1"), "crashed");
    assert_eq!(server_error_kind("port in use"), "generic");
}

#[test]
fn install_checks_need_every_piece_on_disk() {
    let good = Some((true, RIFE_CKPT_MIN_BYTES));
    assert!(rife_ckpt_has_checkpoint(good));
    assert!(!rife_ckpt_has_checkpoint(Some((true, RIFE_CKPT_MIN_BYTES - 1))));
    assert!(!rife_ckpt_has_checkpoint(Some((false, RIFE_CKPT_MIN_BYTES))));
    assert!(!rife_ckpt_has_checkpoint(None));
    assert!(is_rife_installed("/opt/ComfyUI", true, true, good));
    assert!(!is_rife_installed("   ", true, true, good));
    assert!(!is_rife_installed("/opt/ComfyUI", true, false, good));
    assert!(!is_rife_installed("/opt/ComfyUI", false, true, good));
    assert!(is_h3_turbo_installed("/opt/ComfyUI", true));
    assert!(!is_h3_turbo_installed("", true));
    assert!(!is_h3_teacache_installed("/opt/ComfyUI", false));
    assert!(is_h3_teacache_installed("/opt/ComfyUI", true));
}

#[test]
fn pack_paths_follow_the_platform_join() {
    let expected = Path::new("/opt/ComfyUI")
        .join("custom_nodes")
        .join("ComfyUI-Frame-Interpolation")
        .join("ckpts")
        .join("rife");
    assert_eq!(rife_ckpt_dir("/opt/ComfyUI"), expected.to_string_lossy());
    assert_eq!(
        resolve_pip_bin("/venv", false),
        Path::new("/venv").join("bin").join("pip").to_string_lossy()
    );
    assert_eq!(
        resolve_pip_bin("/venv", true),
        Path::new("/venv").join("Scripts").join("pip.exe").to_string_lossy()
    );
}

#[test]
fn command_excerpt_prefers_stderr_and_keeps_the_last_twenty_lines() {
    let long: String = (1..=25).map(|i| format!("line{}\n", i)).collect();
    let ex = command_output_excerpt(&long, "ignored", "exit status: 1");
    assert!(ex.starts_with("line6\nline7"));
    assert!(ex.ends_with("line25"));
    assert_eq!(ex.lines().count(), 20);
    assert_eq!(command_output_excerpt("  \n", "out a\r\nout b", "exit status: 2"), "out a\nout b");
    assert_eq!(command_output_excerpt("", "   ", "exit status: 3"), "process exited with exit status: 3");
}

#[test]
fn pack_tables_name_their_repositories_and_node_classes() {
    let rife = required_packages(PackGroup::Rife);
    assert_eq!(rife.len(), 1);
    assert_eq!(rife[0].name, "ComfyUI-Frame-Interpolation");
    assert_eq!(rife[0].verify_nodes, vec!["RIFE VFI"]);
    assert_eq!(rife[0].requirements_file, "requirements-no-cupy.txt");
    assert_eq!(required_packages(PackGroup::StyleTransfer).len(), 2);
    assert_eq!(required_packages(PackGroup::ControlNet)[0].verify_nodes.len(), 7);
    assert_eq!(
        node_probes(NodeCheck::StyleTransfer)[2],
        ("ImageScaleToTotalPixelsX", "ImageScaleToTotalPixelsX (ComfyUi-Scale-Image-to-Total-Pixels-Advanced)")
    );
    assert_eq!(node_probes(NodeCheck::Mooshie).len(), 12);
    assert_eq!(node_probes(NodeCheck::H3Director)[1], ("MooshieH3RetakeStitch", "MooshieH3RetakeStitch"));
}

#[test]
fn node_check_failures_name_the_missing_classes() {
    let missing = vec!["UnetLoaderGGUF (ComfyUI-GGUF)".to_string(), "CLIPLoaderGGUF (ComfyUI-GGUF)".to_string()];
    assert_eq!(
        node_check_failure(NodeCheck::Gguf, &missing, None),
        "Required GGUF custom nodes failed to load: UnetLoaderGGUF (ComfyUI-GGUF), CLIPLoaderGGUF (ComfyUI-GGUF). Check the ComfyUI log for custom-node import errors."
    );
    let m = node_check_failure(NodeCheck::Mooshie, &["MooshieSaveImage".to_string()], None);
    assert_eq!(parse_missing_nodes_from_error(&m), vec!["MooshieSaveImage".to_string()]);
    assert!(node_check_failure(NodeCheck::H3Director, &["MooshieH3Director".to_string()], None)
        .ends_with("They require ComfyUI 0.30 or newer."));
    assert!(native_h3_node_failure("MiniMaxH3ImageToVideo")
        .starts_with("Required MiniMax H3 video node failed to load: MiniMaxH3ImageToVideo. This node ships"));
}

#[test]
fn h3_requirement_follows_mode_and_timeline() {
    assert_eq!(h3_requirement("txt2img", Some("x"), "fl2va"), H3Requirement::Nothing);
    assert_eq!(h3_requirement("video", Some(" [1] "), "fl2va"), H3Requirement::Director);
    assert_eq!(h3_requirement("video", Some("  "), "fl2va"), H3Requirement::Native("MiniMaxH3ImageToVideo"));
    assert_eq!(h3_requirement("video", None, "ref2va"), H3Requirement::Native("MiniMaxH3ReferenceToVideo"));
}

#[test]
fn object_info_urls_drop_trailing_slashes() {
    assert_eq!(object_info_url("http://127.0.0.1:8188//", "RIFE VFI"), "http://127.0.0.1:8188/object_info/RIFE VFI");
    assert_eq!(object_info_url("http://h", "X"), "http://h/object_info/X");
}

#[test]
fn install_commands_carry_proxy_and_mirror() {
    let c = clone_command("https://g/x.git", "/c/custom_nodes/x", Some(" http://p:1 "));
    assert_eq!(c.program, "git");
    assert_eq!(c.args, vec!["clone", "--depth=1", "https://g/x.git", "/c/custom_nodes/x"]);
    assert_eq!(c.env.len(), 3);
    assert_eq!(c.env[2], ("ALL_PROXY".to_string(), "http://p:1".to_string()));
    assert!(proxy_env(Some("   ")).is_empty());

    let uv = requirements_command(Some("/opt/uv"), "/v", false, "/x/req.txt", "x", None, Some("https://mirror/simple")).unwrap();
    assert_eq!(uv.program, "/opt/uv");
    assert_eq!(uv.args, vec!["pip", "install", "-r", "/x/req.txt", "--index-url", "https://mirror/simple"]);
    assert_eq!(uv.env, vec![("VIRTUAL_ENV".to_string(), "/v".to_string())]);

    let pip = requirements_command(None, "/v", false, "/x/req.txt", "x", Some("http://p"), Some("https://m"))
        .unwrap();
    assert_eq!(pip.program, "/v/bin/pip");
    assert_eq!(pip.args, vec!["install", "-r", "/x/req.txt", "-i", "https://m"]);
    assert_eq!(pip.env.len(), 3);
    assert_eq!(
        requirements_command(None, "  ", false, "/x/req.txt", "pack", None, None).err(),
        Some("Cannot install requirements for pack: ComfyUI venv_path is empty".to_string())
    );
}

#[test]
fn requirements_stamp_is_the_lowercase_sha256() {
    let stamp = requirements_stamp(b"");
    assert_eq!(stamp, "e3b0c44298fc1c149afbf4c8996fb92427ae41e4649b934ca495991b7852b855");
    assert!(requirements_up_to_date(Some(" e3b0c44298fc1c149afbf4c8996fb92427ae41e4649b934ca495991b7852b855\n"), &stamp));
    assert!(!requirements_up_to_date(None, &stamp));
    assert!(!requirements_up_to_date(Some("deadbeef"), &stamp));
}

#[test]
fn server_error_payload_mooshie_kind() {
    let err = format_missing_mooshie_nodes_error(&["MooshieSaveImage".to_string()], None);
    let payload = server_error_payload(&err, 8188, None);
    assert_eq!(payload.kind, "missing_mooshie_nodes");
    assert_eq!(payload.port, 8188);
    assert!(payload.missing_nodes.len() == 1);
}

#[test]
fn server_error_payload_controlnet_kind() {
    let err = format!(
        "{}: CannyEdgePreprocessor. Check the ComfyUI log for custom-node import errors.",
        MISSING_CONTROLNET_NODES_MARKER
    );
    let payload = server_error_payload(&err, 8188, None);
    assert_eq!(payload.kind, "missing_controlnet_nodes");
}

#[test]
fn server_error_payload_crashed_kind() {
    let err = "ComfyUI process exited with exit code: 1";
    let payload = server_error_payload(err, 8188, Some("last line".to_string()));
    assert_eq!(payload.kind, "crashed");
    assert_eq!(payload.error, err);
    assert_eq!(payload.log_excerpt.as_deref(), Some("last line"));
    assert!(payload.missing_nodes.is_empty());
}

#[test]
fn node_info_matches_needs_the_class_and_every_asked_input() {
    let node = NodeInputs {
        required: vec!["image".to_string(), "model".to_string()],
        optional: vec!["metadata_json".to_string()],
    };
    assert!(!node_info_matches(None, None));
    assert!(node_info_matches(Some(&node), None));
    assert!(node_info_matches(Some(&node), Some(&["image".to_string(), "metadata_json".to_string()])));
    assert!(!node_info_matches(Some(&node), Some(&["image".to_string(), "fps".to_string()])));
    assert!(node_info_matches(Some(&node), Some(&[])));
}

#[test]
fn custom_node_install_walks_its_steps() {
    let (p, n) = custom_node_install_step("Foo", InstallEvent::Begin { target_exists: true });
    assert_eq!(n, InstallNext::Done { announce: false });
    assert_eq!((p[0].step, p[0].message.as_str(), p[0].done), ("done", "Already installed", true));
    let (p, n) = custom_node_install_step("Foo", InstallEvent::Begin { target_exists: false });
    assert_eq!(n, InstallNext::Clone);
    assert_eq!(p[0].message, "Cloning Foo...");
    let (p, n) = custom_node_install_step("Foo", InstallEvent::Cloned { success: false });
    assert_eq!(n, InstallNext::Fail);
    assert_eq!(p[0].message, "git clone failed");
    let (p, n) = custom_node_install_step("Foo", InstallEvent::Cloned { success: true });
    assert!(p.is_empty());
    assert_eq!(n, InstallNext::CheckRequirements);
    let (_, n) = custom_node_install_step("Foo", InstallEvent::RequirementsChecked { exists: true });
    assert_eq!(n, InstallNext::RunPip);
    let (p, n) = custom_node_install_step("Foo", InstallEvent::PipFinished { success: false });
    assert_eq!(n, InstallNext::Done { announce: true });
    assert_eq!(p.len(), 2);
    assert_eq!(p[0].step, "error");
    assert_eq!(p[1].message, "Foo installed successfully");
    assert_eq!(install_output_line("  Receiving objects: 10% \r"), Some("Receiving objects: 10%".to_string()));
    assert_eq!(install_output_line("   "), None);
}

#[test]
fn rife_install_with_a_blank_path_fails_at_once() {
    let mut failures = Vec::new();
    let (reports, next) = rife_install_step("  ", &mut failures, RifeEvent::Begin);
    assert_eq!(next, RifeNext::Fail);
    assert_eq!(reports.len(), 1);
    assert_eq!(reports[0].step, "error");
    assert_eq!(reports[0].message, "ComfyUI path is not configured");
    assert!(reports[0].done);
}

#[test]
fn rife_install_with_a_checkpoint_on_disk_is_ready() {
    let mut failures = Vec::new();
    let (reports, next) = rife_install_step("/c", &mut failures, RifeEvent::Begin);
    assert_eq!(next, RifeNext::EnsureNodes);
    assert_eq!(reports[0].step, "clone");
    assert_eq!(reports[0].message, "Installing frame interpolation nodes...");
    let (reports, next) = rife_install_step("/c", &mut failures, RifeEvent::NodesEnsured { error: None });
    assert!(reports.is_empty());
    assert_eq!(next, RifeNext::CheckCheckpoint);
    let (reports, next) = rife_install_step("/c", &mut failures, RifeEvent::CheckpointChecked { present: true });
    assert_eq!(next, RifeNext::Done);
    assert_eq!(reports[0].message, "RIFE frame interpolation is ready");
}

#[test]
fn rife_download_falls_back_through_every_mirror() {
    let mut failures = Vec::new();
    let (reports, next) = rife_install_step("/c", &mut failures, RifeEvent::DirPrepared { error: None });
    assert_eq!(next, RifeNext::Download { mirror: 0 });
    assert_eq!(reports[0].message, "Downloading rife49.pth...");
    for mirror in 0..RIFE_MIRROR_COUNT {
        let (reports, next) = rife_install_step(
            "/c",
            &mut failures,
            RifeEvent::MirrorFinished { mirror, error: Some("HTTP 404".to_string()) },
        );
        if mirror + 1 < RIFE_MIRROR_COUNT {
            assert_eq!(next, RifeNext::Download { mirror: mirror + 1 });
            assert_eq!(
                reports[0].message,
                format!("Retrying rife49.pth from mirror {} of 5...", mirror + 2)
            );
        } else {
            assert_eq!(next, RifeNext::Fail);
            let expected: Vec<String> =
                (0..RIFE_MIRROR_COUNT).map(|i| format!("{}: HTTP 404", rife_ckpt_url(i))).collect();
            assert_eq!(
                reports[0].message,
                format!("Failed to download rife49.pth from any of 5 mirrors.\n{}", expected.join("\n"))
            );
        }
    }
    assert_eq!(failures.len(), 5);
}

#[test]
fn rife_checkpoint_directory_error_names_the_directory() {
    let mut failures = Vec::new();
    let (reports, next) =
        rife_install_step("/c", &mut failures, RifeEvent::DirPrepared { error: Some("denied".to_string()) });
    assert_eq!(next, RifeNext::Fail);
    let dir = rife_ckpt_dir("/c");
    assert_eq!(
        reports[0].message,
        format!("Failed to create RIFE checkpoint directory at '{}': denied", dir)
    );
}

#[test]
fn rife_download_progress_reports_percent_or_megabytes() {
    assert_eq!(rife_download_progress(1048576, 0, 4194304), None);
    assert_eq!(
        rife_download_progress(2097152, 0, 4194304),
        Some("Downloading rife49.pth (50%)".to_string())
    );
    assert_eq!(
        rife_download_progress(3145728, 0, 0),
        Some("Downloading rife49.pth (3 MB)".to_string())
    );
}

#[test]
fn a_short_rife_download_is_refused() {
    assert_eq!(
        rife_short_download(1000),
        Some("served only 1000 bytes, expected at least 16 MB".to_string())
    );
    assert_eq!(rife_short_download(RIFE_CKPT_MIN_BYTES), None);
}
