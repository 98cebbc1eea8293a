use mooshie_core::attention::{attention_install_plan, parse_attention_backend, unsupported_message, uninstall_attention_args, AttentionBackend};
use mooshie_core::attention::stderr_tail;
use mooshie_core::attention::{
    parse_cp_tag, parse_torch_probe, parse_version2, parse_version3, parse_wheel_name,
    rank_wheel, resolve_wheel, select_wheel, wheel_name_slices_cleanly, ResolvedWheel,
    TorchBuild,
};

fn build() -> TorchBuild {
    TorchBuild { torch: (2, 9, 1), cuda: "cu128".to_string(), python: (3, 12) }
}

fn asset(name: &str) -> ResolvedWheel {
    ResolvedWheel { url: format!("https://example.invalid/{name}"), file_name: name.to_string() }
}

#[test]
fn versions_parse_like_pep440_release_segments() {
    assert_eq!(parse_version3("2.9.1"), Some((2, 9, 1)));
    assert_eq!(parse_version3("2.9"), Some((2, 9, 0)));
    assert_eq!(parse_version3("2"), None);
    assert_eq!(parse_version3("2.9.1.4"), None);
    assert_eq!(parse_version3("2.x.1"), None);
    assert_eq!(parse_version2("3.11"), Some((3, 11)));
    assert_eq!(parse_version2("3.11.2"), None);
    assert_eq!(parse_version2("311"), None);
}

#[test]
fn cp_tags_split_after_the_first_digit() {
    assert_eq!(parse_cp_tag("cp310"), Some((3, 10)));
    assert_eq!(parse_cp_tag("cp39"), Some((3, 9)));
    assert_eq!(parse_cp_tag("cp3"), None);
    assert_eq!(parse_cp_tag("py310"), None);
}

#[test]
fn wheel_names_yield_their_compatibility_metadata() {
    let w = parse_wheel_name("sageattention-2.2.0+cu128torch2.9.1.post6-cp310-abi3-win_amd64.whl")
        .expect("parses");
    assert_eq!(w.sage, (2, 2, 0));
    assert_eq!(w.cuda, "cu128");
    assert_eq!(w.torch, (2, 9, 1));
    assert!(!w.and_higher);
    assert_eq!(w.post, 6);
    assert_eq!(w.py_floor, (3, 10));

    let h = parse_wheel_name(
        "sageattention-2.2.0+cu128torch2.10.0andhigher.post6-cp310-abi3-win_amd64.whl",
    )
    .expect("parses");
    assert_eq!(h.torch, (2, 10, 0));
    assert!(h.and_higher);

    let plain = parse_wheel_name("sageattention-2.1.1+cu126torch2.6.0-cp39-abi3-win_amd64.whl")
        .expect("parses");
    assert_eq!(plain.post, 0);
    assert_eq!(plain.cuda, "cu126");

    assert!(parse_wheel_name("sageattention-1.0.6+cu128torch2.9.1-cp310-abi3-win_amd64.whl").is_none());
    assert!(parse_wheel_name("sageattention-2.2.0+cu128torch2.9.1-cp310-abi3-linux_x86_64.whl").is_none());
    assert!(parse_wheel_name("sageattention-2.2.0+cu128torch2.9.1-cp310-cp310-win_amd64.whl").is_none());
    assert!(parse_wheel_name("other-2.2.0+cu128torch2.9.1-cp310-abi3-win_amd64.whl").is_none());
}

#[test]
fn wheels_are_ranked_exact_then_minor_then_andhigher() {
    let b = build();
    let exact = parse_wheel_name("sageattention-2.2.0+cu128torch2.9.1.post6-cp310-abi3-win_amd64.whl").unwrap();
    let minor = parse_wheel_name("sageattention-2.2.0+cu128torch2.9.0.post6-cp310-abi3-win_amd64.whl").unwrap();
    let floor = parse_wheel_name("sageattention-2.2.0+cu128torch2.8.0andhigher.post6-cp310-abi3-win_amd64.whl").unwrap();
    let too_new = parse_wheel_name("sageattention-2.2.0+cu128torch2.10.0andhigher.post6-cp310-abi3-win_amd64.whl").unwrap();
    let other_cuda = parse_wheel_name("sageattention-2.2.0+cu126torch2.9.1.post6-cp310-abi3-win_amd64.whl").unwrap();
    let newer_python = parse_wheel_name("sageattention-2.2.0+cu128torch2.9.1.post6-cp313-abi3-win_amd64.whl").unwrap();
    assert_eq!(rank_wheel(&exact, &b), Some((2, (2, 2, 0), 6, (2, 9, 1))));
    assert_eq!(rank_wheel(&minor, &b), Some((1, (2, 2, 0), 6, (2, 9, 0))));
    assert_eq!(rank_wheel(&floor, &b), Some((0, (2, 2, 0), 6, (2, 8, 0))));
    assert_eq!(rank_wheel(&too_new, &b), None);
    assert_eq!(rank_wheel(&other_cuda, &b), None);
    assert_eq!(rank_wheel(&newer_python, &b), None);
}

#[test]
fn the_best_wheel_wins_and_ties_keep_the_first() {
    let b = build();
    let assets = vec![
        asset("sageattention-2.2.0+cu128torch2.8.0andhigher.post6-cp310-abi3-win_amd64.whl"),
        asset("notes.txt"),
        asset("sageattention-2.2.0+cu128torch2.9.1.post3-cp310-abi3-win_amd64.whl"),
        asset("sageattention-2.2.0+cu128torch2.9.1.post6-cp39-abi3-win_amd64.whl"),
        asset("sageattention-2.2.0+cu128torch2.9.1.post6-cp310-abi3-win_amd64.whl"),
    ];
    let w = select_wheel(&assets, &b).expect("a wheel fits");
    assert_eq!(w.file_name, "sageattention-2.2.0+cu128torch2.9.1.post6-cp39-abi3-win_amd64.whl");
    assert_eq!(w.url, format!("https://example.invalid/{}", w.file_name));
    assert!(select_wheel(&assets[..2], &b).is_some());
    assert!(select_wheel(&assets[1..2], &b).is_none());
}

#[test]
fn no_fitting_wheel_names_the_build() {
    let b = build();
    let err = match resolve_wheel(&[asset("readme.md")], &b) {
        Err(e) => e,
        Ok(_) => panic!("no wheel should fit"),
    };
    assert_eq!(
        err,
        "no prebuilt SageAttention v2 wheel matches this environment (torch 2.9.1+cu128, Python 3.12); see https://github.com/woct0rdho/SageAttention/releases for supported combinations"
    );
}

#[test]
fn describe_spells_the_build() {
    assert_eq!(build().describe(), "torch 2.9.1+cu128, Python 3.12");
}

#[test]
fn the_probe_output_is_read_line_by_line() {
    let b = parse_torch_probe("2.9.1+cu128\r\n3.12\r\n").expect("CUDA build");
    assert_eq!(b.torch, (2, 9, 1));
    assert_eq!(b.cuda, "cu128");
    assert_eq!(b.python, (3, 12));

    match parse_torch_probe("2.9.1\n3.12\n") {
        Err(e) => assert_eq!(
            e,
            "the venv's PyTorch (2.9.1) is not a CUDA build; SageAttention v2 requires CUDA PyTorch"
        ),
        Ok(_) => panic!("CPU build accepted"),
    }
    match parse_torch_probe("2.x+cu128\n3.12\n") {
        Err(e) => assert_eq!(e, "could not parse the venv's PyTorch version: 2.x+cu128"),
        Ok(_) => panic!("bad torch version accepted"),
    }
    match parse_torch_probe("2.9.1+cu128\n") {
        Err(e) => assert_eq!(e, "could not parse the venv's Python version: "),
        Ok(_) => panic!("missing python version accepted"),
    }
}

#[test]
fn only_non_ascii_python_tags_would_be_sliced_badly() {
    assert!(wheel_name_slices_cleanly("sageattention-2.2.0+cu128torch2.9.1-cp310-abi3-win_amd64.whl"));
    assert!(!wheel_name_slices_cleanly("sageattention-2.2.0+cu128torch2.9.1-cpé0-abi3-win_amd64.whl"));
    assert!(wheel_name_slices_cleanly("readme.md"));
}

#[test]
fn stderr_tail_keeps_the_last_twenty_lines_trimmed() {
    let long: String = (1..=30).map(|i| format!("err{}\n", i)).collect();
    let tail = stderr_tail(&long);
    assert!(tail.starts_with("err11\n"));
    assert!(tail.ends_with("err30"));
    assert_eq!(stderr_tail("  only line  \n"), "only line");
    assert_eq!(stderr_tail(""), "");
}

#[test]
fn attention_backends_are_parsed_and_planned() {
    assert_eq!(parse_attention_backend("sage_v2"), Ok(AttentionBackend::SageV2));
    assert_eq!(
        parse_attention_backend("xformers"),
        Err("Invalid attention backend: 'xformers'. Valid: [\"default\", \"sage_v1\", \"sage_v2\", \"flash_v1\", \"flash_v2\"]".to_string())
    );
    assert!(attention_install_plan(AttentionBackend::Default, true, None).is_none());
    let p = attention_install_plan(AttentionBackend::SageV1, true, None).unwrap();
    assert_eq!(p.packages, vec!["sageattention==1.0.6".to_string(), "triton-windows".to_string()]);
    assert_eq!(p.import_name, "sageattention");
    assert_eq!(p.rollback, vec!["sageattention"]);
    let p = attention_install_plan(AttentionBackend::SageV2, false, None).unwrap();
    assert_eq!(p.packages, vec!["git+https://github.com/thu-ml/SageAttention.git@v2.2.0".to_string()]);
    assert_eq!(p.extra_flags, vec!["--no-build-isolation".to_string()]);
    assert!(p.message.contains("\u{2014}"));
    let p = attention_install_plan(AttentionBackend::SageV2, true, Some("https://x/w.whl".to_string())).unwrap();
    assert_eq!(p.packages, vec!["https://x/w.whl".to_string(), "triton-windows".to_string()]);
    let p = attention_install_plan(AttentionBackend::FlashV1, false, None).unwrap();
    assert_eq!(p.packages, vec!["flash-attn<2.0".to_string()]);
    assert_eq!(p.import_name, "flash_attn");
    assert_eq!(p.rollback, vec!["flash-attn"]);
}

#[test]
fn unsupported_backends_say_why() {
    assert_eq!(
        unsupported_message("sage_v2", Some("compute_capability"), Some("8.0")),
        "Cannot install the sage_v2 attention backend: the GPU's compute capability is below the required 8.0 for this backend."
    );
    assert_eq!(
        unsupported_message("flash_v2", None, None),
        "Cannot install the flash_v2 attention backend: it is not supported on this system."
    );
    assert_eq!(
        uninstall_attention_args("/v/python"),
        vec!["pip", "uninstall", "--python", "/v/python", "sageattention", "flash-attn"]
    );
}
