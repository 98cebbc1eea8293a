use mooshie_core::diagnostic_log::{
    assistant_log_section, comfyui_log_section, config_section, diagnostic_log, gpu_section, header_section,
    python_section, ring_section, runtime_section, ConfigFacts, DiagnosticFacts, PythonProbe,
    WorkerFacts,
};

fn config() -> ConfigFacts {
    ConfigFacts {
        browser_mode: false,
        server_mode: "Local".to_string(),
        server_url: "http://127.0.0.1:8188".to_string(),
        server_port: 8188,
        vram_mode: "auto".to_string(),
        attention_backend: "sdpa".to_string(),
        keep_alive: true,
        auto_start: false,
        extra_args: "[\"--lowvram\"]".to_string(),
        comfyui_path: "/c".to_string(),
        comfyui_installed: None,
        comfyui_target: "v0.3.40".to_string(),
        comfyui_update_available: true,
        venv_path: "/v".to_string(),
        extra_model_paths: None,
        gallery_path: Some("/g".to_string()),
        app_data_dir: None,
        gpu_workers: Vec::new(),
        default_checkpoint: None,
        default_sampler: "euler".to_string(),
        default_scheduler: "normal".to_string(),
        default_steps: 20,
        default_cfg: "7".to_string(),
        default_width: 1024,
        default_height: 768,
        general_threshold: "0.35".to_string(),
        character_threshold: "0.85".to_string(),
        theme: "dark".to_string(),
        theme_palette: "blue".to_string(),
        font_scale: "1".to_string(),
        theme_profile_id: None,
        ui_server_port: 3000,
        lan_enabled: false,
        tls_cert_path: Some(String::new()),
        tls_key_path: None,
        network_proxy: Some("http://user:pw@proxy:8080".to_string()),
        pip_index_url: None,
        civitai_api_key: Some("SECRET-REDACTED".to_string()),
        webhook_url: None,
        webhook_events: "[]".to_string(),
        webhook_include_sensitive: false,
        webhook_allow_private_targets: false,
        output_filename_template: None,
        setup_complete: true,
        llm_external_enabled: false,
        llm_external_base_url: String::new(),
        llm_external_model: String::new(),
        llm_external_api_key: String::new(),
        prompt_assistant_model_id: None,
        prompt_assistant_idle_timeout_secs: 300,
        prompt_assistant_setup_done: false,
    }
}

#[test]
fn the_header_names_version_and_build() {
    assert_eq!(
        header_section(1700000000, "1.2.3", false, true),
        "=== MooshieUI Diagnostic Log ===\nExported: 1700000000 (unix timestamp)\nMooshieUI: 1.2.3\nBuild: release / server\n\n"
    );
}

#[test]
fn the_configuration_never_shows_secrets() {
    let text = config_section(&config());
    assert!(text.starts_with("=== App Configuration ===\nUI mode: App\nServer mode: Local\n"));
    assert!(text.contains("ComfyUI version: unknown (target v0.3.40, update available)\n"));
    assert!(text.contains("Extra model paths: (none)\nGallery path: /g\nApp data dir: (unknown)\n"));
    assert!(text.contains("GPU workers: single-worker (default)\n"));
    assert!(text.contains("Defaults: checkpoint=(none), sampler=euler, scheduler=normal, steps=20, cfg=7, 1024x768\n"));
    assert!(text.contains("tls_cert=no, tls_key=no\n"));
    assert!(text.contains("Network proxy: yes, pip index: no\n"));
    assert!(text.contains("CivitAI API key: yes\n"));
    assert!(!text.contains("SECRET-REDACTED"));
    assert!(!text.contains("user:pw"));
    assert!(text.ends_with(
        "Prompt assistant: local llama-server, model=(none), idle_timeout=300s, setup_done=false\n\n"
    ));
}

#[test]
fn gpu_workers_are_listed_one_per_line() {
    let mut c = config();
    c.gpu_workers = vec![
        WorkerFacts { gpu_index: 0, port: Some(8189), vram_mode: None },
        WorkerFacts { gpu_index: 1, port: None, vram_mode: Some("low".to_string()) },
    ];
    let text = config_section(&c);
    assert!(text.contains("GPU workers: 2\n  GPU 0 -> port 8189 (vram default)\n  GPU 1 -> port auto (vram low)\n"));
}

#[test]
fn an_external_assistant_shows_unset_fields() {
    let mut c = config();
    c.llm_external_enabled = true;
    c.llm_external_model = "gpt".to_string();
    let text = config_section(&c);
    assert!(text.ends_with("Prompt assistant: external endpoint, base_url=(unset), model=gpt, api_key=no\n\n"));
}

#[test]
fn runtime_and_gpu_sections() {
    assert_eq!(
        runtime_section(Some(42), true, false, &None),
        "=== Runtime Status ===\nManaged ComfyUI process: running (pid 42)\nWeb server running: true\nPrompt assistant loaded: false (active model: (none))\n\n"
    );
    assert!(runtime_section(None, false, false, &None)
        .contains("Managed ComfyUI process: not running (remote or stopped)\n"));
    assert_eq!(
        gpu_section(&None),
        "=== GPU Info ===\n(nvidia-smi not available or no NVIDIA GPU)\n\n"
    );
}

#[test]
fn the_python_section_reports_versions_or_where_it_looked() {
    assert_eq!(python_section("", false, &PythonProbe::Missing), "");
    assert_eq!(
        python_section("/v", false, &PythonProbe::Missing),
        format!("=== Python Environment ===\nPython not found at: {}\n\n", mooshie_core::python_env::resolve_venv_python_bin("/v", false))
    );
    assert_eq!(
        python_section(
            "/v",
            false,
            &PythonProbe::Found {
                version: Some(("Python 3.11.9\n".to_string(), String::new())),
                torch: Some("PyTorch: 2.4.0\n".to_string())
            }
        ),
        "=== Python Environment ===\nPython: Python 3.11.9\nPyTorch: 2.4.0\n\n"
    );
}

#[test]
fn the_comfyui_log_is_stamped_with_its_age() {
    assert_eq!(
        comfyui_log_section("/tmp/x.log", Some(7380), &Ok(String::new())),
        "=== ComfyUI Log ===\n(Source: /tmp/x.log)\n(Last written 2h 3m ago)\n(log file is empty)\n"
    );
    assert_eq!(
        comfyui_log_section("/tmp/x.log", None, &Err("denied".to_string())),
        "=== ComfyUI Log ===\n(Source: /tmp/x.log)\n(Could not read log: denied)\n"
    );
    assert!(assistant_log_section(&Some("  \n".to_string())).ends_with("(log file is empty)\n"));
    assert!(assistant_log_section(&None).ends_with("(no llama-server log yet)\n"));
}

#[test]
fn ring_buffers_carry_their_line_count() {
    assert_eq!(ring_section("Rust Log", &Vec::new()), "");
    assert_eq!(
        ring_section("Rust Log", &vec!["a".to_string(), "b".to_string()]),
        "\n=== Rust Log (last 2 lines) ===\na\nb\n"
    );
}

#[test]
fn the_log_puts_sections_in_order() {
    let f = DiagnosticFacts {
        exported_unix: 1,
        version: "1.0.0".to_string(),
        debug_build: true,
        server_build: false,
        system: "SYSTEM\n".to_string(),
        disks: "DISKS\n".to_string(),
        config: config(),
        models: "MODELS\n".to_string(),
        custom_nodes: "NODES\n".to_string(),
        env: "ENV\n".to_string(),
        comfyui_pid: None,
        web_server_running: false,
        assistant_loaded: false,
        assistant_model: None,
        nvidia_smi: Some("RTX\n".to_string()),
        windows: false,
        python: PythonProbe::Missing,
        comfyui_log_path: "/l".to_string(),
        comfyui_log_age_secs: None,
        comfyui_log: Ok("LOG\n".to_string()),
        assistant_log: None,
        rust_lines: vec!["r".to_string()],
        frontend_lines: Vec::new(),
    };
    let text = diagnostic_log(&f);
    let order = ["Build: debug / desktop", "SYSTEM", "DISKS", "=== App Configuration ===", "MODELS", "NODES", "ENV",
        "=== Runtime Status ===", "RTX", "=== Python Environment ===", "LOG", "llama-server) Log", "=== Rust Log (last 1 lines) ==="];
    let mut at = 0;
    for part in order {
        let found = text[at..].find(part).map(|i| i + at);
        assert!(found.is_some(), "missing {}", part);
        at = found.unwrap();
    }
    assert!(!text.contains("Frontend Console"));
}
