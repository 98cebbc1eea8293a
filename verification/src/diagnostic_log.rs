//! The diagnostic log users attach to bug reports: its header, the
//! configuration summary (secrets shown only as present or not), the
//! runtime, GPU and Python sections, the logs, and the order they come in.
use vstd::prelude::*;
use crate::paths::joined_path;
use crate::text::{chars_of, decimal, decimal_of, push_all, push_str, string_of};

verus! {

// ---------------------------------------------------------------------------
// Pieces of a line
// ---------------------------------------------------------------------------

pub open spec fn opt_text(o: Option<String>) -> Option<Seq<char>> {
    match o {
        Some(s) => Some(s@),
        None => None,
    }
}

/// A value, or the placeholder shown when there is none.
pub open spec fn or_text(o: Option<Seq<char>>, placeholder: Seq<char>) -> Seq<char> {
    match o {
        Some(v) => v,
        None => placeholder,
    }
}

/// Whether a secret-bearing setting is configured: `yes` when it holds
/// text, never the text itself.
pub open spec fn configured(o: Option<Seq<char>>) -> Seq<char> {
    if or_text(o, Seq::empty()).len() == 0 {
        "no"@
    } else {
        "yes"@
    }
}

pub open spec fn bool_text(b: bool) -> Seq<char> {
    if b {
        "true"@
    } else {
        "false"@
    }
}

fn push_text(t: &mut Vec<char>, s: &String)
    ensures
        final(t)@ == old(t)@ + s@,
{
    push_str(t, s.as_str());
}

fn push_or(t: &mut Vec<char>, o: &Option<String>, placeholder: &str)
    ensures
        final(t)@ == old(t)@ + or_text(opt_text(*o), placeholder@),
{
    match o {
        Some(v) => push_str(t, v.as_str()),
        None => push_str(t, placeholder),
    }
}

fn push_configured(t: &mut Vec<char>, o: &Option<String>)
    ensures
        final(t)@ == old(t)@ + configured(opt_text(*o)),
{
    proof {
        reveal_strlit("");
    }
    let empty = match o {
        Some(v) => v.as_str().unicode_len() == 0,
        None => true,
    };
    if empty {
        push_str(t, "no");
    } else {
        push_str(t, "yes");
    }
}

fn push_bool(t: &mut Vec<char>, b: bool)
    ensures
        final(t)@ == old(t)@ + bool_text(b),
{
    if b {
        push_str(t, "true");
    } else {
        push_str(t, "false");
    }
}

fn push_num(t: &mut Vec<char>, n: u64)
    ensures
        final(t)@ == old(t)@ + decimal(n as nat),
{
    push_all(t, &decimal_of(n));
}

// ---------------------------------------------------------------------------
// Header and runtime
// ---------------------------------------------------------------------------

/// The header: when the log was exported, the app's version and its build.
pub open spec fn header_spec(exported: nat, version: Seq<char>, debug_build: bool, server_build: bool) -> Seq<char> {
    "=== MooshieUI Diagnostic Log ===\nExported: "@ + decimal(exported) + " (unix timestamp)\nMooshieUI: "@
        + version + "\nBuild: "@ + (if debug_build { "debug"@ } else { "release"@ }) + " / "@
        + (if server_build { "server"@ } else { "desktop"@ }) + "\n\n"@
}

pub fn header_section(exported: u64, version: &str, debug_build: bool, server_build: bool) -> (r: String)
    ensures
        r@ == header_spec(exported as nat, version@, debug_build, server_build),
{
    let mut t = chars_of("=== MooshieUI Diagnostic Log ===\nExported: ");
    push_num(&mut t, exported);
    push_str(&mut t, " (unix timestamp)\nMooshieUI: ");
    push_str(&mut t, version);
    push_str(&mut t, "\nBuild: ");
    if debug_build {
        push_str(&mut t, "debug");
    } else {
        push_str(&mut t, "release");
    }
    push_str(&mut t, " / ");
    if server_build {
        push_str(&mut t, "server");
    } else {
        push_str(&mut t, "desktop");
    }
    push_str(&mut t, "\n\n");
    string_of(&t)
}

/// Whether the managed ComfyUI, the web server and the prompt assistant
/// are running.
pub open spec fn runtime_spec(
    comfyui_pid: Option<u32>,
    web_server_running: bool,
    assistant_loaded: bool,
    assistant_model: Option<Seq<char>>,
) -> Seq<char> {
    "=== Runtime Status ===\n"@ + (match comfyui_pid {
        Some(pid) => "Managed ComfyUI process: running (pid "@ + decimal(pid as nat) + ")\n"@,
        None => "Managed ComfyUI process: not running (remote or stopped)\n"@,
    }) + "Web server running: "@ + bool_text(web_server_running) + "\nPrompt assistant loaded: "@
        + bool_text(assistant_loaded) + " (active model: "@ + or_text(assistant_model, "(none)"@) + ")\n\n"@
}

pub fn runtime_section(
    comfyui_pid: Option<u32>,
    web_server_running: bool,
    assistant_loaded: bool,
    assistant_model: &Option<String>,
) -> (r: String)
    ensures
        r@ == runtime_spec(comfyui_pid, web_server_running, assistant_loaded, opt_text(*assistant_model)),
{
    let mut t = chars_of("=== Runtime Status ===\n");
    match comfyui_pid {
        Some(pid) => {
            push_str(&mut t, "Managed ComfyUI process: running (pid ");
            push_num(&mut t, pid as u64);
            push_str(&mut t, ")\n");
        },
        None => push_str(&mut t, "Managed ComfyUI process: not running (remote or stopped)\n"),
    }
    push_str(&mut t, "Web server running: ");
    push_bool(&mut t, web_server_running);
    push_str(&mut t, "\nPrompt assistant loaded: ");
    push_bool(&mut t, assistant_loaded);
    push_str(&mut t, " (active model: ");
    push_or(&mut t, assistant_model, "(none)");
    push_str(&mut t, ")\n\n");
    string_of(&t)
}

/// What `nvidia-smi` printed, or why there is nothing.
pub open spec fn gpu_spec(nvidia_smi: Option<Seq<char>>) -> Seq<char> {
    "=== GPU Info ===\n"@ + or_text(nvidia_smi, "(nvidia-smi not available or no NVIDIA GPU)\n"@) + "\n"@
}

pub fn gpu_section(nvidia_smi: &Option<String>) -> (r: String)
    ensures
        r@ == gpu_spec(opt_text(*nvidia_smi)),
{
    let mut t = chars_of("=== GPU Info ===\n");
    push_or(&mut t, nvidia_smi, "(nvidia-smi not available or no NVIDIA GPU)\n");
    push_str(&mut t, "\n");
    string_of(&t)
}

// ---------------------------------------------------------------------------
// Python and the logs
// ---------------------------------------------------------------------------

/// The venv's interpreter: `Scripts/python.exe` on Windows, else `bin/python`.
pub open spec fn venv_python_spec(venv_path: Seq<char>, windows: bool) -> Seq<char> {
    if windows {
        joined_path(joined_path(venv_path, "Scripts"@), "python.exe"@)
    } else {
        joined_path(joined_path(venv_path, "bin"@), "python"@)
    }
}

/// What running the venv's interpreter showed.
pub enum PythonProbe {
    /// The interpreter is not there.
    Missing,
    /// The interpreter is there. `version` is what `python --version`
    /// printed (stdout, stderr) when it ran; `torch` is what the PyTorch
    /// probe printed when it succeeded.
    Found { version: Option<(String, String)>, torch: Option<String> },
}

/// The Python section: none without a venv; the interpreter's version and
/// PyTorch's, or where the interpreter was looked for.
pub open spec fn python_spec(venv_path: Seq<char>, windows: bool, probe: PythonProbe) -> Seq<char> {
    if venv_path.len() == 0 {
        Seq::empty()
    } else {
        "=== Python Environment ===\n"@ + (match probe {
            PythonProbe::Missing => "Python not found at: "@ + venv_python_spec(venv_path, windows) + "\n"@,
            PythonProbe::Found { version, torch } => (match version {
                Some((out, err)) => "Python: "@ + out@ + err@,
                None => Seq::empty(),
            }) + or_text(opt_text(torch), Seq::empty()),
        }) + "\n"@
    }
}

pub fn python_section(venv_path: &str, windows: bool, probe: &PythonProbe) -> (r: String)
    ensures
        r@ == python_spec(venv_path@, windows, *probe),
{
    proof {
        reveal_strlit("");
    }
    if venv_path.unicode_len() == 0 {
        return String::new();
    }
    let mut t = chars_of("=== Python Environment ===\n");
    match probe {
        PythonProbe::Missing => {
            push_str(&mut t, "Python not found at: ");
            let p = crate::python_env::resolve_venv_python_bin(venv_path, windows);
            push_text(&mut t, &p);
            push_str(&mut t, "\n");
        },
        PythonProbe::Found { version, torch } => {
            match version {
                Some((out, err)) => {
                    push_str(&mut t, "Python: ");
                    push_text(&mut t, out);
                    push_text(&mut t, err);
                },
                None => {},
            }
            push_or(&mut t, torch, "");
        },
    }
    push_str(&mut t, "\n");
    string_of(&t)
}

/// ComfyUI's stderr log: where it is, how long ago it was written (the
/// file may be from an earlier launch), and its text.
pub open spec fn comfyui_log_spec(path: Seq<char>, age_secs: Option<u64>, content: Result<Seq<char>, Seq<char>>) -> Seq<char> {
    "=== ComfyUI Log ===\n(Source: "@ + path + ")\n"@ + (match age_secs {
        Some(s) => "(Last written "@ + decimal((s / 3600) as nat) + "h "@ + decimal(((s % 3600) / 60) as nat)
            + "m ago)\n"@,
        None => Seq::empty(),
    }) + match content {
        Ok(c) => if c.len() == 0 { "(log file is empty)\n"@ } else { c },
        Err(e) => "(Could not read log: "@ + e + ")\n"@,
    }
}

pub open spec fn result_text(r: Result<String, String>) -> Result<Seq<char>, Seq<char>> {
    match r {
        Ok(c) => Ok(c@),
        Err(e) => Err(e@),
    }
}

pub fn comfyui_log_section(path: &str, age_secs: Option<u64>, content: &Result<String, String>) -> (r: String)
    ensures
        r@ == comfyui_log_spec(path@, age_secs, result_text(*content)),
{
    proof {
        reveal_strlit("");
    }
    let mut t = chars_of("=== ComfyUI Log ===\n(Source: ");
    push_str(&mut t, path);
    push_str(&mut t, ")\n");
    match age_secs {
        Some(s) => {
            push_str(&mut t, "(Last written ");
            push_num(&mut t, s / 3600);
            push_str(&mut t, "h ");
            push_num(&mut t, (s % 3600) / 60);
            push_str(&mut t, "m ago)\n");
        },
        None => {},
    }
    match content {
        Ok(c) => {
            if c.as_str().unicode_len() == 0 {
                push_str(&mut t, "(log file is empty)\n");
            } else {
                push_text(&mut t, c);
            }
        },
        Err(e) => {
            push_str(&mut t, "(Could not read log: ");
            push_text(&mut t, e);
            push_str(&mut t, ")\n");
        },
    }
    string_of(&t)
}

/// The prompt assistant's llama-server log, read only when it holds more
/// than white space.
pub open spec fn assistant_log_spec(content: Option<Seq<char>>) -> Seq<char> {
    "\n=== Prompt Assistant (llama-server) Log ===\n"@ + match content {
        Some(c) => if crate::text::trim(c).len() > 0 { c } else { "(log file is empty)\n"@ },
        None => "(no llama-server log yet)\n"@,
    }
}

pub fn assistant_log_section(content: &Option<String>) -> (r: String)
    ensures
        r@ == assistant_log_spec(opt_text(*content)),
{
    let mut t = chars_of("\n=== Prompt Assistant (llama-server) Log ===\n");
    match content {
        Some(c) => {
            let tc = crate::text::trim_chars(&chars_of(c.as_str()));
            if tc.len() > 0 {
                push_text(&mut t, c);
            } else {
                push_str(&mut t, "(log file is empty)\n");
            }
        },
        None => push_str(&mut t, "(no llama-server log yet)\n"),
    }
    string_of(&t)
}

/// Each line followed by a line break.
pub open spec fn lines_text(lines: Seq<Seq<char>>) -> Seq<char>
    decreases lines.len(),
{
    if lines.len() == 0 {
        Seq::empty()
    } else {
        lines_text(lines.drop_last()) + lines.last() + "\n"@
    }
}

/// A captured ring buffer under its title and line count; nothing when it
/// is empty.
pub open spec fn ring_spec(title: Seq<char>, lines: Seq<Seq<char>>) -> Seq<char> {
    if lines.len() == 0 {
        Seq::empty()
    } else {
        "\n=== "@ + title + " (last "@ + decimal(lines.len()) + " lines) ===\n"@ + lines_text(lines)
    }
}

pub fn ring_section(title: &str, lines: &Vec<String>) -> (r: String)
    ensures
        r@ == ring_spec(title@, crate::text::string_views(lines@)),
{
    let ghost v = crate::text::string_views(lines@);
    if lines.len() == 0 {
        return String::new();
    }
    let mut t = chars_of("\n=== ");
    push_str(&mut t, title);
    push_str(&mut t, " (last ");
    push_num(&mut t, lines.len() as u64);
    push_str(&mut t, " lines) ===\n");
    let ghost head = t@;
    let mut i: usize = 0;
    while i < lines.len()
        invariant
            i <= lines.len(),
            v == crate::text::string_views(lines@),
            t@ == head + lines_text(v.take(i as int)),
        decreases lines.len() - i,
    {
        assert(v.take(i + 1).drop_last() =~= v.take(i as int));
        assert(v[i as int] == lines@[i as int]@);
        push_text(&mut t, &lines[i]);
        push_str(&mut t, "\n");
        i += 1;
    }
    assert(v.take(lines.len() as int) =~= v);
    string_of(&t)
}

// ---------------------------------------------------------------------------
// The configuration summary
// ---------------------------------------------------------------------------

/// A ComfyUI worker pinned to one GPU.
pub struct WorkerFacts {
    pub gpu_index: u32,
    pub port: Option<u16>,
    pub vram_mode: Option<String>,
}

/// The settings the configuration summary reports. Values the app renders
/// itself (floating-point settings and `Debug` renderings of its own types)
/// arrive as text.
pub struct ConfigFacts {
    pub browser_mode: bool,
    pub server_mode: String,
    pub server_url: String,
    pub server_port: u16,
    pub vram_mode: String,
    pub attention_backend: String,
    pub keep_alive: bool,
    pub auto_start: bool,
    pub extra_args: String,
    pub comfyui_path: String,
    pub comfyui_installed: Option<String>,
    pub comfyui_target: String,
    pub comfyui_update_available: bool,
    pub venv_path: String,
    pub extra_model_paths: Option<String>,
    pub gallery_path: Option<String>,
    pub app_data_dir: Option<String>,
    pub gpu_workers: Vec<WorkerFacts>,
    pub default_checkpoint: Option<String>,
    pub default_sampler: String,
    pub default_scheduler: String,
    pub default_steps: u32,
    pub default_cfg: String,
    pub default_width: u32,
    pub default_height: u32,
    pub general_threshold: String,
    pub character_threshold: String,
    pub theme: String,
    pub theme_palette: String,
    pub font_scale: String,
    pub theme_profile_id: Option<String>,
    pub ui_server_port: u16,
    pub lan_enabled: bool,
    pub tls_cert_path: Option<String>,
    pub tls_key_path: Option<String>,
    pub network_proxy: Option<String>,
    pub pip_index_url: Option<String>,
    pub civitai_api_key: Option<String>,
    pub webhook_url: Option<String>,
    pub webhook_events: String,
    pub webhook_include_sensitive: bool,
    pub webhook_allow_private_targets: bool,
    pub output_filename_template: Option<String>,
    pub setup_complete: bool,
    pub llm_external_enabled: bool,
    pub llm_external_base_url: String,
    pub llm_external_model: String,
    pub llm_external_api_key: String,
    pub prompt_assistant_model_id: Option<String>,
    pub prompt_assistant_idle_timeout_secs: u64,
    pub prompt_assistant_setup_done: bool,
}

/// The server, ComfyUI and path settings.
pub open spec fn config_paths_spec(c: ConfigFacts) -> Seq<char> {
    "=== App Configuration ===\nUI mode: "@ + (if c.browser_mode { "Browser"@ } else { "App"@ })
        + "\nServer mode: "@ + c.server_mode@ + "\nServer URL: "@ + c.server_url@ + "\nServer port: "@
        + decimal(c.server_port as nat) + "\nVRAM mode: "@ + c.vram_mode@ + "\nAttention backend: "@
        + c.attention_backend@ + "\nKeep alive: "@ + bool_text(c.keep_alive) + "\nAuto start: "@
        + bool_text(c.auto_start) + "\nExtra args: "@ + c.extra_args@ + "\nComfyUI path: "@ + c.comfyui_path@
        + "\nComfyUI version: "@ + or_text(opt_text(c.comfyui_installed), "unknown"@) + " (target "@
        + c.comfyui_target@ + (if c.comfyui_update_available { ", update available"@ } else { ""@ })
        + ")\nVenv path: "@ + c.venv_path@ + "\nExtra model paths: "@ + or_text(
        opt_text(c.extra_model_paths),
        "(none)"@,
    ) + "\nGallery path: "@ + or_text(opt_text(c.gallery_path), "(default)"@) + "\nApp data dir: "@
        + or_text(opt_text(c.app_data_dir), "(unknown)"@) + "\n"@
}

pub open spec fn worker_line(w: WorkerFacts) -> Seq<char> {
    "  GPU "@ + decimal(w.gpu_index as nat) + " -> port "@ + (match w.port {
        Some(p) => decimal(p as nat),
        None => "auto"@,
    }) + " (vram "@ + or_text(opt_text(w.vram_mode), "default"@) + ")\n"@
}

pub open spec fn worker_lines(ws: Seq<WorkerFacts>) -> Seq<char>
    decreases ws.len(),
{
    if ws.len() == 0 {
        Seq::empty()
    } else {
        worker_lines(ws.drop_last()) + worker_line(ws.last())
    }
}

/// The GPU workers, one line each, or the single default worker.
pub open spec fn workers_spec(ws: Seq<WorkerFacts>) -> Seq<char> {
    if ws.len() == 0 {
        "GPU workers: single-worker (default)\n"@
    } else {
        "GPU workers: "@ + decimal(ws.len()) + "\n"@ + worker_lines(ws)
    }
}

/// The generation defaults, the interface and the network settings, with
/// secrets shown only as configured or not.
pub open spec fn config_settings_spec(c: ConfigFacts) -> Seq<char> {
    "Defaults: checkpoint="@ + or_text(opt_text(c.default_checkpoint), "(none)"@) + ", sampler="@
        + c.default_sampler@ + ", scheduler="@ + c.default_scheduler@ + ", steps="@ + decimal(
        c.default_steps as nat,
    ) + ", cfg="@ + c.default_cfg@ + ", "@ + decimal(c.default_width as nat) + "x"@ + decimal(
        c.default_height as nat,
    ) + "\nInterrogator thresholds: general="@ + c.general_threshold@ + ", character="@
        + c.character_threshold@ + "\nUI: theme="@ + c.theme@ + ", palette="@ + c.theme_palette@
        + ", font_scale="@ + c.font_scale@ + ", custom_profile="@ + or_text(
        opt_text(c.theme_profile_id),
        "(none)"@,
    ) + "\nBrowser mode: enabled="@ + bool_text(c.browser_mode) + ", ui_port="@ + decimal(
        c.ui_server_port as nat,
    ) + ", lan="@ + bool_text(c.lan_enabled) + ", tls_cert="@ + configured(opt_text(c.tls_cert_path))
        + ", tls_key="@ + configured(opt_text(c.tls_key_path)) + "\nNetwork proxy: "@ + configured(
        opt_text(c.network_proxy),
    ) + ", pip index: "@ + configured(opt_text(c.pip_index_url)) + "\nCivitAI API key: "@ + configured(
        opt_text(c.civitai_api_key),
    ) + "\nWebhook: url="@ + configured(opt_text(c.webhook_url)) + ", events="@ + c.webhook_events@
        + ", include_sensitive="@ + bool_text(c.webhook_include_sensitive) + ", allow_private="@
        + bool_text(c.webhook_allow_private_targets) + "\nOutput filename template: "@ + or_text(
        opt_text(c.output_filename_template),
        "(default)"@,
    ) + "\nSetup complete: "@ + bool_text(c.setup_complete) + "\n"@
}

pub open spec fn unset_or(v: Seq<char>) -> Seq<char> {
    if v.len() == 0 {
        "(unset)"@
    } else {
        v
    }
}

/// The prompt assistant: an external endpoint (its key shown only as
/// configured) or the local llama-server.
pub open spec fn assistant_config_spec(c: ConfigFacts) -> Seq<char> {
    if c.llm_external_enabled {
        "Prompt assistant: external endpoint, base_url="@ + unset_or(c.llm_external_base_url@) + ", model="@
            + unset_or(c.llm_external_model@) + ", api_key="@ + configured(Some(c.llm_external_api_key@))
            + "\n\n"@
    } else {
        "Prompt assistant: local llama-server, model="@ + or_text(
            opt_text(c.prompt_assistant_model_id),
            "(none)"@,
        ) + ", idle_timeout="@ + decimal(c.prompt_assistant_idle_timeout_secs as nat) + "s, setup_done="@
            + bool_text(c.prompt_assistant_setup_done) + "\n\n"@
    }
}

pub open spec fn config_spec(c: ConfigFacts) -> Seq<char> {
    config_paths_spec(c) + workers_spec(c.gpu_workers@) + config_settings_spec(c) + assistant_config_spec(c)
}

fn config_paths_text(c: &ConfigFacts) -> (r: Vec<char>)
    ensures
        r@ == config_paths_spec(*c),
{
    let mut v = chars_of("=== App Configuration ===\nUI mode: ");
    let t = &mut v;
    if c.browser_mode {
        push_str(t, "Browser");
    } else {
        push_str(t, "App");
    }
    push_str(t, "\nServer mode: ");
    push_text(t, &c.server_mode);
    push_str(t, "\nServer URL: ");
    push_text(t, &c.server_url);
    push_str(t, "\nServer port: ");
    push_num(t, c.server_port as u64);
    push_str(t, "\nVRAM mode: ");
    push_text(t, &c.vram_mode);
    push_str(t, "\nAttention backend: ");
    push_text(t, &c.attention_backend);
    push_str(t, "\nKeep alive: ");
    push_bool(t, c.keep_alive);
    push_str(t, "\nAuto start: ");
    push_bool(t, c.auto_start);
    push_str(t, "\nExtra args: ");
    push_text(t, &c.extra_args);
    push_str(t, "\nComfyUI path: ");
    push_text(t, &c.comfyui_path);
    push_str(t, "\nComfyUI version: ");
    push_or(t, &c.comfyui_installed, "unknown");
    push_str(t, " (target ");
    push_text(t, &c.comfyui_target);
    if c.comfyui_update_available {
        push_str(t, ", update available");
    } else {
        push_str(t, "");
    }
    push_str(t, ")\nVenv path: ");
    push_text(t, &c.venv_path);
    push_str(t, "\nExtra model paths: ");
    push_or(t, &c.extra_model_paths, "(none)");
    push_str(t, "\nGallery path: ");
    push_or(t, &c.gallery_path, "(default)");
    push_str(t, "\nApp data dir: ");
    push_or(t, &c.app_data_dir, "(unknown)");
    push_str(t, "\n");
    v
}

fn push_workers(t: &mut Vec<char>, ws: &Vec<WorkerFacts>)
    ensures
        final(t)@ == old(t)@ + workers_spec(ws@),
{
    if ws.len() == 0 {
        push_str(t, "GPU workers: single-worker (default)\n");
        return;
    }
    push_str(t, "GPU workers: ");
    push_num(t, ws.len() as u64);
    push_str(t, "\n");
    let ghost head = t@;
    let mut i: usize = 0;
    while i < ws.len()
        invariant
            i <= ws.len(),
            t@ == head + worker_lines(ws@.take(i as int)),
        decreases ws.len() - i,
    {
        assert(ws@.take(i + 1).drop_last() =~= ws@.take(i as int));
        let ghost before = t@;
        let w = &ws[i];
        push_str(t, "  GPU ");
        push_num(t, w.gpu_index as u64);
        push_str(t, " -> port ");
        match w.port {
            Some(p) => push_num(t, p as u64),
            None => push_str(t, "auto"),
        }
        push_str(t, " (vram ");
        push_or(t, &w.vram_mode, "default");
        push_str(t, ")\n");
        assert(t@ =~= before + worker_line(ws@[i as int]));
        i += 1;
    }
    assert(ws@.take(ws.len() as int) =~= ws@);
}

fn config_settings_text(c: &ConfigFacts) -> (r: Vec<char>)
    ensures
        r@ == config_settings_spec(*c),
{
    let mut v = chars_of("Defaults: checkpoint=");
    let t = &mut v;
    push_or(t, &c.default_checkpoint, "(none)");
    push_str(t, ", sampler=");
    push_text(t, &c.default_sampler);
    push_str(t, ", scheduler=");
    push_text(t, &c.default_scheduler);
    push_str(t, ", steps=");
    push_num(t, c.default_steps as u64);
    push_str(t, ", cfg=");
    push_text(t, &c.default_cfg);
    push_str(t, ", ");
    push_num(t, c.default_width as u64);
    push_str(t, "x");
    push_num(t, c.default_height as u64);
    push_str(t, "\nInterrogator thresholds: general=");
    push_text(t, &c.general_threshold);
    push_str(t, ", character=");
    push_text(t, &c.character_threshold);
    push_str(t, "\nUI: theme=");
    push_text(t, &c.theme);
    push_str(t, ", palette=");
    push_text(t, &c.theme_palette);
    push_str(t, ", font_scale=");
    push_text(t, &c.font_scale);
    push_str(t, ", custom_profile=");
    push_or(t, &c.theme_profile_id, "(none)");
    push_str(t, "\nBrowser mode: enabled=");
    push_bool(t, c.browser_mode);
    push_str(t, ", ui_port=");
    push_num(t, c.ui_server_port as u64);
    push_str(t, ", lan=");
    push_bool(t, c.lan_enabled);
    push_str(t, ", tls_cert=");
    push_configured(t, &c.tls_cert_path);
    push_str(t, ", tls_key=");
    push_configured(t, &c.tls_key_path);
    push_str(t, "\nNetwork proxy: ");
    push_configured(t, &c.network_proxy);
    push_str(t, ", pip index: ");
    push_configured(t, &c.pip_index_url);
    push_str(t, "\nCivitAI API key: ");
    push_configured(t, &c.civitai_api_key);
    push_str(t, "\nWebhook: url=");
    push_configured(t, &c.webhook_url);
    push_str(t, ", events=");
    push_text(t, &c.webhook_events);
    push_str(t, ", include_sensitive=");
    push_bool(t, c.webhook_include_sensitive);
    push_str(t, ", allow_private=");
    push_bool(t, c.webhook_allow_private_targets);
    push_str(t, "\nOutput filename template: ");
    push_or(t, &c.output_filename_template, "(default)");
    push_str(t, "\nSetup complete: ");
    push_bool(t, c.setup_complete);
    push_str(t, "\n");
    v
}

fn push_assistant_config(t: &mut Vec<char>, c: &ConfigFacts)
    ensures
        final(t)@ == old(t)@ + assistant_config_spec(*c),
{
    let ghost t0 = t@;
    if c.llm_external_enabled {
        push_str(t, "Prompt assistant: external endpoint, base_url=");
        if c.llm_external_base_url.as_str().unicode_len() == 0 {
            push_str(t, "(unset)");
        } else {
            push_text(t, &c.llm_external_base_url);
        }
        push_str(t, ", model=");
        if c.llm_external_model.as_str().unicode_len() == 0 {
            push_str(t, "(unset)");
        } else {
            push_text(t, &c.llm_external_model);
        }
        push_str(t, ", api_key=");
        let key = Some(c.llm_external_api_key.clone());
        push_configured(t, &key);
        push_str(t, "\n\n");
    } else {
        push_str(t, "Prompt assistant: local llama-server, model=");
        push_or(t, &c.prompt_assistant_model_id, "(none)");
        push_str(t, ", idle_timeout=");
        push_num(t, c.prompt_assistant_idle_timeout_secs);
        push_str(t, "s, setup_done=");
        push_bool(t, c.prompt_assistant_setup_done);
        push_str(t, "\n\n");
    }
    assert(t@ =~= t0 + assistant_config_spec(*c));
}

/// The configuration summary.
pub fn config_section(c: &ConfigFacts) -> (r: String)
    ensures
        r@ == config_spec(*c),
{
    let mut t = config_paths_text(c);
    push_workers(&mut t, &c.gpu_workers);
    push_all(&mut t, &config_settings_text(c));
    push_assistant_config(&mut t, c);
    string_of(&t)
}

// ---------------------------------------------------------------------------
// The whole log
// ---------------------------------------------------------------------------

/// What the diagnostic log reports. The system and disk sections are
/// rendered by the app from the machine (they hold floating-point sizes);
/// the models, custom-nodes and environment sections come from
/// `models_section`, `custom_nodes_section` and `env_section`.
pub struct DiagnosticFacts {
    pub exported_unix: u64,
    pub version: String,
    pub debug_build: bool,
    pub server_build: bool,
    pub system: String,
    pub disks: String,
    pub config: ConfigFacts,
    pub models: String,
    pub custom_nodes: String,
    pub env: String,
    pub comfyui_pid: Option<u32>,
    pub web_server_running: bool,
    pub assistant_loaded: bool,
    pub assistant_model: Option<String>,
    pub nvidia_smi: Option<String>,
    pub windows: bool,
    pub python: PythonProbe,
    pub comfyui_log_path: String,
    pub comfyui_log_age_secs: Option<u64>,
    pub comfyui_log: Result<String, String>,
    pub assistant_log: Option<String>,
    pub rust_lines: Vec<String>,
    pub frontend_lines: Vec<String>,
}

/// The log: header, system, disks, configuration, models, custom nodes,
/// environment, runtime, GPU, Python, ComfyUI's log, the prompt
/// assistant's log, then the Rust and frontend ring buffers.
pub open spec fn diagnostic_log_spec(f: DiagnosticFacts) -> Seq<char> {
    header_spec(f.exported_unix as nat, f.version@, f.debug_build, f.server_build) + f.system@ + f.disks@
        + config_spec(f.config) + f.models@ + f.custom_nodes@ + f.env@ + runtime_spec(
        f.comfyui_pid,
        f.web_server_running,
        f.assistant_loaded,
        opt_text(f.assistant_model),
    ) + gpu_spec(opt_text(f.nvidia_smi)) + python_spec(f.config.venv_path@, f.windows, f.python)
        + comfyui_log_spec(f.comfyui_log_path@, f.comfyui_log_age_secs, result_text(f.comfyui_log))
        + assistant_log_spec(opt_text(f.assistant_log)) + ring_spec(
        "Rust Log"@,
        crate::text::string_views(f.rust_lines@),
    ) + ring_spec("Frontend Console"@, crate::text::string_views(f.frontend_lines@))
}

pub fn diagnostic_log(f: &DiagnosticFacts) -> (r: String)
    ensures
        r@ == diagnostic_log_spec(*f),
{
    let mut t = chars_of(header_section(f.exported_unix, f.version.as_str(), f.debug_build, f.server_build).as_str());
    push_text(&mut t, &f.system);
    push_text(&mut t, &f.disks);
    push_text(&mut t, &config_section(&f.config));
    push_text(&mut t, &f.models);
    push_text(&mut t, &f.custom_nodes);
    push_text(&mut t, &f.env);
    push_text(&mut t, &runtime_section(f.comfyui_pid, f.web_server_running, f.assistant_loaded, &f.assistant_model));
    push_text(&mut t, &gpu_section(&f.nvidia_smi));
    push_text(&mut t, &python_section(f.config.venv_path.as_str(), f.windows, &f.python));
    push_text(&mut t, &comfyui_log_section(f.comfyui_log_path.as_str(), f.comfyui_log_age_secs, &f.comfyui_log));
    push_text(&mut t, &assistant_log_section(&f.assistant_log));
    push_text(&mut t, &ring_section("Rust Log", &f.rust_lines));
    push_text(&mut t, &ring_section("Frontend Console", &f.frontend_lines));
    string_of(&t)
}

} // verus!
