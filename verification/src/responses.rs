//! The shapes the desktop commands answer with.
use vstd::prelude::*;

verus! {

/// ComfyUI's `/system_stats`: the system and its devices.
pub struct SystemStats {
    pub system: SystemInfo,
    pub devices: Vec<DeviceInfo>,
}

pub struct SystemInfo {
    pub os: String,
    pub ram_total: u64,
    pub ram_free: u64,
    pub comfyui_version: Option<String>,
    pub python_version: Option<String>,
    pub pytorch_version: Option<String>,
}

/// A compute device; `device_type` is the JSON field `type`.
pub struct DeviceInfo {
    pub name: String,
    pub device_type: String,
    pub vram_total: u64,
    pub vram_free: u64,
}

/// ComfyUI's answer to an image upload; `folder_type` is the JSON field
/// `type`.
pub struct UploadResponse {
    pub name: String,
    pub subfolder: String,
    pub folder_type: String,
}

pub struct SamplerInfo {
    pub samplers: Vec<String>,
    pub schedulers: Vec<String>,
}

/// The prompt assistant's state.
pub struct LlmStatus {
    pub installed_models: Vec<String>,
    pub active_model: Option<String>,
    pub server_running: bool,
    /// An external OpenAI-compatible endpoint is configured.
    pub external_enabled: bool,
}

/// A queued generation and the seed it resolved to.
pub struct GenerateResponse {
    pub prompt_id: String,
    pub seed: i64,
}

pub struct ControlNetPreprocessorPreviewResponse {
    pub prompt_id: String,
}

pub struct InterpolateVideoResponse {
    pub prompt_id: String,
}

} // verus!
