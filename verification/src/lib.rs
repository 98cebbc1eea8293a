pub mod text;
pub mod digest;
pub mod dedup;
pub mod http_range;
pub mod report;
pub mod github;
pub mod ratelimit;
pub mod video_export;
pub mod attention;
pub mod manager;
pub mod paths;
pub mod nodes;
pub mod gallery;
pub mod python_env;
pub mod models;
pub mod architecture;
pub mod gguf;
pub mod ws_protocol;
pub mod modelspec;
pub mod civitai;
pub mod model_dirs;
pub mod sorting;
pub mod diagnostics;
pub mod civitai_search;
pub mod text_map;
pub mod remote_media;
pub mod settings;
pub mod gpu_stats;
pub mod model_info;
pub mod responses;
pub mod diagnostic_log;
