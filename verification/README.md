# mooshie_core

The decisions of the MooshieUI desktop app and of its error-report proxy,
written in Verus: every function in `src/` carries a contract over a
mathematical model (sequences of characters, integers, maps), and Verus
proves each body against it.

## Layout

- `src/` — the verified library.
  - `text`, `text_map`, `sorting`, `paths`, `digest`: the shared models —
    text as `Seq<char>` with `str`-faithful helpers, stable sorting,
    paths through `std::path` and SHA-256 through `sha2`.
  - `report`, `dedup`, `github`, `ratelimit`: the report proxy — which
    reports are admitted, the signature that deduplicates them, the issue
    text, log chunks, and the per-key rate limit.
  - `model_dirs`, `models`, `architecture`, `modelspec`, `gguf`: model
    folders, families, structural detection from tensor names, and the
    model info panel.
  - `civitai`, `civitai_search`, `remote_media`: what may be fetched from
    CivitAI and the media proxies, and with which token.
  - `gallery`, `video_export`, `http_range`: gallery names, imports, video
    export math and byte ranges.
  - `nodes`, `python_env`, `manager`, `attention`, `ws_protocol`,
    `gpu_stats`, `diagnostics`, `settings`: custom-node packs, the Python
    environment, ComfyUI-Manager policy, attention wheels, the WebSocket
    client's decisions, GPU statistics, the diagnostic log and small
    settings rules.
  - Public proof functions state the laws that relate several calls (for
    example that rate-limit counts stay within the limit, that a seed's
    text reads back as the seed, that redirects stay on HTTPS).
- `tests/` — tests over the compiled library, with the real outside crates.
- `app/` — ordinary Rust around the library: the report-proxy HTTP service
  (axum) and the desktop-side file system, network and child-process work.
  It gathers facts, calls the library and acts on what it returns.
