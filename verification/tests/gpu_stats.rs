use mooshie_core::gpu_stats::{merge_worker_statuses, parse_gpu_rows, GpuStats, GpuWorkerInfo};

fn gpu(index: u32, name: &str) -> GpuStats {
    GpuStats {
        index,
        name: name.to_string(),
        vram_used_mb: 1,
        vram_total_mb: 2,
        gpu_util: 3,
        temperature: 4,
        power_draw_w: 5,
        worker: None,
    }
}

fn worker(id: u32, label: &str) -> GpuWorkerInfo {
    GpuWorkerInfo { worker_id: id, port: 8188, status: "idle".to_string(), reserved: false, label: label.to_string() }
}

#[test]
fn parses_nvidia_smi_rows_and_skips_short_lines() {
    let out = "0, NVIDIA GeForce RTX 3090, 1024, 24576, 37, 54, 123.45\nnot a row\n1, Tesla T4 , 10.5, 15360, x, 41, [N/A]\n";
    let rows = parse_gpu_rows(out);
    assert_eq!(rows.len(), 2);
    assert_eq!(rows[0].index, 0);
    assert_eq!(rows[0].name, "NVIDIA GeForce RTX 3090");
    assert_eq!(rows[0].vram_used, "1024");
    assert_eq!(rows[0].vram_total, "24576");
    assert_eq!(rows[0].gpu_util, 37);
    assert_eq!(rows[0].temperature, 54);
    assert_eq!(rows[0].power_draw, "123.45");
    assert_eq!(rows[1].index, 1);
    assert_eq!(rows[1].name, "Tesla T4");
    assert_eq!(rows[1].gpu_util, 0);
    assert_eq!(rows[1].power_draw, "[N/A]");
}

#[test]
fn parses_an_empty_report() {
    assert!(parse_gpu_rows("").is_empty());
    assert!(parse_gpu_rows("a,b,c\n").is_empty());
}

#[test]
fn workers_go_to_the_first_gpu_of_their_index_and_the_last_report_wins() {
    let gpus = vec![gpu(0, "a"), gpu(1, "b"), gpu(1, "c")];
    let workers = vec![(1, worker(7, "first")), (1, worker(8, "second")), (5, worker(9, "none"))];
    let merged = merge_worker_statuses(gpus, &workers);
    assert_eq!(merged.len(), 3);
    assert!(merged[0].worker.is_none());
    assert_eq!(merged[1].worker.as_ref().map(|w| w.worker_id), Some(8));
    assert_eq!(merged[1].worker.as_ref().map(|w| w.label.as_str()), Some("second"));
    assert!(merged[2].worker.is_none());
    assert_eq!(merged[2].name, "c");
}
