//! Live GPU statistics: the rows of `nvidia-smi`'s CSV report, and the
//! MooshieUI worker assigned to each GPU.
use vstd::prelude::*;
use crate::text::{
    chars_of, lines_of, parse_u32, parse_unsigned, split_chars, split_on, std_lines, string_of,
    trim, trim_chars, views,
};

verus! {

/// One row of `nvidia-smi --query-gpu=index,name,memory.used,memory.total,
/// utilization.gpu,temperature.gpu,power.draw --format=csv,noheader,nounits`.
/// The decimal fields (memory and power) are kept as their trimmed text for
/// the caller to read as numbers.
pub struct GpuCsvRow {
    pub index: u32,
    pub name: String,
    pub vram_used: String,
    pub vram_total: String,
    pub gpu_util: u32,
    pub temperature: u32,
    pub power_draw: String,
}

pub open spec fn row_view(r: GpuCsvRow) -> (nat, Seq<char>, Seq<char>, Seq<char>, nat, nat, Seq<char>) {
    (r.index as nat, r.name@, r.vram_used@, r.vram_total@, r.gpu_util as nat, r.temperature as nat, r.power_draw@)
}

/// An integer field: its value, or 0 when it does not parse.
pub open spec fn u32_or_zero(s: Seq<char>) -> nat {
    match parse_unsigned(s, u32::MAX as nat) {
        Some(v) => v,
        None => 0,
    }
}

/// The row a line of the report stands for, from its comma-separated
/// fields, each trimmed.
pub open spec fn row_spec(parts: Seq<Seq<char>>) -> (nat, Seq<char>, Seq<char>, Seq<char>, nat, nat, Seq<char>) {
    (
        u32_or_zero(trim(parts[0])),
        trim(parts[1]),
        trim(parts[2]),
        trim(parts[3]),
        u32_or_zero(trim(parts[4])),
        u32_or_zero(trim(parts[5])),
        trim(parts[6]),
    )
}

/// The rows of the report's lines: each line with at least seven fields, in
/// order; other lines are skipped.
pub open spec fn rows_spec(lines: Seq<Seq<char>>) -> Seq<(nat, Seq<char>, Seq<char>, Seq<char>, nat, nat, Seq<char>)>
    decreases lines.len(),
{
    if lines.len() == 0 {
        Seq::empty()
    } else {
        let rest = rows_spec(lines.drop_last());
        let parts = split_on(lines.last(), ',');
        if parts.len() >= 7 {
            rest.push(row_spec(parts))
        } else {
            rest
        }
    }
}

fn trimmed(parts: &Vec<Vec<char>>, i: usize) -> (r: Vec<char>)
    requires
        i < parts.len(),
    ensures
        r@ == trim(parts@[i as int]@),
{
    trim_chars(parts[i].as_slice())
}

fn u32_field(parts: &Vec<Vec<char>>, i: usize) -> (r: u32)
    requires
        i < parts.len(),
    ensures
        r as nat == u32_or_zero(trim(parts@[i as int]@)),
{
    match parse_u32(trimmed(parts, i).as_slice()) {
        Some(v) => v,
        None => 0,
    }
}

/// The rows of `nvidia-smi`'s CSV report (its standard output, decoded).
pub fn parse_gpu_rows(stdout: &str) -> (r: Vec<GpuCsvRow>)
    ensures
        r@.map_values(|x: GpuCsvRow| row_view(x)) == rows_spec(std_lines(stdout@)),
{
    let lines = lines_of(chars_of(stdout).as_slice());
    let ghost lv = views(lines@);
    let mut out: Vec<GpuCsvRow> = Vec::new();
    let mut i: usize = 0;
    while i < lines.len()
        invariant
            i <= lines.len(),
            lv == views(lines@),
            lv == std_lines(stdout@),
            out@.map_values(|x: GpuCsvRow| row_view(x)) == rows_spec(lv.take(i as int)),
        decreases lines.len() - i,
    {
        assert(lv.take(i + 1).drop_last() =~= lv.take(i as int));
        assert(lv.take(i + 1).last() == lines@[i as int]@);
        let parts = split_chars(lines[i].as_slice(), ',');
        assert(views(parts@) == split_on(lines@[i as int]@, ','));
        if parts.len() >= 7 {
            let ghost pv = views(parts@);
            assert(pv[0] == parts@[0]@ && pv[1] == parts@[1]@ && pv[2] == parts@[2]@ && pv[3] == parts@[3]@);
            assert(pv[4] == parts@[4]@ && pv[5] == parts@[5]@ && pv[6] == parts@[6]@);
            let row = GpuCsvRow {
                index: u32_field(&parts, 0),
                name: string_of(trimmed(&parts, 1).as_slice()),
                vram_used: string_of(trimmed(&parts, 2).as_slice()),
                vram_total: string_of(trimmed(&parts, 3).as_slice()),
                gpu_util: u32_field(&parts, 4),
                temperature: u32_field(&parts, 5),
                power_draw: string_of(trimmed(&parts, 6).as_slice()),
            };
            assert(row_view(row) == row_spec(pv));
            let ghost before = out@;
            out.push(row);
            assert(out@.map_values(|x: GpuCsvRow| row_view(x)) =~= before.map_values(|x: GpuCsvRow| row_view(x)).push(row_view(row)));
        }
        i += 1;
    }
    assert(lv.take(lines.len() as int) =~= lv);
    out
}

/// The MooshieUI worker assigned to a GPU.
pub struct GpuWorkerInfo {
    pub worker_id: u32,
    pub port: u16,
    pub status: String,
    pub reserved: bool,
    pub label: String,
}

/// Statistics of one GPU, as the frontend receives them.
pub struct GpuStats {
    /// GPU index (CUDA device order).
    pub index: u32,
    pub name: String,
    /// VRAM used, in MiB.
    pub vram_used_mb: u64,
    /// VRAM total, in MiB.
    pub vram_total_mb: u64,
    /// Utilization in percent.
    pub gpu_util: u32,
    /// Temperature in degrees Celsius.
    pub temperature: u32,
    /// Power draw in watts.
    pub power_draw_w: u32,
    pub worker: Option<GpuWorkerInfo>,
}

/// The last worker reported for a GPU index.
pub open spec fn worker_for(ws: Seq<(u32, GpuWorkerInfo)>, idx: u32) -> Option<GpuWorkerInfo>
    decreases ws.len(),
{
    if ws.len() == 0 {
        None
    } else if ws.last().0 == idx {
        Some(ws.last().1)
    } else {
        worker_for(ws.drop_last(), idx)
    }
}

/// No GPU before position `j` has the index of the one at `j`.
pub open spec fn first_of_index(g: Seq<GpuStats>, j: int) -> bool {
    forall|k: int| 0 <= k < j ==> #[trigger] g[k].index != g[j].index
}

/// The worker shown for the GPU at `j`: the last one reported for its index,
/// given to the first GPU of that index only; else what it had.
pub open spec fn merged_worker(g: Seq<GpuStats>, ws: Seq<(u32, GpuWorkerInfo)>, j: int) -> Option<GpuWorkerInfo> {
    if first_of_index(g, j) && worker_for(ws, g[j].index) is Some {
        worker_for(ws, g[j].index)
    } else {
        g[j].worker
    }
}

fn copy_worker(w: &GpuWorkerInfo) -> (r: GpuWorkerInfo)
    ensures
        r == *w,
{
    GpuWorkerInfo {
        worker_id: w.worker_id,
        port: w.port,
        status: w.status.clone(),
        reserved: w.reserved,
        label: w.label.clone(),
    }
}

fn last_worker_for(ws: &Vec<(u32, GpuWorkerInfo)>, idx: u32) -> (r: Option<GpuWorkerInfo>)
    ensures
        r == worker_for(ws@, idx),
{
    let mut k: usize = ws.len();
    assert(ws@.take(k as int) =~= ws@);
    while k > 0
        invariant
            k <= ws.len(),
            worker_for(ws@, idx) == worker_for(ws@.take(k as int), idx),
        decreases k,
    {
        let ghost t = ws@.take(k as int);
        assert(t.last() == ws@[k - 1]);
        if ws[k - 1].0 == idx {
            return Some(copy_worker(&ws[k - 1].1));
        }
        assert(t.drop_last() =~= ws@.take(k - 1));
        k -= 1;
    }
    None
}

/// Give each GPU the worker reported for its index (the last report wins;
/// when two GPUs share an index, the first of them gets it).
pub fn merge_worker_statuses(gpus: Vec<GpuStats>, workers: &Vec<(u32, GpuWorkerInfo)>) -> (r: Vec<GpuStats>)
    ensures
        r.len() == gpus.len(),
        forall|j: int| 0 <= j < r.len() ==> {
            &&& (#[trigger] r@[j]).index == gpus@[j].index
            &&& r@[j].name == gpus@[j].name
            &&& r@[j].vram_used_mb == gpus@[j].vram_used_mb
            &&& r@[j].vram_total_mb == gpus@[j].vram_total_mb
            &&& r@[j].gpu_util == gpus@[j].gpu_util
            &&& r@[j].temperature == gpus@[j].temperature
            &&& r@[j].power_draw_w == gpus@[j].power_draw_w
            &&& r@[j].worker == merged_worker(gpus@, workers@, j)
        },
{
    let ghost g0 = gpus@;
    let mut rest = gpus;
    let mut seen: Vec<u32> = Vec::new();
    let mut out: Vec<GpuStats> = Vec::new();
    while rest.len() > 0
        invariant
            out.len() + rest.len() == g0.len(),
            rest@ == g0.skip(out.len() as int),
            seen@.len() == out.len(),
            forall|k: int| 0 <= k < out.len() ==> seen@[k] == g0[k].index,
            forall|j: int| 0 <= j < out.len() ==> {
                &&& (#[trigger] out@[j]).index == g0[j].index
                &&& out@[j].name == g0[j].name
                &&& out@[j].vram_used_mb == g0[j].vram_used_mb
                &&& out@[j].vram_total_mb == g0[j].vram_total_mb
                &&& out@[j].gpu_util == g0[j].gpu_util
                &&& out@[j].temperature == g0[j].temperature
                &&& out@[j].power_draw_w == g0[j].power_draw_w
                &&& out@[j].worker == merged_worker(g0, workers@, j)
            },
        decreases rest.len(),
    {
        let j = out.len();
        let g = rest.remove(0);
        assert(g == g0[j as int]);
        assert(rest@ =~= g0.skip(j + 1));
        let mut first = true;
        let mut k: usize = 0;
        while k < seen.len()
            invariant
                k <= seen.len(),
                seen@.len() == j,
                forall|m: int| 0 <= m < j ==> seen@[m] == g0[m].index,
                g == g0[j as int],
                first <==> (forall|m: int| 0 <= m < k ==> g0[m].index != g.index),
            decreases seen.len() - k,
        {
            if seen[k] == g.index {
                first = false;
            }
            k += 1;
        }
        assert(first <==> first_of_index(g0, j as int));
        let found = if first { last_worker_for(workers, g.index) } else { None };
        let worker = match found {
            Some(w) => Some(w),
            None => g.worker,
        };
        seen.push(g.index);
        out.push(GpuStats {
            index: g.index,
            name: g.name,
            vram_used_mb: g.vram_used_mb,
            vram_total_mb: g.vram_total_mb,
            gpu_util: g.gpu_util,
            temperature: g.temperature,
            power_draw_w: g.power_draw_w,
            worker,
        });
    }
    out
}

} // verus!
