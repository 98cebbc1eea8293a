//! Export math for animated AVIF / WebP / GIF and re-encoded MP4 output from
//! gallery videos: frame-rate choices, output geometry, loop-mode frame
//! counts, encoder quality mapping and platform size limits.
use vstd::prelude::*;
use crate::text::{
    chars_of, decimal, decimal_of, is_ws, lines_of, push_all, push_str, spells, std_lines,
    string_of, trim_end,
};

verus! {

/// Frame rates below this are not offered, however cleanly they divide.
pub const MIN_OFFERED_FPS: u32 = 6;

// ---------------------------------------------------------------------------
// Crossfade
// ---------------------------------------------------------------------------

/// Whether a clip of `f` frames can crossfade over `n` frames without folding
/// into itself.
pub open spec fn crossfade_available_spec(f: nat, n: nat) -> bool {
    n > 0 && f > 3 * n
}

/// The largest `n` for which a clip of `f` frames still has a crossfade.
pub open spec fn max_crossfade(f: nat) -> nat {
    if f == 0 { 0 } else { ((f - 1) as nat) / 3 }
}

/// `f * 0.08` rounded to the nearest integer (there are no ties: the fraction
/// is a multiple of 1/25).
pub open spec fn proportional_crossfade(f: nat) -> nat {
    (4 * f + 25) / 50
}

pub open spec fn clamp_nat(x: nat, lo: nat, hi: nat) -> nat {
    if x < lo { lo } else if x > hi { hi } else { x }
}

/// Default crossfade length for a clip of `f` frames: about 8% of the clip,
/// clamped to the slider's 1-16 range and to what the clip allows, 0 when no
/// crossfade fits at all.
pub open spec fn default_crossfade_spec(f: nat) -> nat {
    let m = max_crossfade(f);
    if m == 0 {
        0
    } else {
        clamp_nat(proportional_crossfade(f), 1, if m < 16 { m } else { 16 })
    }
}

pub fn crossfade_available(f: u32, n: u32) -> (r: bool)
    ensures
        r == crossfade_available_spec(f as nat, n as nat),
{
    n > 0 && (f as u64) > 3 * (n as u64)
}

/// Default crossfade length for a clip of `f` frames.
pub fn default_crossfade_frames(f: u32) -> (r: u32)
    ensures
        r == default_crossfade_spec(f as nat),
{
    let max_n: u32 = if f == 0 { 0 } else { (f - 1) / 3 };
    if max_n == 0 {
        return 0;
    }
    let proportional: u64 = (4 * (f as u64) + 25) / 50;
    let hi: u32 = if max_n < 16 { max_n } else { 16 };
    if proportional < 1 {
        1
    } else if proportional > hi as u64 {
        hi
    } else {
        proportional as u32
    }
}

/// A nonzero default crossfade always fits the clip it was computed for.
pub proof fn default_crossfade_is_available(f: nat)
    requires
        default_crossfade_spec(f) > 0,
    ensures
        crossfade_available_spec(f, default_crossfade_spec(f)),
{
    let n = default_crossfade_spec(f);
    assert(n <= max_crossfade(f));
    assert(f >= 1);
    assert(3 * (((f - 1) as nat) / 3) <= f - 1);
}

/// A longer clip never gets a shorter default crossfade.
pub proof fn default_crossfade_never_falls(f: nat, g: nat)
    requires
        f <= g,
    ensures
        default_crossfade_spec(f) <= default_crossfade_spec(g),
{
    if f > 0 {
        vstd::arithmetic::div_mod::lemma_div_is_ordered((f - 1) as int, (g - 1) as int, 3);
    }
    vstd::arithmetic::div_mod::lemma_div_is_ordered((4 * f + 25) as int, (4 * g + 25) as int, 50);
    assert(max_crossfade(f) <= max_crossfade(g));
    assert(proportional_crossfade(f) <= proportional_crossfade(g));
}

// ---------------------------------------------------------------------------
// Frame rates
// ---------------------------------------------------------------------------

pub open spec fn divides(d: nat, n: nat) -> bool {
    d > 0 && n % d == 0
}

pub open spec fn strictly_descending(s: Seq<u32>) -> bool {
    forall|i: int, j: int| 0 <= i < j < s.len() ==> s[i] > s[j]
}

/// The rates offered for a clip at `src` fps: the divisors of `src` from
/// `MIN_OFFERED_FPS` up; the source itself when it is below that floor; the
/// floor when the source rate is unknown (0).
pub open spec fn is_offered(src: nat, x: nat) -> bool {
    if src == 0 {
        x == MIN_OFFERED_FPS
    } else if src < MIN_OFFERED_FPS {
        x == src
    } else {
        x >= MIN_OFFERED_FPS && divides(x, src)
    }
}

proof fn lemma_divisor_bounded(d: nat, n: nat)
    requires
        divides(d, n),
        n > 0,
    ensures
        d <= n,
{
    if d > n {
        vstd::arithmetic::div_mod::lemma_small_mod(n, d);
    }
}

proof fn lemma_offered_bounded(src: nat, x: nat)
    requires
        is_offered(src, x),
    ensures
        1 <= x,
        x <= src || x == MIN_OFFERED_FPS,
{
    if src >= MIN_OFFERED_FPS {
        lemma_divisor_bounded(x, src);
    }
}

/// `r` is the rate that `target` snaps to on a clip at `src` fps: the highest
/// offered rate at or below `target`, or the lowest offered rate when every
/// offered rate lies above `target`.
pub open spec fn is_snap(target: nat, src: nat, r: nat) -> bool {
    &&& is_offered(src, r)
    &&& {
        ||| (r <= target && forall|v: nat| #[trigger] is_offered(src, v) && v <= target ==> v <= r)
        ||| (forall|v: nat| #[trigger] is_offered(src, v) ==> target < v && r <= v)
    }
}

/// Every integer divisor of `n`, largest first.
pub fn divisors(n: u32) -> (r: Vec<u32>)
    ensures
        strictly_descending(r@),
        forall|x: u32| #[trigger] r@.contains(x) <==> (x <= n && divides(x as nat, n as nat)),
{
    let mut r: Vec<u32> = Vec::new();
    let mut d: u32 = n;
    while d > 0
        invariant
            d <= n,
            strictly_descending(r@),
            forall|i: int| 0 <= i < r@.len() ==> r@[i] > d,
            forall|x: u32| #[trigger] r@.contains(x) <==> (d < x <= n && divides(x as nat, n as nat)),
        decreases d,
    {
        let ghost old_r = r@;
        if n % d == 0 {
            r.push(d);
            assert forall|x: u32| #[trigger] r@.contains(x) <==> (d - 1 < x <= n && divides(x as nat, n as nat)) by {
                if r@.contains(x) {
                    let k = choose|k: int| 0 <= k < r@.len() && r@[k] == x;
                    if k < old_r.len() {
                        assert(old_r[k] == x);
                        assert(old_r.contains(x));
                    } else {
                        assert(x == d);
                        assert((n as nat) % (d as nat) == 0);
                    }
                }
                if d - 1 < x <= n && divides(x as nat, n as nat) {
                    if x == d {
                        assert(r@[r@.len() - 1] == x);
                    } else {
                        assert(old_r.contains(x));
                        let k = choose|k: int| 0 <= k < old_r.len() && old_r[k] == x;
                        assert(r@[k] == x);
                    }
                }
            }
        } else {
            assert forall|x: u32| #[trigger] r@.contains(x) <==> (d - 1 < x <= n && divides(x as nat, n as nat)) by {
                if x == d {
                    assert(!divides(x as nat, n as nat));
                }
            }
        }
        d -= 1;
    }
    r
}

/// Frame rates the export picker offers for a clip at `source_fps`, highest
/// first. Rates above the source are absent.
pub fn offered_fps(source_fps: u32) -> (r: Vec<u32>)
    ensures
        strictly_descending(r@),
        r@.len() > 0,
        forall|x: u32| #[trigger] r@.contains(x) <==> is_offered(source_fps as nat, x as nat),
{
    if source_fps == 0 {
        let r = vec![MIN_OFFERED_FPS];
        assert(r@ =~= seq![MIN_OFFERED_FPS]);
        assert forall|x: u32| #[trigger] r@.contains(x) <==> is_offered(0, x as nat) by {
            if x == MIN_OFFERED_FPS {
                assert(r@[0] == x);
            }
        }
        return r;
    }
    if source_fps < MIN_OFFERED_FPS {
        let r = vec![source_fps];
        assert(r@ =~= seq![source_fps]);
        assert forall|x: u32| #[trigger] r@.contains(x) <==> is_offered(source_fps as nat, x as nat) by {
            if x == source_fps {
                assert(r@[0] == x);
            }
        }
        return r;
    }
    let all = divisors(source_fps);
    let mut r: Vec<u32> = Vec::new();
    let mut i: usize = 0;
    while i < all.len()
        invariant
            i <= all.len(),
            strictly_descending(all@),
            forall|x: u32| #[trigger] all@.contains(x) <==> (x <= source_fps && divides(x as nat, source_fps as nat)),
            // `r` is the prefix of `all` kept so far, in order.
            forall|k: int| 0 <= k < r@.len() ==> exists|j: int| 0 <= j < i && all@[j] == #[trigger] r@[k],
            strictly_descending(r@),
            forall|k: int| 0 <= k < r@.len() ==> i == all@.len() || r@[k] > all@[i as int],
            forall|x: u32| #[trigger] r@.contains(x) <==> (exists|j: int| 0 <= j < i && all@[j] == x) && x >= MIN_OFFERED_FPS,
        decreases all.len() - i,
    {
        let d = all[i];
        let ghost old_r = r@;
        if d >= MIN_OFFERED_FPS {
            r.push(d);
            assert forall|x: u32| #[trigger] r@.contains(x) <==> (exists|j: int| 0 <= j < i + 1 && all@[j] == x) && x >= MIN_OFFERED_FPS by {
                if r@.contains(x) && x != d {
                    let k = choose|k: int| 0 <= k < r@.len() && r@[k] == x;
                    assert(old_r[k] == x);
                    assert(old_r.contains(x));
                }
                if (exists|j: int| 0 <= j < i + 1 && all@[j] == x) && x >= MIN_OFFERED_FPS && x != d {
                    let j = choose|j: int| 0 <= j < i + 1 && all@[j] == x;
                    assert(j < i);
                    assert(old_r.contains(x));
                    let k = choose|k: int| 0 <= k < old_r.len() && old_r[k] == x;
                    assert(r@[k] == x);
                }
                if x == d {
                    assert(r@[r@.len() - 1] == d);
                    assert(all@[i as int] == x);
                }
            }
            assert forall|k: int| 0 <= k < r@.len() implies exists|j: int| 0 <= j < i + 1 && all@[j] == #[trigger] r@[k] by {
                if k < old_r.len() {
                    assert(old_r[k] == r@[k]);
                    let j = choose|j: int| 0 <= j < i && all@[j] == old_r[k];
                    assert(all@[j] == r@[k]);
                } else {
                    assert(all@[i as int] == r@[k]);
                }
            }
        } else {
            assert forall|x: u32| #[trigger] r@.contains(x) <==> (exists|j: int| 0 <= j < i + 1 && all@[j] == x) && x >= MIN_OFFERED_FPS by {
                if (exists|j: int| 0 <= j < i + 1 && all@[j] == x) && x >= MIN_OFFERED_FPS {
                    let j = choose|j: int| 0 <= j < i + 1 && all@[j] == x;
                    assert(j != i);
                }
            }
            assert forall|k: int| 0 <= k < r@.len() implies exists|j: int| 0 <= j < i + 1 && all@[j] == #[trigger] r@[k] by {
                let j = choose|j: int| 0 <= j < i && all@[j] == r@[k];
            }
        }
        i += 1;
    }
    assert forall|x: u32| #[trigger] r@.contains(x) <==> is_offered(source_fps as nat, x as nat) by {
        if is_offered(source_fps as nat, x as nat) {
            lemma_divisor_bounded(x as nat, source_fps as nat);
            assert(all@.contains(x));
            let j = choose|j: int| 0 <= j < all@.len() && all@[j] == x;
            assert(exists|j: int| 0 <= j < all@.len() && all@[j] == x);
        }
        if r@.contains(x) {
            let j = choose|j: int| 0 <= j < all@.len() && all@[j] == x;
            assert(all@.contains(x));
        }
    }
    assert(is_offered(source_fps as nat, source_fps as nat));
    if r.len() == 0 {
        assert(!r@.contains(source_fps));
    }
    r
}

/// Resolve a preset's target fps against what the source can deliver: the
/// highest offered value at or below the target, else the lowest offered.
pub fn snap_fps(target: u32, source_fps: u32) -> (r: u32)
    ensures
        is_snap(target as nat, source_fps as nat, r as nat),
{
    let offered = offered_fps(source_fps);
    let mut i: usize = 0;
    while i < offered.len()
        invariant
            i <= offered.len(),
            offered@.len() > 0,
            strictly_descending(offered@),
            forall|x: u32| #[trigger] offered@.contains(x) <==> is_offered(source_fps as nat, x as nat),
            forall|k: int| 0 <= k < i ==> offered@[k] > target,
        decreases offered.len() - i,
    {
        let v = offered[i];
        if v <= target {
            proof {
                assert(offered@.contains(v));
                assert forall|w: nat| #[trigger] is_offered(source_fps as nat, w) && w <= target implies w <= v by {
                    lemma_offered_bounded(source_fps as nat, w);
                    let wu = w as u32;
                    assert(offered@.contains(wu));
                    let k = choose|k: int| 0 <= k < offered@.len() && offered@[k] == wu;
                    if k < i {
                    } else if k > i {
                    }
                }
            }
            return v;
        }
        i += 1;
    }
    let last = offered[offered.len() - 1];
    proof {
        assert(offered@.contains(last));
        assert forall|w: nat| #[trigger] is_offered(source_fps as nat, w) implies target < w && last <= w by {
            lemma_offered_bounded(source_fps as nat, w);
            let wu = w as u32;
            assert(offered@.contains(wu));
            let k = choose|k: int| 0 <= k < offered@.len() && offered@[k] == wu;
            if k < offered@.len() - 1 {
                assert(offered@[k] > offered@[offered@.len() - 1]);
            }
        }
    }
    last
}

/// Snapping a rate that is already offered leaves it unchanged.
pub proof fn snapping_an_offered_rate_keeps_it(src: nat, rate: nat, r: nat)
    requires
        is_offered(src, rate),
        is_snap(rate, src, r),
    ensures
        r == rate,
{
    if r <= rate && forall|v: nat| #[trigger] is_offered(src, v) && v <= rate ==> v <= r {
        assert(is_offered(src, rate) && rate <= rate);
    } else {
        assert(is_offered(src, rate));
    }
}

/// When some offered rate lies at or below the target, snapping never moves
/// a request upward.
pub proof fn snapping_never_raises_a_reachable_target(src: nat, target: nat, v: nat, r: nat)
    requires
        is_offered(src, v),
        v <= target,
        is_snap(target, src, r),
    ensures
        v <= r <= target,
{
    assert(is_offered(src, v));
}

// ---------------------------------------------------------------------------
// Geometry
// ---------------------------------------------------------------------------

/// Output width: the requested width, never past the source, at least 2,
/// snapped down to even.
pub open spec fn output_width_spec(src_w: nat, requested_w: nat) -> nat {
    let m = if requested_w < src_w { requested_w } else { src_w };
    let m2 = if m < 2 { 2 } else { m };
    (m2 - m2 % 2) as nat
}

/// Output height for output width `w`: `w * src_h / src_w` rounded to the
/// nearest even number (halves round up), at least 2.
pub open spec fn output_height_spec(src_w: nat, src_h: nat, w: nat) -> nat {
    let h = 2 * ((w * src_h + src_w) / (2 * src_w));
    if h < 2 { 2 } else { h }
}

pub open spec fn output_dimensions_spec(src_w: nat, src_h: nat, requested_w: nat) -> (nat, nat) {
    if src_w == 0 || src_h == 0 {
        (0, 0)
    } else {
        let w = output_width_spec(src_w, requested_w);
        (w, output_height_spec(src_w, src_h, w))
    }
}

proof fn lemma_height_bounds(src_w: nat, src_h: nat, w: nat)
    requires
        src_w > 0,
        w <= src_w + 2,
        src_w < 0x1_0000_0000,
        src_h < 0x1_0000_0000,
        w < 0x1_0000_0000,
    ensures
        w * src_h + src_w < 0x1_0000_0000_0000_0000,
        2 * src_w > 0,
{
    assert(w * src_h <= 0xffff_ffff * 0xffff_ffff) by (nonlinear_arith)
        requires
            w < 0x1_0000_0000,
            src_h < 0x1_0000_0000,
    ;
}

/// Output dimensions for a requested width: never upscaled past the source
/// width, width snapped down to even, height derived from that width and
/// rounded to the nearest even number.
pub fn output_dimensions(src_w: u32, src_h: u32, requested_w: u32) -> (r: (u32, u32))
    requires
        output_dimensions_spec(src_w as nat, src_h as nat, requested_w as nat).1 <= u32::MAX,
    ensures
        (r.0 as nat, r.1 as nat) == output_dimensions_spec(src_w as nat, src_h as nat, requested_w as nat),
{
    if src_w == 0 || src_h == 0 {
        return (0, 0);
    }
    let m: u32 = if requested_w < src_w { requested_w } else { src_w };
    let m2: u32 = if m < 2 { 2 } else { m };
    let w: u32 = m2 - m2 % 2;
    proof {
        lemma_height_bounds(src_w as nat, src_h as nat, w as nat);
    }
    let num: u64 = (w as u64) * (src_h as u64) + (src_w as u64);
    let den: u64 = 2 * (src_w as u64);
    let half: u64 = num / den;
    let h2: u64 = 2 * half;
    let h: u64 = if h2 < 2 { 2 } else { h2 };
    (w, h as u32)
}

/// The output is always an even width and an even height, and the width
/// never exceeds a source of at least 2 pixels.
pub proof fn output_dimensions_are_even_and_not_wider(src_w: nat, src_h: nat, requested_w: nat)
    requires
        src_w > 0,
        src_h > 0,
    ensures
        output_dimensions_spec(src_w, src_h, requested_w).0 % 2 == 0,
        output_dimensions_spec(src_w, src_h, requested_w).1 % 2 == 0,
        output_dimensions_spec(src_w, src_h, requested_w).0 >= 2,
        src_w >= 2 ==> output_dimensions_spec(src_w, src_h, requested_w).0 <= src_w,
        src_w >= 2 ==> output_dimensions_spec(src_w, src_h, requested_w).0 <= requested_w
            || requested_w < 2,
{
}

/// The output height keeps the source aspect ratio to within one pixel: it is
/// within `src_w` of `w * src_h / src_w` scaled by `src_w`, unless the floor
/// of 2 pixels lifted it.
pub proof fn output_height_keeps_the_aspect_ratio(src_w: nat, src_h: nat, w: nat)
    requires
        src_w > 0,
        output_height_spec(src_w, src_h, w) > 2,
    ensures
        output_height_spec(src_w, src_h, w) * src_w <= w * src_h + src_w,
        w * src_h <= output_height_spec(src_w, src_h, w) * src_w + src_w,
{
    let x = w * src_h;
    let q = (x + src_w) / (2 * src_w);
    let h = 2 * q;
    assert(h == output_height_spec(src_w, src_h, w));
    assert(q * (2 * src_w) <= x + src_w < q * (2 * src_w) + 2 * src_w) by (nonlinear_arith)
        requires
            src_w > 0,
            q == (x + src_w) / (2 * src_w),
    ;
    assert(h * src_w == q * (2 * src_w)) by (nonlinear_arith)
        requires
            h == 2 * q,
    ;
}

// ---------------------------------------------------------------------------
// Loop modes, formats, quality, size limits
// ---------------------------------------------------------------------------

/// Frames the encoder writes for loop mode `mode` on a clip of `f` frames
/// with a crossfade of `n` frames.
pub open spec fn output_frame_count_spec(mode: Seq<char>, f: nat, n: nat) -> nat {
    if mode == "trim"@ {
        if f <= 1 { 1 } else { (f - 1) as nat }
    } else if mode == "crossfade"@ {
        if crossfade_available_spec(f, n) { (f - n) as nat } else { f }
    } else if mode == "pingpong"@ {
        if f < 3 { f } else { (2 * f - 2) as nat }
    } else {
        f
    }
}

/// Frames the encoder will actually write for a given loop mode; `none` and
/// any unrecognised mode encode the source verbatim.
pub fn output_frame_count(mode: &str, f: u32, n: u32) -> (r: u32)
    requires
        output_frame_count_spec(mode@, f as nat, n as nat) <= u32::MAX,
    ensures
        r == output_frame_count_spec(mode@, f as nat, n as nat),
{
    let m = chars_of(mode);
    if spells(&m, "trim") {
        if f <= 1 { 1 } else { f - 1 }
    } else if spells(&m, "crossfade") {
        if crossfade_available(f, n) { f - n } else { f }
    } else if spells(&m, "pingpong") {
        if f < 3 { f } else { 2 * (f - 1) }
    } else {
        f
    }
}

pub open spec fn ext_spec(format: Seq<char>) -> Seq<char> {
    if format == "gif"@ {
        "gif"@
    } else if format == "webp"@ {
        "webp"@
    } else if format == "mp4"@ {
        "mp4"@
    } else {
        "avif"@
    }
}

/// On-disk extension for an export format; an unrecognised format resolves
/// to AVIF, the recommended one.
pub fn ext_for(format: &str) -> (r: &'static str)
    ensures
        r@ == ext_spec(format@),
{
    let f = chars_of(format);
    if spells(&f, "gif") {
        "gif"
    } else if spells(&f, "webp") {
        "webp"
    } else if spells(&f, "mp4") {
        "mp4"
    } else {
        "avif"
    }
}

/// libx264 CRF for a 0-100 higher-is-better quality: `34 - q / 5` rounded to
/// the nearest integer (never a tie), with `q` capped at 100.
pub open spec fn crf_spec(quality: nat) -> nat {
    let q = if quality > 100 { 100 } else { quality };
    ((172 - q) as nat) / 5
}

/// Map the UI's 0-100 higher-is-better quality onto libx264's CRF, where
/// lower is better.
pub fn quality_to_crf(quality: u32) -> (r: u32)
    ensures
        r == crf_spec(quality as nat),
        14 <= r <= 34,
{
    let q: u32 = if quality > 100 { 100 } else { quality };
    (172 - q) / 5
}

/// A higher quality never gives a higher (worse) CRF.
pub proof fn crf_never_rises_with_quality(q1: nat, q2: nat)
    requires
        q1 <= q2,
    ensures
        crf_spec(q2) <= crf_spec(q1),
{
    let a = if q1 > 100 { 100 } else { q1 };
    let b = if q2 > 100 { 100 } else { q2 };
    assert(a <= b);
    assert(((172 - b) as nat) / 5 <= ((172 - a) as nat) / 5) by (nonlinear_arith)
        requires
            a <= b <= 100,
    ;
}

pub open spec fn supports_audio_spec(format: Seq<char>, loop_mode: Seq<char>) -> bool {
    format == "mp4"@ && loop_mode != "pingpong"@
}

/// Whether an export keeps the source clip's audio track: only MP4 has one,
/// and ping-pong cannot keep it.
pub fn supports_audio(format: &str, loop_mode: &str) -> (r: bool)
    ensures
        r == supports_audio_spec(format@, loop_mode@),
{
    let f = chars_of(format);
    let l = chars_of(loop_mode);
    let is_mp4 = spells(&f, "mp4");
    let is_pingpong = spells(&l, "pingpong");
    is_mp4 && !is_pingpong
}

pub open spec fn over_size_limit_spec(bytes: nat, target: Seq<char>) -> bool {
    if target == "discord"@ {
        bytes > 20 * 1024 * 1024
    } else if target == "nitro"@ {
        bytes > 500 * 1024 * 1024
    } else {
        false
    }
}

/// Whether a produced file exceeds the selected platform's attachment limit;
/// an unrecognised target never produces a hint.
pub fn over_size_limit(bytes: u64, target: &str) -> (r: bool)
    ensures
        r == over_size_limit_spec(bytes as nat, target@),
{
    let t = chars_of(target);
    if spells(&t, "discord") {
        bytes > 20 * 1024 * 1024
    } else if spells(&t, "nitro") {
        bytes > 500 * 1024 * 1024
    } else {
        false
    }
}

// ---------------------------------------------------------------------------
// One export job
// ---------------------------------------------------------------------------

/// What an export job writes, re-derived from the raw request so that a
/// drifted front end cannot hand the encoder a bad value.
pub struct ExportPlan {
    pub width: u32,
    pub height: u32,
    pub fps: u32,
    pub ext: &'static str,
    /// `{stem}_{width}w_{fps}fps_{loop_mode}.{ext}`: re-exporting the same
    /// settings overwrites rather than piling temp files up.
    pub file_name: String,
    pub keep_audio: bool,
    pub crf: u32,
}

/// Output size for the request: the even-snapped, never-upscaled size when
/// the source's size is known, else the requested width made even and a
/// height left to the decoder (0).
pub open spec fn export_dimensions_spec(source: (u32, u32), width: u32) -> (nat, nat) {
    if source.0 > 0 {
        output_dimensions_spec(source.0 as nat, source.1 as nat, width as nat)
    } else {
        ((width - width % 2) as nat, 0)
    }
}

/// The rate to encode at: the request snapped to what the source offers
/// when the source's rate is known, else the request as it came.
pub open spec fn export_fps_ok(source_fps: Option<u32>, fps: u32, r: nat) -> bool {
    match source_fps {
        Some(s) => is_snap(fps as nat, s as nat, r),
        None => r == fps,
    }
}

pub open spec fn export_file_name_spec(stem: Seq<char>, w: nat, fps: nat, loop_mode: Seq<char>, ext: Seq<char>) -> Seq<char> {
    stem + "_"@ + decimal(w) + "w_"@ + decimal(fps) + "fps_"@ + loop_mode + "."@ + ext
}

/// The planned file name reads back as what was planned: the stem, `_`,
/// the output width in decimal followed by `w_`, the output rate in decimal
/// followed by `fps_`, then the loop mode, `.` and the extension.
pub proof fn export_name_reads_back(stem: Seq<char>, w: nat, fps: nat, loop_mode: Seq<char>, ext: Seq<char>)
    ensures
        ({
            let n = export_file_name_spec(stem, w, fps, loop_mode, ext);
            let a: int = stem.len() as int + 1;
            let b: int = a + decimal(w).len();
            let c: int = b + 2 + decimal(fps).len();
            &&& n.take(stem.len() as int) == stem
            &&& n[stem.len() as int] == '_'
            &&& crate::text::all_digits(n.subrange(a, b)) && crate::text::digits_value(n.subrange(a, b)) == w
            &&& n.subrange(b, b + 2) == "w_"@
            &&& crate::text::all_digits(n.subrange(b + 2, c)) && crate::text::digits_value(n.subrange(b + 2, c)) == fps
            &&& n.subrange(c, c + 4) == "fps_"@
            &&& n.skip(c + 4) == loop_mode + "."@ + ext
        }),
{
    reveal_strlit("_");
    reveal_strlit("w_");
    reveal_strlit("fps_");
    crate::settings::lemma_decimal_spells(w);
    crate::settings::lemma_decimal_spells(fps);
    let n = export_file_name_spec(stem, w, fps, loop_mode, ext);
    let dw = decimal(w);
    let df = decimal(fps);
    let a: int = stem.len() as int + 1;
    let b: int = a + dw.len();
    let c: int = b + 2 + df.len();
    assert(n =~= stem + seq!['_'] + dw + seq!['w', '_'] + df + "fps_"@ + (loop_mode + "."@ + ext));
    assert(n.take(stem.len() as int) =~= stem);
    assert(n.subrange(a, b) =~= dw);
    assert(n.subrange(b, b + 2) =~= "w_"@);
    assert(n.subrange(b + 2, c) =~= df);
    assert(n.subrange(c, c + 4) =~= "fps_"@);
    assert(n.skip(c + 4) =~= loop_mode + "."@ + ext);
}

/// Plan an export of a source clip named `stem` whose size and rate the
/// gallery index knows (`(0, 0)` and `None` when it does not).
pub fn plan_export(
    stem: &str,
    source_dims: (u32, u32),
    source_fps: Option<u32>,
    format: &str,
    fps: u32,
    width: u32,
    quality: u32,
    loop_mode: &str,
    keep_audio: bool,
) -> (r: ExportPlan)
    requires
        export_dimensions_spec(source_dims, width).1 <= u32::MAX,
    ensures
        (r.width as nat, r.height as nat) == export_dimensions_spec(source_dims, width),
        export_fps_ok(source_fps, fps, r.fps as nat),
        r.ext@ == ext_spec(format@),
        r.file_name@ == export_file_name_spec(stem@, r.width as nat, r.fps as nat, loop_mode@, r.ext@),
        r.keep_audio == (keep_audio && supports_audio_spec(r.ext@, loop_mode@)),
        r.crf == crf_spec(quality as nat),
{
    let (w, h) = if source_dims.0 > 0 {
        output_dimensions(source_dims.0, source_dims.1, width)
    } else {
        (width - width % 2, 0)
    };
    let out_fps = match source_fps {
        Some(s) => snap_fps(fps, s),
        None => fps,
    };
    let ext = ext_for(format);
    let mut name: Vec<char> = Vec::new();
    push_str(&mut name, stem);
    push_str(&mut name, "_");
    push_all(&mut name, &decimal_of(w as u64));
    push_str(&mut name, "w_");
    push_all(&mut name, &decimal_of(out_fps as u64));
    push_str(&mut name, "fps_");
    push_str(&mut name, loop_mode);
    push_str(&mut name, ".");
    push_str(&mut name, ext);
    let audio = keep_audio && supports_audio(ext, loop_mode);
    ExportPlan {
        width: w,
        height: h,
        fps: out_fps,
        ext,
        file_name: string_of(&name),
        keep_audio: audio,
        crf: quality_to_crf(quality),
    }
}

// ---------------------------------------------------------------------------
// Export capability
// ---------------------------------------------------------------------------

/// Whether the venv can export, and why not.
pub struct ExportCapability {
    pub available: bool,
    pub reason: Option<String>,
    pub mp4: bool,
}

/// The trailing run of non-white-space characters of `t`.
pub open spec fn word_tail(t: Seq<char>) -> Seq<char>
    decreases t.len(),
{
    if t.len() == 0 || is_ws(t.last()) {
        Seq::<char>::empty()
    } else {
        word_tail(t.drop_last()).push(t.last())
    }
}

/// The last white-space-separated word of `s`, if any.
pub open spec fn last_word(s: Seq<char>) -> Option<Seq<char>> {
    let t = trim_end(s);
    if t.len() == 0 { None } else { Some(word_tail(t)) }
}

/// What the export probe's outcome means: on success, MP4 export is offered
/// only when the last word printed is `1`; on failure, the reason is the
/// last line of its stderr.
pub open spec fn capability_spec(success: bool, stdout: Seq<char>, stderr: Seq<char>) -> (bool, Option<Seq<char>>, bool) {
    if success {
        (true, None, last_word(stdout) == Some("1"@))
    } else {
        let lines = std_lines(stderr);
        (false, Some(if lines.len() > 0 { lines.last() } else { "unknown import failure"@ }), false)
    }
}

pub open spec fn capability_view(c: ExportCapability) -> (bool, Option<Seq<char>>, bool) {
    (c.available, match c.reason { Some(r) => Some(r@), None => None }, c.mp4)
}

/// The trailing word of `t`, which ends in a non-space character.
fn tail_word(t: &Vec<char>) -> (r: Vec<char>)
    ensures
        r@ == word_tail(t@),
{
    let mut start: usize = t.len();
    assert(t@.skip(t.len() as int) =~= Seq::<char>::empty());
    assert(t@.take(t.len() as int) =~= t@);
    assert(word_tail(t@) =~= word_tail(t@.take(start as int)) + t@.skip(start as int));
    while start > 0 && !crate::text::char_is_ws(t[start - 1])
        invariant
            start <= t.len(),
            word_tail(t@) == word_tail(t@.take(start as int)) + t@.skip(start as int),
        decreases start,
    {
        assert(t@.take(start as int).drop_last() =~= t@.take(start - 1));
        assert(t@.skip(start - 1) =~= seq![t@[start - 1]] + t@.skip(start as int));
        start -= 1;
    }
    proof {
        if start > 0 {
            assert(t@.take(start as int).last() == t@[start - 1]);
        }
    }
    let r = crate::text::copy_range(t, start, t.len());
    assert(r@ =~= t@.skip(start as int));
    r
}

/// Whether the last word of `s` is `1`.
fn last_word_is_one(s: &str) -> (r: bool)
    ensures
        r == (last_word(s@) == Some("1"@)),
{
    let t = crate::text::trim_end_chars(&chars_of(s));
    if t.len() == 0 {
        return false;
    }
    let w = tail_word(&t);
    spells(&w, "1")
}

/// The capability the probe's outcome shows.
pub fn export_capability(success: bool, stdout: &str, stderr: &str) -> (r: ExportCapability)
    ensures
        capability_view(r) == capability_spec(success, stdout@, stderr@),
{
    if success {
        ExportCapability { available: true, reason: None, mp4: last_word_is_one(stdout) }
    } else {
        let lines = lines_of(&chars_of(stderr));
        let reason = if lines.len() > 0 {
            string_of(&lines[lines.len() - 1])
        } else {
            string_of(&chars_of("unknown import failure"))
        };
        proof {
            if lines.len() > 0 {
                assert(crate::text::views(lines@).last() == lines@[lines.len() - 1]@);
            }
        }
        ExportCapability { available: false, reason: Some(reason), mp4: false }
    }
}

/// The capability when the probe could not run at all.
pub fn export_unavailable(reason: String) -> (r: ExportCapability)
    ensures
        !r.available,
        !r.mp4,
        r.reason matches Some(s) && s@ == reason@,
{
    ExportCapability { available: false, reason: Some(reason), mp4: false }
}

} // verus!
