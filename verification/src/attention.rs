//! SageAttention v2 install resolution: reading the venv's PyTorch build,
//! parsing the community Windows wheel file names, and choosing the best
//! prebuilt wheel for a build.
use vstd::prelude::*;
use crate::text::{
    chars_of, copy_range, decimal, decimal_of, ends, ends_with, find, find_spec, spells,
    parse_u32, parse_unsigned, push_all, push_str, split_chars, split_on, split_once_chars,
    split_once_spec, starts, starts_with, string_of, trim, trim_chars, views, join_with,
    last_lines_joined, last_n, std_lines,
};

verus! {

/// Pinned upstream source spec, compiled with nvcc on non-Windows platforms.
pub const SAGE2_LINUX_GIT_SPEC: &'static str = "git+https://github.com/thu-ml/SageAttention.git@v2.2.0";

// ---------------------------------------------------------------------------
// Version numbers
// ---------------------------------------------------------------------------

/// `str::parse::<u32>` on the text `s`.
pub open spec fn u32_spec(s: Seq<char>) -> Option<u32> {
    match parse_unsigned(s, u32::MAX as nat) {
        Some(v) => Some(v as u32),
        None => None,
    }
}

/// `"2.9.1"` is `(2, 9, 1)`; a missing patch component is 0; more than three
/// components, or any that is not a `u32`, is no version.
pub open spec fn version3_spec(s: Seq<char>) -> Option<(u32, u32, u32)> {
    let parts = split_on(s, '.');
    if parts.len() < 2 || parts.len() > 3 {
        None
    } else {
        let patch = if parts.len() == 3 { u32_spec(parts[2]) } else { Some(0u32) };
        match (u32_spec(parts[0]), u32_spec(parts[1]), patch) {
            (Some(a), Some(b), Some(c)) => Some((a, b, c)),
            _ => None,
        }
    }
}

/// `"3.11"` is `(3, 11)`: the text around the first `.`, each a `u32`.
pub open spec fn version2_spec(s: Seq<char>) -> Option<(u32, u32)> {
    match split_once_spec(s, '.') {
        Some((a, b)) => match (u32_spec(a), u32_spec(b)) {
            (Some(x), Some(y)) => Some((x, y)),
            _ => None,
        },
        None => None,
    }
}

/// Whether `parse_cp_tag` would slice its input inside a character: a `cp`
/// tag whose first version character is not ASCII.
pub open spec fn cp_tag_panics(s: Seq<char>) -> bool {
    starts_with(s, "cp"@) && s.len() > 2 && (s[2] as u32) >= 128
}

/// `"cp310"` is `(3, 10)`: the first digit after `cp` is the major version,
/// the rest the minor one.
pub open spec fn cp_tag_spec(s: Seq<char>) -> Option<(u32, u32)> {
    if !starts_with(s, "cp"@) {
        None
    } else {
        let d = s.skip(2);
        if d.len() < 2 {
            None
        } else {
            match (u32_spec(d.take(1)), u32_spec(d.skip(1))) {
                (Some(a), Some(b)) => Some((a, b)),
                _ => None,
            }
        }
    }
}

fn u32_of(s: &[char]) -> (r: Option<u32>)
    ensures
        r == u32_spec(s@),
{
    match parse_u32(s) {
        Some(v) => Some(v),
        None => None,
    }
}

fn version3_of(s: &[char]) -> (r: Option<(u32, u32, u32)>)
    ensures
        r == version3_spec(s@),
{
    let parts = split_chars(s, '.');
    let ghost ps = split_on(s@, '.');
    assert(views(parts@) == ps);
    if parts.len() < 2 || parts.len() > 3 {
        return None;
    }
    assert(parts@[0]@ == ps[0]);
    assert(parts@[1]@ == ps[1]);
    let major = match u32_of(&parts[0]) {
        Some(v) => v,
        None => return None,
    };
    let minor = match u32_of(&parts[1]) {
        Some(v) => v,
        None => return None,
    };
    let patch = if parts.len() == 3 {
        assert(parts@[2]@ == ps[2]);
        match u32_of(&parts[2]) {
            Some(v) => v,
            None => return None,
        }
    } else {
        0
    };
    Some((major, minor, patch))
}

fn version2_of(s: &[char]) -> (r: Option<(u32, u32)>)
    ensures
        r == version2_spec(s@),
{
    match split_once_chars(s, '.') {
        Some((a, b)) => {
            let x = match u32_of(&a) {
                Some(v) => v,
                None => return None,
            };
            let y = match u32_of(&b) {
                Some(v) => v,
                None => return None,
            };
            Some((x, y))
        },
        None => None,
    }
}

fn cp_tag_of(s: &[char]) -> (r: Option<(u32, u32)>)
    requires
        !cp_tag_panics(s@),
    ensures
        r == cp_tag_spec(s@),
{
    if !starts(s, "cp") {
        return None;
    }
    proof { reveal_strlit("cp"); }
    let n = s.len();
    let d = copy_range(s, 2, n);
    assert(d@ =~= s@.skip(2));
    if d.len() < 2 {
        return None;
    }
    let first = copy_range(&d, 0, 1);
    let rest = copy_range(&d, 1, d.len());
    assert(first@ =~= d@.take(1));
    assert(rest@ =~= d@.skip(1));
    let a = match u32_of(&first) {
        Some(v) => v,
        None => return None,
    };
    let b = match u32_of(&rest) {
        Some(v) => v,
        None => return None,
    };
    Some((a, b))
}

/// "2.9.1" → (2, 9, 1); a missing patch component defaults to 0.
pub fn parse_version3(s: &str) -> (r: Option<(u32, u32, u32)>)
    ensures
        r == version3_spec(s@),
{
    let c = chars_of(s);
    version3_of(&c)
}

/// "3.11" → (3, 11)
pub fn parse_version2(s: &str) -> (r: Option<(u32, u32)>)
    ensures
        r == version2_spec(s@),
{
    let c = chars_of(s);
    version2_of(&c)
}

/// "cp310" → (3, 10). CPython major versions are single-digit.
pub fn parse_cp_tag(s: &str) -> (r: Option<(u32, u32)>)
    requires
        !cp_tag_panics(s@),
    ensures
        r == cp_tag_spec(s@),
{
    let c = chars_of(s);
    cp_tag_of(&c)
}

// ---------------------------------------------------------------------------
// Wheel file names
// ---------------------------------------------------------------------------

/// Compatibility metadata parsed from a wheel file name such as
/// `sageattention-2.2.0+cu128torch2.9.1.post6-cp310-abi3-win_amd64.whl` or
/// `sageattention-2.2.0+cu128torch2.10.0andhigher.post6-cp310-abi3-win_amd64.whl`.
pub struct WheelInfo {
    pub sage: (u32, u32, u32),
    pub cuda: String,
    pub torch: (u32, u32, u32),
    pub and_higher: bool,
    pub post: u32,
    pub py_floor: (u32, u32),
}

pub struct WheelInfoView {
    pub sage: (u32, u32, u32),
    pub cuda: Seq<char>,
    pub torch: (u32, u32, u32),
    pub and_higher: bool,
    pub post: u32,
    pub py_floor: (u32, u32),
}

impl View for WheelInfo {
    type V = WheelInfoView;

    open spec fn view(&self) -> WheelInfoView {
        WheelInfoView {
            sage: self.sage,
            cuda: self.cuda@,
            torch: self.torch,
            and_higher: self.and_higher,
            post: self.post,
            py_floor: self.py_floor,
        }
    }
}

/// The name between `sageattention-` and `.whl`, if it has both.
pub open spec fn wheel_stem(name: Seq<char>) -> Option<Seq<char>> {
    if starts_with(name, "sageattention-"@) {
        let r = name.skip("sageattention-"@.len() as int);
        if ends_with(r, ".whl"@) {
            Some(r.take(r.len() - ".whl"@.len()))
        } else {
            None
        }
    } else {
        None
    }
}

/// The `-`-separated tags of a wheel stem are exactly
/// `{version}-{python}-abi3-win_amd64`.
pub open spec fn wheel_tags_ok(parts: Seq<Seq<char>>) -> bool {
    parts.len() == 4 && parts[3] == "win_amd64"@ && parts[2] == "abi3"@
}

/// Whether `parse_wheel_name` would slice inside a character of `name`.
pub open spec fn wheel_name_panics(name: Seq<char>) -> bool {
    match wheel_stem(name) {
        Some(rest) => {
            let parts = split_on(rest, '-');
            wheel_tags_ok(parts) && cp_tag_panics(parts[1])
        },
        None => false,
    }
}

/// What follows `torch` in the local version: the torch version, an
/// optional `andhigher` marker and an optional `.post{N}` release.
pub open spec fn torch_tail_spec(tail: Seq<char>) -> Option<((u32, u32, u32), bool, u32)> {
    let (post, torch_part) = match find_spec(tail, ".post"@) {
        Some(idx) => (u32_spec(tail.skip(idx + 5)), tail.take(idx)),
        None => (Some(0u32), tail),
    };
    match post {
        None => None,
        Some(post) => {
            let and_higher = ends_with(torch_part, "andhigher"@);
            let torch_str = if and_higher {
                torch_part.take(torch_part.len() - 9)
            } else {
                torch_part
            };
            match version3_spec(torch_str) {
                Some(torch) => Some((torch, and_higher, post)),
                None => None,
            }
        },
    }
}

/// The metadata of a SageAttention 2.x Windows wheel file name, laid out as
/// `sageattention-{sage}+cu{cuda}torch{torch}[andhigher][.post{N}]-cp{XY}-abi3-win_amd64.whl`.
pub open spec fn wheel_spec(name: Seq<char>) -> Option<WheelInfoView> {
    match wheel_stem(name) {
        None => None,
        Some(rest) => {
            let parts = split_on(rest, '-');
            if !wheel_tags_ok(parts) {
                None
            } else {
                match (cp_tag_spec(parts[1]), split_once_spec(parts[0], '+')) {
                    (Some(py_floor), Some((sage_str, local))) => match version3_spec(sage_str) {
                        Some(sage) => if sage.0 != 2 || !starts_with(local, "cu"@) {
                            None
                        } else {
                            let l = local.skip(2);
                            match find_spec(l, "torch"@) {
                                Some(tp) => match torch_tail_spec(l.skip(tp + 5)) {
                                    Some((torch, and_higher, post)) => Some(WheelInfoView {
                                        sage,
                                        cuda: "cu"@ + l.take(tp),
                                        torch,
                                        and_higher,
                                        post,
                                        py_floor,
                                    }),
                                    None => None,
                                },
                                None => None,
                            }
                        },
                        None => None,
                    },
                    _ => None,
                }
            }
        },
    }
}

fn torch_tail_of(tail: &[char]) -> (r: Option<((u32, u32, u32), bool, u32)>)
    ensures
        r == torch_tail_spec(tail@),
{
    proof {
        reveal_strlit(".post");
        reveal_strlit("andhigher");
    }
    let post_pat = chars_of(".post");
    let n = tail.len();
    let (post, torch_part) = match find(tail, &post_pat) {
        Some(idx) => {
            assert(crate::text::occurs_at(tail@, post_pat@, idx as int));
            let digits = copy_range(tail, idx + 5, n);
            assert(digits@ =~= tail@.skip(idx + 5));
            let p = match u32_of(&digits) {
                Some(v) => v,
                None => return None,
            };
            let t = copy_range(tail, 0, idx);
            assert(t@ =~= tail@.take(idx as int));
            (p, t)
        },
        None => {
            let t = copy_range(tail, 0, n);
            assert(t@ =~= tail@);
            (0u32, t)
        },
    };
    let and_higher = ends(&torch_part, "andhigher");
    let torch_str = if and_higher {
        let t = copy_range(&torch_part, 0, torch_part.len() - 9);
        assert(t@ =~= torch_part@.take(torch_part@.len() - 9));
        t
    } else {
        torch_part
    };
    match version3_of(&torch_str) {
        Some(torch) => Some((torch, and_higher, post)),
        None => None,
    }
}

/// Parse the compatibility metadata out of a wheel file name.
pub fn parse_wheel_name(name: &str) -> (r: Option<WheelInfo>)
    requires
        !wheel_name_panics(name@),
    ensures
        match r {
            Some(w) => wheel_spec(name@) == Some(w@),
            None => wheel_spec(name@) is None,
        },
{
    proof {
        reveal_strlit("sageattention-");
        reveal_strlit(".whl");
        reveal_strlit("cu");
        reveal_strlit("torch");
    }
    let all = chars_of(name);
    if !starts(&all, "sageattention-") {
        return None;
    }
    let n = all.len();
    let r1 = copy_range(&all, 14, n);
    assert(r1@ =~= all@.skip(14));
    if !ends(&r1, ".whl") {
        return None;
    }
    let rest = copy_range(&r1, 0, r1.len() - 4);
    assert(rest@ =~= r1@.take(r1@.len() - 4));
    let parts = split_chars(&rest, '-');
    let ghost ps = split_on(rest@, '-');
    assert(views(parts@) == ps);
    if parts.len() != 4 || !spells(&parts[3], "win_amd64") || !spells(&parts[2], "abi3") {
        proof {
            if parts.len() == 4 {
                assert(parts@[3]@ == ps[3]);
                assert(parts@[2]@ == ps[2]);
            }
        }
        return None;
    }
    assert(parts@[3]@ == ps[3]);
    assert(parts@[2]@ == ps[2]);
    assert(parts@[1]@ == ps[1]);
    assert(parts@[0]@ == ps[0]);
    let py_floor = match cp_tag_of(&parts[1]) {
        Some(v) => v,
        None => return None,
    };
    let (sage_str, local) = match split_once_chars(&parts[0], '+') {
        Some(p) => p,
        None => return None,
    };
    let sage = match version3_of(&sage_str) {
        Some(v) => v,
        None => return None,
    };
    if sage.0 != 2 || !starts(&local, "cu") {
        return None;
    }
    let ln = local.len();
    let l = copy_range(&local, 2, ln);
    assert(l@ =~= local@.skip(2));
    let torch_pat = chars_of("torch");
    let tp = match find(&l, &torch_pat) {
        Some(k) => k,
        None => return None,
    };
    assert(crate::text::occurs_at(l@, torch_pat@, tp as int));
    let lnn = l.len();
    let tail = copy_range(&l, tp + 5, lnn);
    assert(tail@ =~= l@.skip(tp + 5));
    let (torch, and_higher, post) = match torch_tail_of(&tail) {
        Some(t) => t,
        None => return None,
    };
    let mut cuda_chars: Vec<char> = Vec::new();
    push_str(&mut cuda_chars, "cu");
    let cuda_digits = copy_range(&l, 0, tp);
    push_all(&mut cuda_chars, &cuda_digits);
    assert(cuda_chars@ =~= "cu"@ + l@.take(tp as int));
    let cuda = string_of(&cuda_chars);
    Some(WheelInfo { sage, cuda, torch, and_higher, post, py_floor })
}

// ---------------------------------------------------------------------------
// The venv's PyTorch build
// ---------------------------------------------------------------------------

/// The venv's installed PyTorch build, as needed to pick a compatible wheel.
#[derive(Debug)]
pub struct TorchBuild {
    pub torch: (u32, u32, u32),
    /// CUDA tag from torch's local version, e.g. "cu128".
    pub cuda: String,
    pub python: (u32, u32),
}

pub struct TorchBuildView {
    pub torch: (u32, u32, u32),
    pub cuda: Seq<char>,
    pub python: (u32, u32),
}

impl View for TorchBuild {
    type V = TorchBuildView;

    open spec fn view(&self) -> TorchBuildView {
        TorchBuildView { torch: self.torch, cuda: self.cuda@, python: self.python }
    }
}

/// `torch {a}.{b}.{c}+{cuda}, Python {x}.{y}`.
pub open spec fn describe_spec(b: TorchBuildView) -> Seq<char> {
    "torch "@ + decimal(b.torch.0 as nat) + "."@ + decimal(b.torch.1 as nat) + "."@
        + decimal(b.torch.2 as nat) + "+"@ + b.cuda + ", Python "@ + decimal(b.python.0 as nat)
        + "."@ + decimal(b.python.1 as nat)
}

impl TorchBuild {
    pub fn describe(&self) -> (r: String)
        ensures
            r@ == describe_spec(self@),
    {
        let mut v: Vec<char> = Vec::new();
        push_str(&mut v, "torch ");
        push_all(&mut v, &decimal_of(self.torch.0 as u64));
        push_str(&mut v, ".");
        push_all(&mut v, &decimal_of(self.torch.1 as u64));
        push_str(&mut v, ".");
        push_all(&mut v, &decimal_of(self.torch.2 as u64));
        push_str(&mut v, "+");
        push_all(&mut v, &chars_of(self.cuda.as_str()));
        push_str(&mut v, ", Python ");
        push_all(&mut v, &decimal_of(self.python.0 as u64));
        push_str(&mut v, ".");
        push_all(&mut v, &decimal_of(self.python.1 as u64));
        assert(v@ =~= describe_spec(self@));
        string_of(&v)
    }
}

/// Line `k` of `out` as `str::lines` yields it, trimmed; empty past the end.
pub open spec fn line_spec(out: Seq<char>, k: int) -> Seq<char> {
    let pieces = split_on(out, '\n');
    if 0 <= k < pieces.len() {
        trim(pieces[k])
    } else {
        Seq::<char>::empty()
    }
}

/// The build that the probe's output (`torch.__version__`, then the Python
/// `major.minor`) describes, or the user-facing reason it describes none.
pub open spec fn torch_probe_spec(out: Seq<char>) -> Result<TorchBuildView, Seq<char>> {
    let tv = line_spec(out, 0);
    let pv = line_spec(out, 1);
    let (torch_part, local) = match split_once_spec(tv, '+') {
        Some(p) => p,
        None => (tv, Seq::<char>::empty()),
    };
    if !starts_with(local, "cu"@) {
        Err("the venv's PyTorch ("@ + tv
            + ") is not a CUDA build; SageAttention v2 requires CUDA PyTorch"@)
    } else {
        match version3_spec(torch_part) {
            None => Err("could not parse the venv's PyTorch version: "@ + tv),
            Some(torch) => match version2_spec(pv) {
                None => Err("could not parse the venv's Python version: "@ + pv),
                Some(python) => Ok(TorchBuildView { torch, cuda: local, python }),
            },
        }
    }
}

/// Text made of a literal, some characters and a second literal.
fn framed(pre: &str, mid: &[char], post: &str) -> (r: String)
    ensures
        r@ == pre@ + mid@ + post@,
{
    let mut v: Vec<char> = Vec::new();
    push_str(&mut v, pre);
    push_all(&mut v, mid);
    push_str(&mut v, post);
    string_of(&v)
}

/// Read the venv's PyTorch build from what the probe printed: the torch
/// version on the first line and the interpreter's `major.minor` on the
/// second. Errors are user-facing strings.
pub fn parse_torch_probe(out: &str) -> (r: Result<TorchBuild, String>)
    ensures
        match r {
            Ok(b) => torch_probe_spec(out@) == Ok::<TorchBuildView, Seq<char>>(b@),
            Err(e) => torch_probe_spec(out@) == Err::<TorchBuildView, Seq<char>>(e@),
        },
{
    proof { reveal_strlit(""); }
    let all = chars_of(out);
    let pieces = split_chars(&all, '\n');
    let ghost ps = split_on(all@, '\n');
    assert(views(pieces@) == ps);
    let tv: Vec<char> = if pieces.len() > 0 {
        assert(pieces@[0]@ == ps[0]);
        trim_chars(&pieces[0])
    } else {
        Vec::new()
    };
    let pv: Vec<char> = if pieces.len() > 1 {
        assert(pieces@[1]@ == ps[1]);
        trim_chars(&pieces[1])
    } else {
        Vec::new()
    };
    assert(tv@ =~= line_spec(out@, 0));
    assert(pv@ =~= line_spec(out@, 1));
    let (torch_part, local) = match split_once_chars(&tv, '+') {
        Some(p) => p,
        None => {
            let n = tv.len();
            let whole = copy_range(&tv, 0, n);
            assert(whole@ =~= tv@);
            (whole, Vec::new())
        },
    };
    if !starts(&local, "cu") {
        return Err(framed(
            "the venv's PyTorch (",
            &tv,
            ") is not a CUDA build; SageAttention v2 requires CUDA PyTorch",
        ));
    }
    let torch = match version3_of(&torch_part) {
        Some(t) => t,
        None => return Err(framed("could not parse the venv's PyTorch version: ", &tv, "")),
    };
    let python = match version2_of(&pv) {
        Some(p) => p,
        None => return Err(framed("could not parse the venv's Python version: ", &pv, "")),
    };
    Ok(TorchBuild { torch, cuda: string_of(&local), python })
}

// ---------------------------------------------------------------------------
// Choosing a wheel
// ---------------------------------------------------------------------------

/// How well a wheel fits a build: (compatibility category, SageAttention
/// version, post release, torch version), compared lexicographically, higher
/// is better.
pub type WheelRank = (u8, (u32, u32, u32), u32, (u32, u32, u32));

pub open spec fn lt2(a: (u32, u32), b: (u32, u32)) -> bool {
    a.0 < b.0 || (a.0 == b.0 && a.1 < b.1)
}

pub open spec fn lt3(a: (u32, u32, u32), b: (u32, u32, u32)) -> bool {
    a.0 < b.0 || (a.0 == b.0 && (a.1 < b.1 || (a.1 == b.1 && a.2 < b.2)))
}

/// The lexicographic order of ranks (the order of Rust tuples).
pub open spec fn rank_lt(a: WheelRank, b: WheelRank) -> bool {
    ||| a.0 < b.0
    ||| (a.0 == b.0 && lt3(a.1, b.1))
    ||| (a.0 == b.0 && a.1 == b.1 && a.2 < b.2)
    ||| (a.0 == b.0 && a.1 == b.1 && a.2 == b.2 && lt3(a.3, b.3))
}

/// A wheel's rank for a build, or `None` when it cannot be installed there:
/// the CUDA tag must match and the wheel's Python floor must not exceed the
/// interpreter. An exact torch match ranks 2, a same-`major.minor` match 1,
/// and an "andhigher" wheel whose torch floor is at or below the installed
/// torch ranks 0.
pub open spec fn rank_spec(w: WheelInfoView, b: TorchBuildView) -> Option<WheelRank> {
    if w.cuda != b.cuda || lt2(b.python, w.py_floor) {
        None
    } else if w.and_higher {
        if lt3(b.torch, w.torch) {
            None
        } else {
            Some((0u8, w.sage, w.post, w.torch))
        }
    } else if w.torch == b.torch {
        Some((2u8, w.sage, w.post, w.torch))
    } else if w.torch.0 == b.torch.0 && w.torch.1 == b.torch.1 {
        Some((1u8, w.sage, w.post, w.torch))
    } else {
        None
    }
}

fn lt2_of(a: (u32, u32), b: (u32, u32)) -> (r: bool)
    ensures
        r == lt2(a, b),
{
    a.0 < b.0 || (a.0 == b.0 && a.1 < b.1)
}

fn lt3_of(a: (u32, u32, u32), b: (u32, u32, u32)) -> (r: bool)
    ensures
        r == lt3(a, b),
{
    a.0 < b.0 || (a.0 == b.0 && (a.1 < b.1 || (a.1 == b.1 && a.2 < b.2)))
}

fn eq3_of(a: (u32, u32, u32), b: (u32, u32, u32)) -> (r: bool)
    ensures
        r == (a == b),
{
    a.0 == b.0 && a.1 == b.1 && a.2 == b.2
}

fn rank_lt_of(a: WheelRank, b: WheelRank) -> (r: bool)
    ensures
        r == rank_lt(a, b),
{
    if a.0 != b.0 {
        return a.0 < b.0;
    }
    if !eq3_of(a.1, b.1) {
        return lt3_of(a.1, b.1);
    }
    if a.2 != b.2 {
        return a.2 < b.2;
    }
    lt3_of(a.3, b.3)
}

/// The rank of a wheel for a build.
pub fn rank_wheel(info: &WheelInfo, build: &TorchBuild) -> (r: Option<WheelRank>)
    ensures
        r == rank_spec(info@, build@),
{
    if info.cuda != build.cuda || lt2_of(build.python, info.py_floor) {
        return None;
    }
    if info.and_higher {
        if lt3_of(build.torch, info.torch) {
            return None;
        }
        Some((0u8, info.sage, info.post, info.torch))
    } else if eq3_of(info.torch, build.torch) {
        Some((2u8, info.sage, info.post, info.torch))
    } else if info.torch.0 == build.torch.0 && info.torch.1 == build.torch.1 {
        Some((1u8, info.sage, info.post, info.torch))
    } else {
        None
    }
}

/// A prebuilt wheel picked from the release assets.
pub struct ResolvedWheel {
    pub url: String,
    pub file_name: String,
}

/// The rank of a release asset named `name` for a build: `None` when the name
/// is no SageAttention 2.x Windows wheel or the wheel does not fit the build.
pub open spec fn asset_rank(name: Seq<char>, b: TorchBuildView) -> Option<WheelRank> {
    match wheel_spec(name) {
        Some(w) => rank_spec(w, b),
        None => None,
    }
}

pub open spec fn ranks_of(c: Seq<ResolvedWheel>, b: TorchBuildView) -> Seq<Option<WheelRank>> {
    Seq::new(c.len(), |i: int| asset_rank(c[i].file_name@, b))
}

/// Entry `i` has the highest rank of all, and no earlier entry ties it.
pub open spec fn first_best(ranks: Seq<Option<WheelRank>>, i: int) -> bool {
    &&& 0 <= i < ranks.len()
    &&& ranks[i] is Some
    &&& forall|j: int| 0 <= j < i && #[trigger] ranks[j] is Some ==> rank_lt(ranks[j]->0, ranks[i]->0)
    &&& forall|j: int| i < j < ranks.len() && #[trigger] ranks[j] is Some ==> !rank_lt(ranks[i]->0, ranks[j]->0)
}

proof fn lemma_rank_order(a: WheelRank, b: WheelRank, c: WheelRank)
    ensures
        rank_lt(a, b) && rank_lt(b, c) ==> rank_lt(a, c),
        !rank_lt(a, b) && a != b ==> rank_lt(b, a),
        !rank_lt(a, a),
{
}

/// Whether `parse_wheel_name` can read `name` without slicing inside a
/// character.
pub fn wheel_name_slices_cleanly(name: &str) -> (r: bool)
    ensures
        r == !wheel_name_panics(name@),
{
    proof {
        reveal_strlit("sageattention-");
        reveal_strlit(".whl");
        reveal_strlit("cp");
    }
    let all = chars_of(name);
    if !starts(&all, "sageattention-") {
        return true;
    }
    let n = all.len();
    let r1 = copy_range(&all, 14, n);
    assert(r1@ =~= all@.skip(14));
    if !ends(&r1, ".whl") {
        return true;
    }
    let rest = copy_range(&r1, 0, r1.len() - 4);
    assert(rest@ =~= r1@.take(r1@.len() - 4));
    let parts = split_chars(&rest, '-');
    let ghost ps = split_on(rest@, '-');
    assert(views(parts@) == ps);
    if parts.len() != 4 {
        return true;
    }
    assert(parts@[3]@ == ps[3]);
    assert(parts@[2]@ == ps[2]);
    assert(parts@[1]@ == ps[1]);
    let platform_ok = spells(&parts[3], "win_amd64");
    let abi_ok = spells(&parts[2], "abi3");
    if !platform_ok || !abi_ok {
        return true;
    }
    let tag = &parts[1];
    let cp = starts(tag, "cp");
    !(cp && tag.len() > 2 && (tag[2] as u32) >= 128)
}

/// Find the best prebuilt Windows wheel for `build` among the release
/// assets, given in release order with their download URLs.
///
/// Preference order: exact torch version match, then same torch
/// major.minor, then the highest "andhigher" floor at or below the installed
/// torch; ties break toward newer SageAttention versions and higher post
/// releases, and then toward the asset listed first.
pub fn select_wheel(candidates: &[ResolvedWheel], build: &TorchBuild) -> (r: Option<ResolvedWheel>)
    requires
        forall|i: int| 0 <= i < candidates@.len() ==> !wheel_name_panics(#[trigger] candidates@[i].file_name@),
    ensures
        match r {
            None => forall|i: int| 0 <= i < candidates@.len() ==> #[trigger] asset_rank(candidates@[i].file_name@, build@) is None,
            Some(w) => exists|i: int| first_best(ranks_of(candidates@, build@), i)
                && w.file_name@ == (#[trigger] candidates@[i]).file_name@ && w.url@ == candidates@[i].url@,
        },
{
    let ghost ranks = ranks_of(candidates@, build@);
    let mut best: Option<(WheelRank, usize)> = None;
    let mut i: usize = 0;
    while i < candidates.len()
        invariant
            i <= candidates.len(),
            ranks == ranks_of(candidates@, build@),
            forall|k: int| 0 <= k < candidates@.len() ==> !wheel_name_panics(#[trigger] candidates@[k].file_name@),
            best is None ==> forall|j: int| 0 <= j < i ==> #[trigger] ranks[j] is None,
            best matches Some((rk, bi)) ==> {
                &&& bi < i
                &&& ranks[bi as int] == Some(rk)
                &&& forall|j: int| 0 <= j < bi && #[trigger] ranks[j] is Some ==> rank_lt(ranks[j]->0, rk)
                &&& forall|j: int| bi < j < i && #[trigger] ranks[j] is Some ==> !rank_lt(rk, ranks[j]->0)
            },
        decreases candidates.len() - i,
    {
        let rank = match parse_wheel_name(candidates[i].file_name.as_str()) {
            Some(info) => rank_wheel(&info, build),
            None => None,
        };
        assert(rank == ranks[i as int]);
        match rank {
            Some(r) => {
                let better = match best {
                    None => true,
                    Some((b, _)) => rank_lt_of(b, r),
                };
                if better {
                    proof {
                        if let Some((rk, bi)) = best {
                            assert forall|j: int| 0 <= j < i && #[trigger] ranks[j] is Some implies rank_lt(ranks[j]->0, r) by {
                                lemma_rank_order(ranks[j]->0, rk, r);
                            }
                        }
                    }
                    best = Some((r, i));
                }
            },
            None => {},
        }
        i += 1;
    }
    match best {
        None => {
            assert forall|j: int| 0 <= j < candidates@.len() implies #[trigger] asset_rank(candidates@[j].file_name@, build@) is None by {
                assert(ranks[j] is None);
            }
            None
        },
        Some((_, bi)) => {
            let c = &candidates[bi];
            Some(ResolvedWheel { url: c.url.clone(), file_name: c.file_name.clone() })
        },
    }
}

/// `no prebuilt SageAttention v2 wheel matches this environment ({build});
/// see https://github.com/woct0rdho/SageAttention/releases for supported
/// combinations`.
pub open spec fn no_wheel_message(b: TorchBuildView) -> Seq<char> {
    "no prebuilt SageAttention v2 wheel matches this environment ("@ + describe_spec(b)
        + "); see https://github.com/woct0rdho/SageAttention/releases for supported combinations"@
}

/// The best prebuilt wheel for `build`, or the user-facing error naming the
/// build when no asset fits it.
pub fn resolve_wheel(candidates: &[ResolvedWheel], build: &TorchBuild) -> (r: Result<ResolvedWheel, String>)
    requires
        forall|i: int| 0 <= i < candidates@.len() ==> !wheel_name_panics(#[trigger] candidates@[i].file_name@),
    ensures
        match r {
            Err(e) => e@ == no_wheel_message(build@)
                && forall|i: int| 0 <= i < candidates@.len() ==> #[trigger] asset_rank(candidates@[i].file_name@, build@) is None,
            Ok(w) => exists|i: int| first_best(ranks_of(candidates@, build@), i)
                && w.file_name@ == (#[trigger] candidates@[i]).file_name@ && w.url@ == candidates@[i].url@,
        },
{
    match select_wheel(candidates, build) {
        Some(w) => Ok(w),
        None => {
            let d = build.describe();
            let dc = chars_of(d.as_str());
            Err(framed(
                "no prebuilt SageAttention v2 wheel matches this environment (",
                &dc,
                "); see https://github.com/woct0rdho/SageAttention/releases for supported combinations",
            ))
        },
    }
}

/// The last 20 lines of an install's stderr, trimmed: enough to tell why it
/// failed without the whole build log.
pub open spec fn stderr_tail_spec(s: Seq<char>) -> Seq<char> {
    trim(join_with(last_n(std_lines(s), 20), "\n"@))
}

/// The tail of a failed install's stderr shown to the user.
pub fn stderr_tail(s: &str) -> (r: String)
    ensures
        r@ == stderr_tail_spec(s@),
{
    let c = chars_of(s);
    let joined = last_lines_joined(&c, 20);
    string_of(&trim_chars(&joined))
}

// ---------------------------------------------------------------------------
// Installing an attention backend
// ---------------------------------------------------------------------------

/// The attention backends ComfyUI can be switched to.
#[derive(Debug, Clone, Copy, PartialEq, Eq, Structural)]
pub enum AttentionBackend {
    Default,
    SageV1,
    SageV2,
    FlashV1,
    FlashV2,
}

/// The backend a name stands for.
pub open spec fn backend_spec(name: Seq<char>) -> Option<AttentionBackend> {
    if name == "default"@ {
        Some(AttentionBackend::Default)
    } else if name == "sage_v1"@ {
        Some(AttentionBackend::SageV1)
    } else if name == "sage_v2"@ {
        Some(AttentionBackend::SageV2)
    } else if name == "flash_v1"@ {
        Some(AttentionBackend::FlashV1)
    } else if name == "flash_v2"@ {
        Some(AttentionBackend::FlashV2)
    } else {
        None
    }
}

pub open spec fn invalid_backend_message(name: Seq<char>) -> Seq<char> {
    "Invalid attention backend: '"@ + name
        + "'. Valid: [\"default\", \"sage_v1\", \"sage_v2\", \"flash_v1\", \"flash_v2\"]"@
}

/// The backend a requested name stands for, or why it is refused.
pub fn parse_attention_backend(name: &str) -> (r: Result<AttentionBackend, String>)
    ensures
        match r {
            Ok(b) => backend_spec(name@) == Some(b),
            Err(e) => backend_spec(name@) is None && e@ == invalid_backend_message(name@),
        },
{
    let c = chars_of(name);
    if spells(&c, "default") {
        Ok(AttentionBackend::Default)
    } else if spells(&c, "sage_v1") {
        Ok(AttentionBackend::SageV1)
    } else if spells(&c, "sage_v2") {
        Ok(AttentionBackend::SageV2)
    } else if spells(&c, "flash_v1") {
        Ok(AttentionBackend::FlashV1)
    } else if spells(&c, "flash_v2") {
        Ok(AttentionBackend::FlashV2)
    } else {
        let mut m = chars_of("Invalid attention backend: '");
        push_str(&mut m, name);
        push_str(&mut m, "'. Valid: [\"default\", \"sage_v1\", \"sage_v2\", \"flash_v1\", \"flash_v2\"]");
        Err(string_of(&m))
    }
}

/// What installing a backend takes: the packages and extra flags of the
/// `uv pip install`, the progress message shown, the module imported to
/// verify it, and the packages a failed verification uninstalls.
pub struct InstallPlan {
    pub packages: Vec<String>,
    pub extra_flags: Vec<String>,
    pub message: &'static str,
    pub import_name: &'static str,
    pub rollback: Vec<&'static str>,
}

pub open spec fn plan_view(p: InstallPlan) -> (Seq<Seq<char>>, Seq<Seq<char>>, Seq<char>, Seq<char>, Seq<Seq<char>>) {
    (
        p.packages@.map_values(|x: String| x@),
        p.extra_flags@.map_values(|x: String| x@),
        p.message@,
        p.import_name@,
        p.rollback@.map_values(|x: &str| x@),
    )
}

/// The plan for a backend (`None` for the default, which installs nothing).
/// SageAttention v2 installs a prebuilt wheel when one was resolved (on
/// Windows), else builds the pinned source. On Windows SageAttention also
/// needs `triton-windows`; rollback never removes it.
pub open spec fn install_plan_spec(b: AttentionBackend, windows: bool, sage2_wheel_url: Option<Seq<char>>) -> Option<(Seq<Seq<char>>, Seq<Seq<char>>, Seq<char>, Seq<char>, Seq<Seq<char>>)> {
    let nbi = seq!["--no-build-isolation"@];
    match b {
        AttentionBackend::Default => None,
        AttentionBackend::SageV1 => Some((
            if windows { seq!["sageattention==1.0.6"@, "triton-windows"@] } else { seq!["sageattention==1.0.6"@] },
            Seq::empty(),
            "Installing SageAttention v1..."@,
            "sageattention"@,
            seq!["sageattention"@],
        )),
        AttentionBackend::SageV2 => match sage2_wheel_url {
            Some(u) => Some((seq![u, "triton-windows"@], Seq::empty(), "Installing the prebuilt SageAttention v2 wheel..."@, "sageattention"@, seq!["sageattention"@])),
            None => Some((
                seq![SAGE2_LINUX_GIT_SPEC@],
                nbi,
                "Building SageAttention v2 from source (CUDA kernels \u{2014} this can take 10+ minutes)..."@,
                "sageattention"@,
                seq!["sageattention"@],
            )),
        },
        AttentionBackend::FlashV1 => Some((seq!["flash-attn<2.0"@], nbi, "Installing FlashAttention v1..."@, "flash_attn"@, seq!["flash-attn"@])),
        AttentionBackend::FlashV2 => Some((
            seq!["flash-attn"@],
            nbi,
            "Installing FlashAttention v2 (may compile from source \u{2014} this can take 10+ minutes)..."@,
            "flash_attn"@,
            seq!["flash-attn"@],
        )),
    }
}

pub open spec fn url_view(o: Option<String>) -> Option<Seq<char>> {
    match o {
        Some(u) => Some(u@),
        None => None,
    }
}

fn owned_text(s: &str) -> (r: String)
    ensures
        r@ == s@,
{
    string_of(&chars_of(s))
}

/// The install plan of a backend.
pub fn attention_install_plan(b: AttentionBackend, windows: bool, sage2_wheel_url: Option<String>) -> (r: Option<InstallPlan>)
    ensures
        match r {
            Some(p) => install_plan_spec(b, windows, url_view(sage2_wheel_url)) == Some(plan_view(p)),
            None => install_plan_spec(b, windows, url_view(sage2_wheel_url)) is None,
        },
{
    let ghost wu = url_view(sage2_wheel_url);
    let p = match b {
        AttentionBackend::Default => return None,
        AttentionBackend::SageV1 => InstallPlan {
            packages: if windows {
                vec![owned_text("sageattention==1.0.6"), owned_text("triton-windows")]
            } else {
                vec![owned_text("sageattention==1.0.6")]
            },
            extra_flags: Vec::new(),
            message: "Installing SageAttention v1...",
            import_name: "sageattention",
            rollback: vec!["sageattention"],
        },
        AttentionBackend::SageV2 => match sage2_wheel_url {
            Some(u) => InstallPlan {
                packages: vec![u, owned_text("triton-windows")],
                extra_flags: Vec::new(),
                message: "Installing the prebuilt SageAttention v2 wheel...",
                import_name: "sageattention",
                rollback: vec!["sageattention"],
            },
            None => InstallPlan {
                packages: vec![owned_text(SAGE2_LINUX_GIT_SPEC)],
                extra_flags: vec![owned_text("--no-build-isolation")],
                message: "Building SageAttention v2 from source (CUDA kernels \u{2014} this can take 10+ minutes)...",
                import_name: "sageattention",
                rollback: vec!["sageattention"],
            },
        },
        AttentionBackend::FlashV1 => InstallPlan {
            packages: vec![owned_text("flash-attn<2.0")],
            extra_flags: vec![owned_text("--no-build-isolation")],
            message: "Installing FlashAttention v1...",
            import_name: "flash_attn",
            rollback: vec!["flash-attn"],
        },
        AttentionBackend::FlashV2 => InstallPlan {
            packages: vec![owned_text("flash-attn")],
            extra_flags: vec![owned_text("--no-build-isolation")],
            message: "Installing FlashAttention v2 (may compile from source \u{2014} this can take 10+ minutes)...",
            import_name: "flash_attn",
            rollback: vec!["flash-attn"],
        },
    };
    proof {
        let t = install_plan_spec(b, windows, wu);
        if let Some(x) = t {
            assert(plan_view(p).0 =~= x.0);
            assert(plan_view(p).1 =~= x.1);
            assert(plan_view(p).4 =~= x.4);
        }
    }
    Some(p)
}

/// Why a backend cannot be installed here, from its support check's reason
/// code (`min_cc` is the required compute capability, as displayed).
pub open spec fn unsupported_message_spec(backend: Seq<char>, reason: Option<Seq<char>>, min_cc: Option<Seq<char>>) -> Seq<char> {
    let why = match reason {
        Some(r) => if r == "no_nvidia_gpu"@ {
            "no NVIDIA GPU was detected"@
        } else if r == "compute_capability"@ {
            "the GPU's compute capability is below the required "@ + (match min_cc { Some(c) => c, None => "minimum"@ }) + " for this backend"@
        } else if r == "nvcc_missing"@ {
            "the CUDA toolkit (nvcc) is required to build this backend from source but was not found on PATH"@
        } else {
            "it is not supported on this system"@
        },
        None => "it is not supported on this system"@,
    };
    "Cannot install the "@ + backend + " attention backend: "@ + why + "."@
}

/// The refusal for a backend its support check ruled out.
pub fn unsupported_message(backend: &str, reason: Option<&str>, min_cc: Option<&str>) -> (r: String)
    ensures
        r@ == unsupported_message_spec(backend@, match reason { Some(x) => Some(x@), None => None }, match min_cc { Some(x) => Some(x@), None => None }),
{
    let mut m = chars_of("Cannot install the ");
    push_str(&mut m, backend);
    push_str(&mut m, " attention backend: ");
    let known = match reason {
        Some(r) => {
            let rc = chars_of(r);
            if spells(&rc, "no_nvidia_gpu") {
                push_str(&mut m, "no NVIDIA GPU was detected");
                true
            } else if spells(&rc, "compute_capability") {
                push_str(&mut m, "the GPU's compute capability is below the required ");
                match min_cc {
                    Some(c) => push_str(&mut m, c),
                    None => push_str(&mut m, "minimum"),
                }
                push_str(&mut m, " for this backend");
                true
            } else if spells(&rc, "nvcc_missing") {
                push_str(&mut m, "the CUDA toolkit (nvcc) is required to build this backend from source but was not found on PATH");
                true
            } else {
                false
            }
        },
        None => false,
    };
    if !known {
        push_str(&mut m, "it is not supported on this system");
    }
    push_str(&mut m, ".");
    string_of(&m)
}

/// The arguments of the `uv` run that removes any installed attention
/// package before a switch (`triton-windows` stays: quantized models need it).
pub fn uninstall_attention_args(python: &str) -> (r: Vec<String>)
    ensures
        r@.map_values(|x: String| x@) == seq!["pip"@, "uninstall"@, "--python"@, python@, "sageattention"@, "flash-attn"@],
{
    let r = vec![owned_text("pip"), owned_text("uninstall"), owned_text("--python"), owned_text(python), owned_text("sageattention"), owned_text("flash-attn")];
    assert(r@.map_values(|x: String| x@) =~= seq!["pip"@, "uninstall"@, "--python"@, python@, "sageattention"@, "flash-attn"@]);
    r
}

} // verus!
