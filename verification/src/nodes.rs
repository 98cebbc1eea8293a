//! Custom-node packs: where their files live, when an install counts as
//! finished, and the user-facing "missing nodes" error that the frontend
//! parses back into node class names.
use vstd::prelude::*;
use crate::paths::{joined_all, joined_path, path_join};
use crate::text::{
    chars_of, copy_range, find, find_spec, has, join_chars, join_with, push_all, push_str,
    seq_contains, split_chars, split_on, string_of, string_views, trim, trim_bounds, trim_chars,
    trim_start, views, last_lines_joined, last_n, std_lines, str_views, strip_end_char, spells, same_chars,
};

verus! {

/// Directory of the frame-interpolation pack under `custom_nodes/`.
pub const RIFE_PACKAGE_DIR: &'static str = "ComfyUI-Frame-Interpolation";

/// Checkpoint the `RIFE VFI` node is driven with.
pub const RIFE_CKPT_FILENAME: &'static str = "rife49.pth";

/// Smallest plausible size for the checkpoint: a mirror replaced by an HTML
/// error page or an LFS pointer still answers 200.
pub const RIFE_CKPT_MIN_BYTES: u64 = 16777216;

/// Directory of the MiniMax-H3 Turbo pack under `custom_nodes/`.
pub const H3_TURBO_PACKAGE_DIR: &'static str = "ComfyUI-MiniMax-H3-Turbo";

/// Directory of the MiniMax-H3 TeaCache pack under `custom_nodes/`.
pub const H3_TEACACHE_PACKAGE_DIR: &'static str = "ComfyUI-MiniMaxH3-TeaCache";

/// Substring present in `format_missing_mooshie_nodes_error` output.
pub const MISSING_MOOSHIE_NODES_MARKER: &'static str = "has not loaded required MooshieUI custom nodes";

/// Substring present in the ControlNet verification error.
pub const MISSING_CONTROLNET_NODES_MARKER: &'static str = "Required ControlNet custom nodes failed to load";

/// Substring present in the style transfer verification error.
pub const MISSING_STYLE_TRANSFER_NODES_MARKER: &'static str = "Required style transfer custom nodes failed to load";

// ---------------------------------------------------------------------------
// Install checks
// ---------------------------------------------------------------------------

/// Directory the frame-interpolation pack loads RIFE checkpoints from:
/// `custom_nodes/<pack>/ckpts/rife` under the ComfyUI directory (the pack
/// resolves checkpoints relative to its own source, not `models/`).
pub fn rife_ckpt_dir(comfyui_path: &str) -> (r: String)
    ensures
        r@ == joined_all(comfyui_path@, seq!["custom_nodes"@, RIFE_PACKAGE_DIR@, "ckpts"@, "rife"@]),
{
    let a = path_join(comfyui_path, "custom_nodes");
    let b = path_join(a.as_str(), RIFE_PACKAGE_DIR);
    let c = path_join(b.as_str(), "ckpts");
    let d = path_join(c.as_str(), "rife");
    proof {
        let ps = seq!["custom_nodes"@, RIFE_PACKAGE_DIR@, "ckpts"@, "rife"@];
        assert(ps.drop_last().drop_last().drop_last().drop_last() =~= Seq::<Seq<char>>::empty());
        assert(ps.drop_last().drop_last().drop_last() =~= seq!["custom_nodes"@]);
        assert(ps.drop_last().drop_last() =~= seq!["custom_nodes"@, RIFE_PACKAGE_DIR@]);
        assert(ps.drop_last() =~= seq!["custom_nodes"@, RIFE_PACKAGE_DIR@, "ckpts"@]);
        reveal_with_fuel(joined_all, 5);
    }
    d
}

/// A checkpoint file's metadata, when it could be read, makes a plausible
/// RIFE checkpoint: a regular file of at least `RIFE_CKPT_MIN_BYTES`.
pub open spec fn plausible_checkpoint(meta: Option<(bool, u64)>) -> bool {
    match meta {
        Some((is_file, len)) => is_file && len >= RIFE_CKPT_MIN_BYTES,
        None => false,
    }
}

/// Whether the checkpoint's metadata (`(is_file, len)`, `None` when it could
/// not be read) shows a plausible RIFE checkpoint. Size-checked rather than
/// merely present, so a truncated file cannot report the install as ready.
pub fn rife_ckpt_has_checkpoint(meta: Option<(bool, u64)>) -> (r: bool)
    ensures
        r == plausible_checkpoint(meta),
{
    match meta {
        Some((is_file, len)) => is_file && len >= RIFE_CKPT_MIN_BYTES,
        None => false,
    }
}

/// Whether the RIFE pack and its checkpoint are both present, given what the
/// disk shows: the pack's `__init__.py`, the requirements stamp written only
/// after pip succeeded, and the checkpoint's metadata. A blank ComfyUI path
/// has nothing installed.
pub fn is_rife_installed(
    comfyui_path: &str,
    init_is_file: bool,
    stamp_is_file: bool,
    ckpt_meta: Option<(bool, u64)>,
) -> (r: bool)
    ensures
        r == (trim(comfyui_path@).len() > 0 && init_is_file && stamp_is_file
            && plausible_checkpoint(ckpt_meta)),
{
    let p = chars_of(comfyui_path);
    let t = trim_chars(&p);
    if t.len() == 0 {
        return false;
    }
    init_is_file && stamp_is_file && rife_ckpt_has_checkpoint(ckpt_meta)
}

/// Whether the MiniMax-H3 Turbo pack is present, given whether its
/// `__init__.py` is a file. The pack has no requirements stamp to check.
pub fn is_h3_turbo_installed(comfyui_path: &str, init_is_file: bool) -> (r: bool)
    ensures
        r == (trim(comfyui_path@).len() > 0 && init_is_file),
{
    let p = chars_of(comfyui_path);
    let t = trim_chars(&p);
    t.len() > 0 && init_is_file
}

/// Whether the MiniMax-H3 TeaCache pack is present, given whether its
/// `__init__.py` is a file.
pub fn is_h3_teacache_installed(comfyui_path: &str, init_is_file: bool) -> (r: bool)
    ensures
        r == (trim(comfyui_path@).len() > 0 && init_is_file),
{
    let p = chars_of(comfyui_path);
    let t = trim_chars(&p);
    t.len() > 0 && init_is_file
}

/// The venv's `pip`: `Scripts/pip.exe` on Windows, `bin/pip` elsewhere.
pub fn resolve_pip_bin(venv_path: &str, windows: bool) -> (r: String)
    ensures
        r@ == (if windows {
            joined_path(joined_path(venv_path@, "Scripts"@), "pip.exe"@)
        } else {
            joined_path(joined_path(venv_path@, "bin"@), "pip"@)
        }),
{
    if windows {
        let s = path_join(venv_path, "Scripts");
        path_join(s.as_str(), "pip.exe")
    } else {
        let b = path_join(venv_path, "bin");
        path_join(b.as_str(), "pip")
    }
}

/// Native ComfyUI-core node class the non-timeline video path builds into
/// the workflow for a given `video_variant`.
pub open spec fn h3_native_node_class(video_variant: Seq<char>) -> Seq<char> {
    if video_variant == "fl2va"@ {
        "MiniMaxH3ImageToVideo"@
    } else {
        "MiniMaxH3ReferenceToVideo"@
    }
}

pub fn required_h3_native_node_class(video_variant: &str) -> (r: &'static str)
    ensures
        r@ == h3_native_node_class(video_variant@),
{
    let v = chars_of(video_variant);
    if crate::text::spells(&v, "fl2va") {
        "MiniMaxH3ImageToVideo"
    } else {
        "MiniMaxH3ReferenceToVideo"
    }
}

// ---------------------------------------------------------------------------
// The missing-nodes error
// ---------------------------------------------------------------------------

/// What the missing-nodes error advises after listing the node classes.
pub const MISSING_NODES_ADVICE: &'static str = ". If MooshieUI just installed or updated the nodes, fully stop ComfyUI/python.exe, then start MooshieUI again so the custom nodes load. If this is a remote or external ComfyUI server, install the MooshieUI custom nodes there and restart that server.";

/// The user-facing missing-nodes error: the marker, the missing classes
/// joined with `, `, the advice, and the ComfyUI log tail when there is one.
pub open spec fn missing_nodes_message(missing: Seq<Seq<char>>, log_tail: Option<Seq<char>>) -> Seq<char> {
    let base = "This ComfyUI server "@ + MISSING_MOOSHIE_NODES_MARKER@ + ": "@ + join_with(missing, ", "@)
        + MISSING_NODES_ADVICE@;
    match log_tail {
        Some(l) => base + "\n\nComfyUI log (last lines):\n"@ + l,
        None => base,
    }
}

/// The trimmed, non-empty pieces, in order.
pub open spec fn kept_names(parts: Seq<Seq<char>>) -> Seq<Seq<char>>
    decreases parts.len(),
{
    if parts.len() == 0 {
        Seq::<Seq<char>>::empty()
    } else {
        let r = kept_names(parts.drop_last());
        let t = trim(parts.last());
        if t.len() > 0 { r.push(t) } else { r }
    }
}

/// The node class names a missing-nodes error lists: after the marker and
/// the next `:`, up to the next `.`, split at `,`, trimmed, empty ones
/// dropped. A message without the marker lists none.
pub open spec fn missing_nodes_spec(message: Seq<char>) -> Seq<Seq<char>> {
    match find_spec(message, MISSING_MOOSHIE_NODES_MARKER@) {
        None => Seq::<Seq<char>>::empty(),
        Some(start) => {
            let rest = message.skip(start + MISSING_MOOSHIE_NODES_MARKER@.len());
            match find_spec(rest, seq![':']) {
                None => Seq::<Seq<char>>::empty(),
                Some(colon) => {
                    let after = trim_start(rest.skip(colon + 1));
                    let end = match find_spec(after, seq!['.']) {
                        Some(e) => e,
                        None => after.len() as int,
                    };
                    kept_names(split_on(after.take(end), ','))
                },
            }
        },
    }
}

/// Build the user-facing missing-nodes error from the missing classes and
/// the tail of the ComfyUI log, when one could be read.
pub fn format_missing_mooshie_nodes_error(missing: &[String], log_tail: Option<String>) -> (r: String)
    ensures
        r@ == missing_nodes_message(string_views(missing@), match log_tail {
            Some(l) => Some(l@),
            None => None,
        }),
{
    let mut names: Vec<Vec<char>> = Vec::new();
    let mut i: usize = 0;
    while i < missing.len()
        invariant
            i <= missing.len(),
            views(names@) =~= string_views(missing@.take(i as int)),
        decreases missing.len() - i,
    {
        let c = chars_of(missing[i].as_str());
        let ghost before = names@;
        names.push(c);
        assert(views(names@) =~= views(before).push(c@));
        assert(string_views(missing@.take(i + 1)) =~= string_views(missing@.take(i as int)).push(missing@[i as int]@));
        i += 1;
    }
    assert(missing@.take(missing.len() as int) =~= missing@);
    let sep = chars_of(", ");
    let list = join_chars(&names, &sep);
    let mut v: Vec<char> = Vec::new();
    push_str(&mut v, "This ComfyUI server ");
    push_str(&mut v, MISSING_MOOSHIE_NODES_MARKER);
    push_str(&mut v, ": ");
    push_all(&mut v, &list);
    push_str(&mut v, MISSING_NODES_ADVICE);
    match log_tail {
        Some(l) => {
            push_str(&mut v, "\n\nComfyUI log (last lines):\n");
            push_str(&mut v, l.as_str());
        },
        None => {},
    }
    string_of(&v)
}

pub fn is_missing_mooshie_nodes_error(message: &str) -> (r: bool)
    ensures
        r == seq_contains(message@, MISSING_MOOSHIE_NODES_MARKER@),
{
    let m = chars_of(message);
    has(&m, MISSING_MOOSHIE_NODES_MARKER)
}

/// Parse missing node class names from a formatted missing-nodes error.
pub fn parse_missing_nodes_from_error(message: &str) -> (r: Vec<String>)
    ensures
        string_views(r@) == missing_nodes_spec(message@),
{
    let m = chars_of(message);
    let mk = chars_of(MISSING_MOOSHIE_NODES_MARKER);
    let start = match find(&m, &mk) {
        Some(k) => k,
        None => return Vec::new(),
    };
    assert(crate::text::occurs_at(m@, mk@, start as int));
    let mn = m.len();
    let rest = copy_range(&m, start + mk.len(), mn);
    assert(rest@ =~= m@.skip(start + mk@.len()));
    let colon_pat = vec![':'];
    assert(colon_pat@ =~= seq![':']);
    let colon = match find(&rest, &colon_pat) {
        Some(k) => k,
        None => return Vec::new(),
    };
    assert(crate::text::occurs_at(rest@, colon_pat@, colon as int));
    let rn = rest.len();
    let raw = copy_range(&rest, colon + 1, rn);
    assert(raw@ =~= rest@.skip(colon + 1));
    let (a, _) = trim_bounds(&raw);
    let an = raw.len();
    let after = copy_range(&raw, a, an);
    let dot_pat = vec!['.'];
    assert(dot_pat@ =~= seq!['.']);
    let end: usize = match find(&after, &dot_pat) {
        Some(e) => {
            assert(crate::text::occurs_at(after@, dot_pat@, e as int));
            e
        },
        None => after.len(),
    };
    let list = copy_range(&after, 0, end);
    assert(list@ =~= after@.take(end as int));
    let parts = split_chars(&list, ',');
    let ghost ps = split_on(list@, ',');
    assert(views(parts@) == ps);
    let mut out: Vec<String> = Vec::new();
    let mut i: usize = 0;
    assert(ps.take(0) =~= Seq::<Seq<char>>::empty());
    while i < parts.len()
        invariant
            i <= parts.len(),
            views(parts@) == ps,
            string_views(out@) == kept_names(ps.take(i as int)),
        decreases parts.len() - i,
    {
        assert(parts@[i as int]@ == ps[i as int]);
        assert(ps.take(i + 1).drop_last() =~= ps.take(i as int));
        let t = trim_chars(&parts[i]);
        if t.len() > 0 {
            let ghost before = out@;
            out.push(string_of(&t));
            assert(string_views(out@) =~= string_views(before).push(t@));
        }
        i += 1;
    }
    assert(ps.take(parts.len() as int) =~= ps);
    out
}

/// The kind of a ComfyUI server error the frontend shows: missing MooshieUI
/// nodes, missing ControlNet or style transfer nodes, a crashed process, or
/// anything else.
pub open spec fn server_error_kind_spec(error: Seq<char>) -> Seq<char> {
    if missing_nodes_spec(error).len() > 0 {
        "missing_mooshie_nodes"@
    } else if seq_contains(error, MISSING_CONTROLNET_NODES_MARKER@) {
        "missing_controlnet_nodes"@
    } else if seq_contains(error, MISSING_STYLE_TRANSFER_NODES_MARKER@) {
        "missing_style_transfer_nodes"@
    } else if seq_contains(error, "exited with"@) || seq_contains(error, "process exited"@) {
        "crashed"@
    } else {
        "generic"@
    }
}

/// The `kind` of the `comfyui:server_error` payload for an error message.
pub fn server_error_kind(error: &str) -> (r: &'static str)
    ensures
        r@ == server_error_kind_spec(error@),
{
    let missing = parse_missing_nodes_from_error(error);
    if missing.len() > 0 {
        return "missing_mooshie_nodes";
    }
    let e = chars_of(error);
    if has(&e, MISSING_CONTROLNET_NODES_MARKER) {
        "missing_controlnet_nodes"
    } else if has(&e, MISSING_STYLE_TRANSFER_NODES_MARKER) {
        "missing_style_transfer_nodes"
    } else if has(&e, "exited with") || has(&e, "process exited") {
        "crashed"
    } else {
        "generic"
    }
}

// ---------------------------------------------------------------------------
// The error reads back what it was built from
// ---------------------------------------------------------------------------

/// A node class name that survives the error's list syntax: non-empty,
/// already trimmed, and free of the `,` and `.` that delimit the list.
pub open spec fn listable_node_name(n: Seq<char>) -> bool {
    n.len() > 0 && trim(n) == n && !n.contains(',') && !n.contains('.')
}

/// The pieces `split(',')` makes of names joined with `, `: every name after
/// the first keeps the space that followed its comma.
pub open spec fn comma_pieces(ms: Seq<Seq<char>>) -> Seq<Seq<char>> {
    Seq::new(ms.len(), |i: int| if i == 0 { ms[0] } else { seq![' '] + ms[i] })
}

proof fn lemma_split_joined_names(ms: Seq<Seq<char>>)
    requires
        ms.len() >= 1,
        forall|i: int| 0 <= i < ms.len() ==> !(#[trigger] ms[i]).contains(','),
    ensures
        split_on(join_with(ms, ", "@), ',') == comma_pieces(ms),
    decreases ms.len(),
{
    reveal_strlit(", ");
    if ms.len() == 1 {
        assert(!ms[0].contains(','));
        crate::text::lemma_split_on_free(ms[0], ',');
        assert(comma_pieces(ms) =~= seq![ms[0]]);
    } else {
        let m0 = ms.drop_last();
        assert forall|i: int| 0 <= i < m0.len() implies !(#[trigger] m0[i]).contains(',') by {
            assert(m0[i] == ms[i]);
        }
        lemma_split_joined_names(m0);
        let j = join_with(m0, ", "@);
        let l = ms.last();
        assert(!ms[ms.len() - 1].contains(','));
        let t = seq![' '] + l;
        assert(!t.contains(',')) by {
            if t.contains(',') {
                let k = choose|k: int| 0 <= k < t.len() && t[k] == ',';
                assert(k > 0);
                assert(l[k - 1] == ',');
            }
        }
        assert(join_with(ms, ", "@) =~= j.push(',') + t);
        crate::text::lemma_split_on_after_sep(j, t, ',');
        assert(comma_pieces(ms) =~= comma_pieces(m0).push(t));
    }
}

proof fn lemma_kept_comma_pieces(ms: Seq<Seq<char>>)
    requires
        ms.len() >= 1,
        forall|i: int| 0 <= i < ms.len() ==> listable_node_name(#[trigger] ms[i]),
    ensures
        kept_names(comma_pieces(ms)) == ms,
    decreases ms.len(),
{
    let ps = comma_pieces(ms);
    if ms.len() == 1 {
        assert(listable_node_name(ms[0]));
        assert(ps.drop_last() =~= Seq::<Seq<char>>::empty());
        assert(kept_names(ps.drop_last()) == Seq::<Seq<char>>::empty());
        assert(ps.last() == ms[0]);
        assert(trim(ps.last()) == ms[0]);
        assert(kept_names(ps) =~= Seq::<Seq<char>>::empty().push(ms[0]));
        assert(kept_names(ps) =~= seq![ms[0]]);
    } else {
        let m0 = ms.drop_last();
        assert forall|i: int| 0 <= i < m0.len() implies listable_node_name(#[trigger] m0[i]) by {
            assert(m0[i] == ms[i]);
        }
        lemma_kept_comma_pieces(m0);
        assert(ps.drop_last() =~= comma_pieces(m0));
        let l = ms.last();
        assert(listable_node_name(ms[ms.len() - 1]));
        let t = seq![' '] + l;
        assert(ps.last() == t);
        assert(t.drop_first() =~= l);
        assert(trim_start(t) == trim_start(l));
        assert(trim(t) == l);
        assert(kept_names(ps) =~= m0.push(l));
    }
}

proof fn lemma_join_starts_with_first(ms: Seq<Seq<char>>, sep: Seq<char>)
    requires
        ms.len() >= 1,
        ms[0].len() > 0,
    ensures
        join_with(ms, sep).len() > 0,
        join_with(ms, sep)[0] == ms[0][0],
    decreases ms.len(),
{
    if ms.len() > 1 {
        let m0 = ms.drop_last();
        assert(m0[0] == ms[0]);
        lemma_join_starts_with_first(m0, sep);
        let j = join_with(m0, sep);
        assert((j + sep + ms.last())[0] == j[0]);
    }
}

/// A missing-nodes error lists exactly the node classes it was built from,
/// whatever log tail it carries, when every name is non-empty, already
/// trimmed and free of `,` and `.`.
pub proof fn missing_nodes_roundtrip(missing: Seq<Seq<char>>, log_tail: Option<Seq<char>>)
    requires
        forall|i: int| 0 <= i < missing.len() ==> listable_node_name(#[trigger] missing[i]),
    ensures
        missing_nodes_spec(missing_nodes_message(missing, log_tail)) == missing,
{
    reveal_strlit("This ComfyUI server ");
    reveal_strlit("has not loaded required MooshieUI custom nodes");
    reveal_strlit(": ");
    reveal_strlit(", ");
    reveal_strlit(". If MooshieUI just installed or updated the nodes, fully stop ComfyUI/python.exe, then start MooshieUI again so the custom nodes load. If this is a remote or external ComfyUI server, install the MooshieUI custom nodes there and restart that server.");
    let p0 = "This ComfyUI server "@;
    let mk = MISSING_MOOSHIE_NODES_MARKER@;
    let adv = MISSING_NODES_ADVICE@;
    let j = join_with(missing, ", "@);
    let tail = match log_tail {
        Some(l) => "\n\nComfyUI log (last lines):\n"@ + l,
        None => Seq::<char>::empty(),
    };
    let x = j + adv + tail;
    let m = missing_nodes_message(missing, log_tail);
    assert(m =~= p0 + mk + (seq![':', ' '] + x));
    assert(p0.len() == 20);
    assert(mk.len() == 46);
    // The marker first occurs right after the greeting.
    assert(m.subrange(20, 66) =~= mk);
    assert forall|k: int| 0 <= k < 20 implies !crate::text::occurs_at(m, mk, k) by {
        if crate::text::occurs_at(m, mk, k) {
            assert(m.subrange(k, k + 46)[0] == mk[0]);
            assert(m.subrange(k, k + 46)[1] == mk[1]);
        }
    }
    crate::text::lemma_find_some(m, mk, 20);
    let rest = m.skip(66);
    assert(rest =~= seq![':', ' '] + x);
    assert(rest.subrange(0, 1) =~= seq![':']);
    crate::text::lemma_find_some(rest, seq![':'], 0);
    let raw = rest.skip(1);
    assert(raw =~= seq![' '] + x);
    assert(raw.drop_first() =~= x);
    // The list follows the colon's space directly.
    assert(adv[0] == '.');
    if missing.len() > 0 {
        assert(listable_node_name(missing[0]));
        crate::text::lemma_trimmed_starts_solid(missing[0]);
        lemma_join_starts_with_first(missing, ", "@);
        assert(x[0] == j[0]);
    } else {
        assert(j.len() == 0);
        assert(x[0] == adv[0]);
    }
    assert(trim_start(x) == x);
    assert(trim_start(raw) == x);
    // The list ends at the advice's leading full stop.
    assert forall|i: int| 0 <= i < missing.len() implies !(#[trigger] missing[i]).contains('.') by {
        assert(listable_node_name(missing[i]));
    }
    assert(!(", "@).contains('.')) by {
        if (", "@).contains('.') {
            let k = choose|k: int| 0 <= k < (", "@).len() && (", "@)[k] == '.';
        }
    }
    crate::text::lemma_join_with_free(missing, ", "@, '.');
    assert(x.subrange(j.len() as int, (j.len() + 1) as int) =~= seq!['.']);
    assert forall|k: int| 0 <= k < j.len() implies !crate::text::occurs_at(x, seq!['.'], k) by {
        if crate::text::occurs_at(x, seq!['.'], k) {
            assert(x.subrange(k, k + 1)[0] == '.');
            assert(j[k] == '.');
            assert(j.contains('.'));
        }
    }
    crate::text::lemma_find_some(x, seq!['.'], j.len() as int);
    assert(x.take(j.len() as int) =~= j);
    if missing.len() == 0 {
        assert(j =~= Seq::<char>::empty());
        assert(split_on(j, ',') == seq![Seq::<char>::empty()]);
        assert(seq![Seq::<char>::empty()].drop_last() =~= Seq::<Seq<char>>::empty());
        assert(trim(Seq::<char>::empty()) =~= Seq::<char>::empty());
        let one = seq![Seq::<char>::empty()];
        assert(one.last() == Seq::<char>::empty());
        assert(kept_names(one.drop_last()) == Seq::<Seq<char>>::empty());
        assert(trim(one.last()).len() == 0);
        assert(kept_names(one) =~= Seq::<Seq<char>>::empty());
    } else {
        assert forall|i: int| 0 <= i < missing.len() implies !(#[trigger] missing[i]).contains(',') by {
            assert(listable_node_name(missing[i]));
        }
        lemma_split_joined_names(missing);
        lemma_kept_comma_pieces(missing);
    }
}

/// The input names a node class declares in `/object_info`, in its
/// `required` and `optional` groups.
pub struct NodeInputs {
    pub required: Vec<String>,
    pub optional: Vec<String>,
}

/// Each of `names` is declared in the `required` or the `optional` group.
pub open spec fn declares_all(required: Seq<Seq<char>>, optional: Seq<Seq<char>>, names: Seq<Seq<char>>) -> bool {
    forall|i: int| 0 <= i < names.len() ==> #[trigger] required.contains(names[i]) || optional.contains(names[i])
}

fn names_contain(names: &Vec<String>, name: &String) -> (r: bool)
    ensures
        r == string_views(names@).contains(name@),
{
    let ghost nv = string_views(names@);
    let target = chars_of(name.as_str());
    let mut i: usize = 0;
    while i < names.len()
        invariant
            i <= names.len(),
            nv == string_views(names@),
            target@ == name@,
            forall|k: int| 0 <= k < i ==> nv[k] != name@,
        decreases names.len() - i,
    {
        if same_chars(&chars_of(names[i].as_str()), &target) {
            assert(nv[i as int] == name@);
            return true;
        }
        i += 1;
    }
    proof {
        if nv.contains(name@) {
            let k = choose|k: int| 0 <= k < nv.len() && nv[k] == name@;
            assert(nv[k] != name@);
        }
    }
    false
}

/// Whether a node class is available with the inputs a caller needs, from
/// what `/object_info/{class}` declared for it (`None` when it did not list
/// the class): it must be listed, and declare each asked input in either
/// group.
pub fn node_info_matches(node: Option<&NodeInputs>, required_inputs: Option<&[String]>) -> (r: bool)
    ensures
        r == (node matches Some(n) && (required_inputs matches Some(v) ==> declares_all(
            string_views(n.required@),
            string_views(n.optional@),
            string_views(v@),
        ))),
{
    let n = match node {
        Some(n) => n,
        None => return false,
    };
    let names = match required_inputs {
        Some(v) => v,
        None => return true,
    };
    let ghost req = string_views(n.required@);
    let ghost opt = string_views(n.optional@);
    let ghost nv = string_views(names@);
    let mut i: usize = 0;
    while i < names.len()
        invariant
            i <= names.len(),
            req == string_views(n.required@),
            opt == string_views(n.optional@),
            nv == string_views(names@),
            node == Some(n),
            required_inputs == Some(names),
            forall|k: int| 0 <= k < i ==> #[trigger] req.contains(nv[k]) || opt.contains(nv[k]),
        decreases names.len() - i,
    {
        assert(nv[i as int] == names@[i as int]@);
        if !names_contain(&n.required, &names[i]) && !names_contain(&n.optional, &names[i]) {
            assert(!(req.contains(nv[i as int]) || opt.contains(nv[i as int])));
            assert(!declares_all(req, opt, nv));
            return false;
        }
        i += 1;
    }
    true
}

/// The `comfyui:server_error` event the frontend receives.
pub struct ServerErrorPayload {
    pub error: String,
    pub kind: &'static str,
    /// The MooshieUI node classes the error names as missing.
    pub missing_nodes: Vec<String>,
    /// The tail of ComfyUI's log, as the caller read it.
    pub log_excerpt: Option<String>,
    pub port: u16,
}

/// The server-error event for an error message on a port, with the log
/// tail the caller read.
pub fn server_error_payload(error: &str, port: u16, log_excerpt: Option<String>) -> (r: ServerErrorPayload)
    ensures
        r.error@ == error@,
        r.kind@ == server_error_kind_spec(error@),
        string_views(r.missing_nodes@) == missing_nodes_spec(error@),
        r.log_excerpt == log_excerpt,
        r.port == port,
{
    ServerErrorPayload {
        error: string_of(&chars_of(error)),
        kind: server_error_kind(error),
        missing_nodes: parse_missing_nodes_from_error(error),
        log_excerpt,
        port,
    }
}

// ---------------------------------------------------------------------------
// Failed commands
// ---------------------------------------------------------------------------

/// What a failed command is reported with: the last 20 lines of its stderr
/// (of its stdout when stderr is blank), or its exit status when both say
/// nothing.
pub open spec fn output_excerpt_spec(stderr: Seq<char>, stdout: Seq<char>, status: Seq<char>) -> Seq<char> {
    let combined = if trim(stderr).len() == 0 { stdout } else { stderr };
    let excerpt = join_with(last_n(std_lines(combined), 20), "\n"@);
    if trim(excerpt).len() == 0 {
        "process exited with "@ + status
    } else {
        excerpt
    }
}

/// The excerpt of a finished command's output shown in an error, from its
/// stderr and stdout (already decoded) and its exit status as displayed.
pub fn command_output_excerpt(stderr: &str, stdout: &str, status: &str) -> (r: String)
    ensures
        r@ == output_excerpt_spec(stderr@, stdout@, status@),
{
    let err = chars_of(stderr);
    let combined = if trim_chars(&err).len() == 0 { chars_of(stdout) } else { err };
    let excerpt = last_lines_joined(&combined, 20);
    if trim_chars(&excerpt).len() == 0 {
        let mut v = chars_of("process exited with ");
        push_str(&mut v, status);
        string_of(&v)
    } else {
        string_of(&excerpt)
    }
}

// ---------------------------------------------------------------------------
// Required custom-node packs and the checks that they loaded
// ---------------------------------------------------------------------------

/// A custom-node pack the app installs from git when a feature needs it.
pub struct RequiredCustomNodePackage {
    pub name: &'static str,
    pub git_url: &'static str,
    /// Node classes whose presence shows the pack loaded.
    pub verify_nodes: Vec<&'static str>,
    /// Requirements file to pip-install, relative to the pack's folder.
    pub requirements_file: &'static str,
}

/// The groups of packs the app installs.
#[derive(Debug, Clone, Copy, PartialEq, Eq, Structural)]
pub enum PackGroup {
    StyleTransfer,
    Gguf,
    ControlNet,
    Rife,
    H3Turbo,
    H3TeaCache,
}

pub open spec fn package_view(p: RequiredCustomNodePackage) -> (Seq<char>, Seq<char>, Seq<Seq<char>>, Seq<char>) {
    (p.name@, p.git_url@, str_views(p.verify_nodes@), p.requirements_file@)
}

/// The packs of each group: name, git URL, node classes, requirements file.
pub open spec fn packs_spec(g: PackGroup) -> Seq<(Seq<char>, Seq<char>, Seq<Seq<char>>, Seq<char>)> {
    match g {
        PackGroup::StyleTransfer => seq![("ComfyUi-Untwisting-RoPE"@, "https://github.com/BigStationW/ComfyUi-Untwisting-RoPE.git"@, seq!["RFInversion"@, "UntwistingRoPE"@], "requirements.txt"@), ("ComfyUi-Scale-Image-to-Total-Pixels-Advanced"@, "https://github.com/BigStationW/ComfyUi-Scale-Image-to-Total-Pixels-Advanced.git"@, seq!["ImageScaleToTotalPixelsX"@], "requirements.txt"@)],
        PackGroup::Gguf => seq![("ComfyUI-GGUF"@, "https://github.com/city96/ComfyUI-GGUF.git"@, seq!["UnetLoaderGGUF"@, "CLIPLoaderGGUF"@], "requirements.txt"@)],
        PackGroup::ControlNet => seq![("comfyui_controlnet_aux"@, "https://github.com/Fannovel16/comfyui_controlnet_aux.git"@, seq!["CannyEdgePreprocessor"@, "DepthAnythingV2Preprocessor"@, "OpenposePreprocessor"@, "LineArtPreprocessor"@, "ScribblePreprocessor"@, "HEDPreprocessor"@, "FakeScribblePreprocessor"@], "requirements.txt"@)],
        PackGroup::Rife => seq![("ComfyUI-Frame-Interpolation"@, "https://github.com/Fannovel16/ComfyUI-Frame-Interpolation.git"@, seq!["RIFE VFI"@], "requirements-no-cupy.txt"@)],
        PackGroup::H3Turbo => seq![("ComfyUI-MiniMax-H3-Turbo"@, "https://github.com/Larryvrh/ComfyUI-MiniMax-H3-Turbo.git"@, seq!["MiniMaxH3TurboLoRA"@, "MiniMaxH3TurboSampler"@], "requirements.txt"@)],
        PackGroup::H3TeaCache => seq![("ComfyUI-MiniMaxH3-TeaCache"@, "https://github.com/Icyoung/ComfyUI-MiniMaxH3-TeaCache.git"@, seq!["MiniMaxH3TeaCache"@], "requirements.txt"@)],
    }
}

/// The packs of a group.
pub fn required_packages(g: PackGroup) -> (r: Vec<RequiredCustomNodePackage>)
    ensures
        r@.map_values(|p: RequiredCustomNodePackage| package_view(p)) == packs_spec(g),
{
    let r = match g {
        PackGroup::StyleTransfer => vec![RequiredCustomNodePackage { name: "ComfyUi-Untwisting-RoPE", git_url: "https://github.com/BigStationW/ComfyUi-Untwisting-RoPE.git", verify_nodes: vec!["RFInversion", "UntwistingRoPE"], requirements_file: "requirements.txt" }, RequiredCustomNodePackage { name: "ComfyUi-Scale-Image-to-Total-Pixels-Advanced", git_url: "https://github.com/BigStationW/ComfyUi-Scale-Image-to-Total-Pixels-Advanced.git", verify_nodes: vec!["ImageScaleToTotalPixelsX"], requirements_file: "requirements.txt" }],
        PackGroup::Gguf => vec![RequiredCustomNodePackage { name: "ComfyUI-GGUF", git_url: "https://github.com/city96/ComfyUI-GGUF.git", verify_nodes: vec!["UnetLoaderGGUF", "CLIPLoaderGGUF"], requirements_file: "requirements.txt" }],
        PackGroup::ControlNet => vec![RequiredCustomNodePackage { name: "comfyui_controlnet_aux", git_url: "https://github.com/Fannovel16/comfyui_controlnet_aux.git", verify_nodes: vec!["CannyEdgePreprocessor", "DepthAnythingV2Preprocessor", "OpenposePreprocessor", "LineArtPreprocessor", "ScribblePreprocessor", "HEDPreprocessor", "FakeScribblePreprocessor"], requirements_file: "requirements.txt" }],
        PackGroup::Rife => vec![RequiredCustomNodePackage { name: "ComfyUI-Frame-Interpolation", git_url: "https://github.com/Fannovel16/ComfyUI-Frame-Interpolation.git", verify_nodes: vec!["RIFE VFI"], requirements_file: "requirements-no-cupy.txt" }],
        PackGroup::H3Turbo => vec![RequiredCustomNodePackage { name: "ComfyUI-MiniMax-H3-Turbo", git_url: "https://github.com/Larryvrh/ComfyUI-MiniMax-H3-Turbo.git", verify_nodes: vec!["MiniMaxH3TurboLoRA", "MiniMaxH3TurboSampler"], requirements_file: "requirements.txt" }],
        PackGroup::H3TeaCache => vec![RequiredCustomNodePackage { name: "ComfyUI-MiniMaxH3-TeaCache", git_url: "https://github.com/Icyoung/ComfyUI-MiniMaxH3-TeaCache.git", verify_nodes: vec!["MiniMaxH3TeaCache"], requirements_file: "requirements.txt" }],
    };
    proof {
        assert forall|i: int| 0 <= i < r@.len() implies #[trigger] str_views(r@[i].verify_nodes@) == packs_spec(g)[i].2 by {
            assert(str_views(r@[i].verify_nodes@) =~= packs_spec(g)[i].2);
        }
    }
    assert(r@.map_values(|p: RequiredCustomNodePackage| package_view(p)) =~= packs_spec(g));
    r
}

/// The node checks run after ComfyUI starts or before a workflow needs them.
#[derive(Debug, Clone, Copy, PartialEq, Eq, Structural)]
pub enum NodeCheck {
    /// The bundled MooshieUI nodes every workflow uses.
    Mooshie,
    ControlNet,
    StyleTransfer,
    Gguf,
    Rife,
    /// The bundled MiniMax H3 Director nodes of the video timeline.
    H3Director,
}

/// The node classes a check looks for, each with the text that lists it
/// when missing (the class and, for a pack, the pack's name).
pub open spec fn probes_spec(c: NodeCheck) -> Seq<(Seq<char>, Seq<char>)> {
    match c {
        NodeCheck::ControlNet => seq![("CannyEdgePreprocessor"@, "CannyEdgePreprocessor (comfyui_controlnet_aux)"@), ("DepthAnythingV2Preprocessor"@, "DepthAnythingV2Preprocessor (comfyui_controlnet_aux)"@), ("OpenposePreprocessor"@, "OpenposePreprocessor (comfyui_controlnet_aux)"@), ("LineArtPreprocessor"@, "LineArtPreprocessor (comfyui_controlnet_aux)"@), ("ScribblePreprocessor"@, "ScribblePreprocessor (comfyui_controlnet_aux)"@), ("HEDPreprocessor"@, "HEDPreprocessor (comfyui_controlnet_aux)"@), ("FakeScribblePreprocessor"@, "FakeScribblePreprocessor (comfyui_controlnet_aux)"@)],
        NodeCheck::StyleTransfer => seq![("RFInversion"@, "RFInversion (ComfyUi-Untwisting-RoPE)"@), ("UntwistingRoPE"@, "UntwistingRoPE (ComfyUi-Untwisting-RoPE)"@), ("ImageScaleToTotalPixelsX"@, "ImageScaleToTotalPixelsX (ComfyUi-Scale-Image-to-Total-Pixels-Advanced)"@)],
        NodeCheck::Gguf => seq![("UnetLoaderGGUF"@, "UnetLoaderGGUF (ComfyUI-GGUF)"@), ("CLIPLoaderGGUF"@, "CLIPLoaderGGUF (ComfyUI-GGUF)"@)],
        NodeCheck::Rife => seq![("RIFE VFI"@, "RIFE VFI (ComfyUI-Frame-Interpolation)"@)],
        NodeCheck::Mooshie => seq![("MooshieSaveImage"@, "MooshieSaveImage"@), ("MooshieSaveVideo"@, "MooshieSaveVideo"@), ("MooshieLoadVideoPath"@, "MooshieLoadVideoPath"@), ("MooshieFaceDetailer"@, "MooshieFaceDetailer"@), ("MooshieSegmentDetailer"@, "MooshieSegmentDetailer"@), ("MooshieSoftGuidance"@, "MooshieSoftGuidance"@), ("MooshieSmartGuidance"@, "MooshieSmartGuidance"@), ("MooshieCheckpointLoaderPath"@, "MooshieCheckpointLoaderPath"@), ("MooshieDiffusionLoaderPath"@, "MooshieDiffusionLoaderPath"@), ("NanoSaurLoader"@, "NanoSaurLoader"@), ("ApplyTiledDiffusion"@, "ApplyTiledDiffusion"@), ("MooshieAnimaTeaCache"@, "MooshieAnimaTeaCache"@)],
        NodeCheck::H3Director => seq![("MooshieH3Director"@, "MooshieH3Director"@), ("MooshieH3RetakeStitch"@, "MooshieH3RetakeStitch"@)],
    }
}

pub open spec fn probe_views(v: Seq<(&str, &str)>) -> Seq<(Seq<char>, Seq<char>)> {
    v.map_values(|p: (&str, &str)| (p.0@, p.1@))
}

/// The classes a check probes for, with their missing-list labels.
pub fn node_probes(c: NodeCheck) -> (r: Vec<(&'static str, &'static str)>)
    ensures
        probe_views(r@) == probes_spec(c),
{
    let r = match c {
        NodeCheck::ControlNet => vec![("CannyEdgePreprocessor", "CannyEdgePreprocessor (comfyui_controlnet_aux)"), ("DepthAnythingV2Preprocessor", "DepthAnythingV2Preprocessor (comfyui_controlnet_aux)"), ("OpenposePreprocessor", "OpenposePreprocessor (comfyui_controlnet_aux)"), ("LineArtPreprocessor", "LineArtPreprocessor (comfyui_controlnet_aux)"), ("ScribblePreprocessor", "ScribblePreprocessor (comfyui_controlnet_aux)"), ("HEDPreprocessor", "HEDPreprocessor (comfyui_controlnet_aux)"), ("FakeScribblePreprocessor", "FakeScribblePreprocessor (comfyui_controlnet_aux)")],
        NodeCheck::StyleTransfer => vec![("RFInversion", "RFInversion (ComfyUi-Untwisting-RoPE)"), ("UntwistingRoPE", "UntwistingRoPE (ComfyUi-Untwisting-RoPE)"), ("ImageScaleToTotalPixelsX", "ImageScaleToTotalPixelsX (ComfyUi-Scale-Image-to-Total-Pixels-Advanced)")],
        NodeCheck::Gguf => vec![("UnetLoaderGGUF", "UnetLoaderGGUF (ComfyUI-GGUF)"), ("CLIPLoaderGGUF", "CLIPLoaderGGUF (ComfyUI-GGUF)")],
        NodeCheck::Rife => vec![("RIFE VFI", "RIFE VFI (ComfyUI-Frame-Interpolation)")],
        NodeCheck::Mooshie => vec![("MooshieSaveImage", "MooshieSaveImage"), ("MooshieSaveVideo", "MooshieSaveVideo"), ("MooshieLoadVideoPath", "MooshieLoadVideoPath"), ("MooshieFaceDetailer", "MooshieFaceDetailer"), ("MooshieSegmentDetailer", "MooshieSegmentDetailer"), ("MooshieSoftGuidance", "MooshieSoftGuidance"), ("MooshieSmartGuidance", "MooshieSmartGuidance"), ("MooshieCheckpointLoaderPath", "MooshieCheckpointLoaderPath"), ("MooshieDiffusionLoaderPath", "MooshieDiffusionLoaderPath"), ("NanoSaurLoader", "NanoSaurLoader"), ("ApplyTiledDiffusion", "ApplyTiledDiffusion"), ("MooshieAnimaTeaCache", "MooshieAnimaTeaCache")],
        NodeCheck::H3Director => vec![("MooshieH3Director", "MooshieH3Director"), ("MooshieH3RetakeStitch", "MooshieH3RetakeStitch")],
    };
    assert(probe_views(r@) =~= probes_spec(c));
    r
}

/// Marker of the GGUF check's error.
pub const MISSING_GGUF_NODES_MARKER: &'static str = "Required GGUF custom nodes failed to load";

/// Marker of the frame-interpolation check's error.
pub const MISSING_RIFE_NODES_MARKER: &'static str = "Required RIFE custom nodes failed to load";

/// Marker of the MiniMax H3 Director check's error.
pub const MISSING_H3_DIRECTOR_NODES_MARKER: &'static str = "Required MiniMax H3 Director custom nodes failed to load";

/// Marker of the native MiniMax H3 node check's error.
pub const MISSING_H3_NATIVE_NODES_MARKER: &'static str = "Required MiniMax H3 video node failed to load";

/// How many times a check probes before giving up, pausing in between.
pub const NODE_CHECK_ATTEMPTS: u32 = 5;

/// The error a failed check reports, from what was still missing on the
/// last attempt (and, for the MooshieUI nodes, the ComfyUI log tail).
pub open spec fn check_failure_spec(c: NodeCheck, missing: Seq<Seq<char>>, log_tail: Option<Seq<char>>) -> Seq<char> {
    let list = join_with(missing, ", "@);
    let advice = ". Check the ComfyUI log for custom-node import errors."@;
    match c {
        NodeCheck::Mooshie => missing_nodes_message(missing, log_tail),
        NodeCheck::ControlNet => MISSING_CONTROLNET_NODES_MARKER@ + ": "@ + list + advice,
        NodeCheck::StyleTransfer => MISSING_STYLE_TRANSFER_NODES_MARKER@ + ": "@ + list + advice,
        NodeCheck::Gguf => MISSING_GGUF_NODES_MARKER@ + ": "@ + list + advice,
        NodeCheck::Rife => MISSING_RIFE_NODES_MARKER@ + ": "@ + list + advice,
        NodeCheck::H3Director => MISSING_H3_DIRECTOR_NODES_MARKER@ + ": "@ + list
            + ". MooshieUI deploys these on start; fully stop ComfyUI/python.exe and start MooshieUI again so they load. They require ComfyUI 0.30 or newer."@,
    }
}

/// The error of a check that still found classes missing.
pub fn node_check_failure(c: NodeCheck, missing: &[String], log_tail: Option<String>) -> (r: String)
    ensures
        r@ == check_failure_spec(c, string_views(missing@), match log_tail { Some(l) => Some(l@), None => None }),
{
    if c == NodeCheck::Mooshie {
        return format_missing_mooshie_nodes_error(missing, log_tail);
    }
    let mut names: Vec<Vec<char>> = Vec::new();
    let mut i: usize = 0;
    while i < missing.len()
        invariant
            i <= missing.len(),
            views(names@) =~= string_views(missing@.take(i as int)),
        decreases missing.len() - i,
    {
        let ch = chars_of(missing[i].as_str());
        let ghost before = names@;
        names.push(ch);
        assert(views(names@) =~= views(before).push(ch@));
        assert(string_views(missing@.take(i + 1)) =~= string_views(missing@.take(i as int)).push(missing@[i as int]@));
        i += 1;
    }
    assert(missing@.take(missing.len() as int) =~= missing@);
    let list = join_chars(&names, &chars_of(", "));
    let marker = match c {
        NodeCheck::ControlNet => MISSING_CONTROLNET_NODES_MARKER,
        NodeCheck::StyleTransfer => MISSING_STYLE_TRANSFER_NODES_MARKER,
        NodeCheck::Gguf => MISSING_GGUF_NODES_MARKER,
        NodeCheck::Rife => MISSING_RIFE_NODES_MARKER,
        _ => MISSING_H3_DIRECTOR_NODES_MARKER,
    };
    let mut v = chars_of(marker);
    push_str(&mut v, ": ");
    push_all(&mut v, &list);
    if c == NodeCheck::H3Director {
        push_str(&mut v, ". MooshieUI deploys these on start; fully stop ComfyUI/python.exe and start MooshieUI again so they load. They require ComfyUI 0.30 or newer.");
    } else {
        push_str(&mut v, ". Check the ComfyUI log for custom-node import errors.");
    }
    string_of(&v)
}

/// The error when ComfyUI lacks the native MiniMax H3 node a video needs.
pub open spec fn native_h3_failure_spec(node_class: Seq<char>) -> Seq<char> {
    MISSING_H3_NATIVE_NODES_MARKER@ + ": "@ + node_class
        + ". This node ships inside ComfyUI itself (it is not a MooshieUI custom node), and requires ComfyUI 0.30 or newer. Open Settings and run \"Update ComfyUI\", then try again."@
}

/// The error when the native MiniMax H3 node is missing.
pub fn native_h3_node_failure(node_class: &str) -> (r: String)
    ensures
        r@ == native_h3_failure_spec(node_class@),
{
    let mut v = chars_of(MISSING_H3_NATIVE_NODES_MARKER);
    push_str(&mut v, ": ");
    push_str(&mut v, node_class);
    push_str(&mut v, ". This node ships inside ComfyUI itself (it is not a MooshieUI custom node), and requires ComfyUI 0.30 or newer. Open Settings and run \"Update ComfyUI\", then try again.");
    string_of(&v)
}

/// Which MiniMax H3 nodes a generation needs checked before it is queued.
#[derive(Debug, PartialEq, Eq)]
pub enum H3Requirement {
    /// Not a video: nothing to check.
    Nothing,
    /// A timeline drives the video: the bundled Director nodes.
    Director,
    /// ComfyUI's native node for the video variant.
    Native(&'static str),
}

/// What a generation of `mode` needs: a video with a non-blank timeline
/// uses the Director nodes, any other video the native node of its variant.
pub open spec fn h3_requirement_spec(mode: Seq<char>, timeline: Option<Seq<char>>, variant: Seq<char>) -> (int, Seq<char>) {
    if mode != "video"@ {
        (0, Seq::<char>::empty())
    } else if timeline matches Some(t) && trim(t).len() > 0 {
        (1, Seq::<char>::empty())
    } else {
        (2, h3_native_node_class(variant))
    }
}

pub open spec fn h3_requirement_view(r: H3Requirement) -> (int, Seq<char>) {
    match r {
        H3Requirement::Nothing => (0, Seq::<char>::empty()),
        H3Requirement::Director => (1, Seq::<char>::empty()),
        H3Requirement::Native(c) => (2, c@),
    }
}

/// The MiniMax H3 check a generation needs.
pub fn h3_requirement(mode: &str, timeline: Option<&str>, video_variant: &str) -> (r: H3Requirement)
    ensures
        h3_requirement_view(r) == h3_requirement_spec(mode@, match timeline { Some(t) => Some(t@), None => None }, video_variant@),
{
    if !spells(&chars_of(mode), "video") {
        return H3Requirement::Nothing;
    }
    let drives = match timeline {
        Some(t) => trim_chars(&chars_of(t)).len() > 0,
        None => false,
    };
    if drives {
        H3Requirement::Director
    } else {
        H3Requirement::Native(required_h3_native_node_class(video_variant))
    }
}

/// The `/object_info` URL of a node class on a ComfyUI server (trailing
/// slashes of the base URL dropped).
pub fn object_info_url(base_url: &str, node_class: &str) -> (r: String)
    ensures
        r@ == strip_end_char(base_url@, '/') + "/object_info/"@ + node_class@,
{
    let b = chars_of(base_url);
    let mut end: usize = b.len();
    assert(b@.take(end as int) =~= b@);
    while end > 0 && b[end - 1] == '/'
        invariant
            end <= b.len(),
            strip_end_char(b@, '/') == strip_end_char(b@.take(end as int), '/'),
        decreases end,
    {
        assert(b@.take(end as int).drop_last() =~= b@.take(end - 1));
        end -= 1;
    }
    let mut v = copy_range(&b, 0, end);
    assert(v@ =~= b@.take(end as int));
    proof {
        if end > 0 {
            assert(b@.take(end as int).last() == b@[end - 1]);
        }
    }
    push_str(&mut v, "/object_info/");
    push_str(&mut v, node_class);
    string_of(&v)
}

// ---------------------------------------------------------------------------
// Installing a pack
// ---------------------------------------------------------------------------

/// A command for the caller to run: program, arguments and the environment
/// variables to set.
pub struct PlannedCommand {
    pub program: String,
    pub args: Vec<String>,
    pub env: Vec<(String, String)>,
}

pub open spec fn command_view(c: PlannedCommand) -> (Seq<char>, Seq<Seq<char>>, Seq<(Seq<char>, Seq<char>)>) {
    (c.program@, string_views(c.args@), c.env@.map_values(|e: (String, String)| (e.0@, e.1@)))
}

/// A filled text option, trimmed.
pub open spec fn filled_option(o: Option<Seq<char>>) -> Option<Seq<char>> {
    match o {
        Some(t) => if trim(t).len() > 0 { Some(trim(t)) } else { None },
        None => None,
    }
}

/// The proxy environment of a network command: the proxy for HTTP, HTTPS
/// and everything else, when one is configured.
pub open spec fn proxy_env_spec(proxy: Option<Seq<char>>) -> Seq<(Seq<char>, Seq<char>)> {
    match filled_option(proxy) {
        Some(p) => seq![("HTTP_PROXY"@, p), ("HTTPS_PROXY"@, p), ("ALL_PROXY"@, p)],
        None => Seq::<(Seq<char>, Seq<char>)>::empty(),
    }
}

/// The package-index arguments of a pip or `uv pip` install, when a mirror
/// is configured.
pub open spec fn index_args_spec(use_uv: bool, index: Option<Seq<char>>) -> Seq<Seq<char>> {
    match filled_option(index) {
        Some(u) => if use_uv { seq!["--index-url"@, u] } else { seq!["-i"@, u] },
        None => Seq::<Seq<char>>::empty(),
    }
}

fn opt_text(o: Option<&str>) -> (r: Option<Vec<char>>)
    ensures
        match r {
            Some(v) => filled_option(match o { Some(t) => Some(t@), None => None }) == Some(v@),
            None => filled_option(match o { Some(t) => Some(t@), None => None }) is None,
        },
{
    match o {
        Some(t) => {
            let tr = trim_chars(&chars_of(t));
            if tr.len() > 0 { Some(tr) } else { None }
        },
        None => None,
    }
}

fn owned_text(s: &str) -> (r: String)
    ensures
        r@ == s@,
{
    string_of(&chars_of(s))
}

/// The proxy environment for a network command.
pub fn proxy_env(network_proxy: Option<&str>) -> (r: Vec<(String, String)>)
    ensures
        r@.map_values(|e: (String, String)| (e.0@, e.1@)) == proxy_env_spec(match network_proxy { Some(t) => Some(t@), None => None }),
{
    let mut r: Vec<(String, String)> = Vec::new();
    match opt_text(network_proxy) {
        Some(p) => {
            r.push((owned_text("HTTP_PROXY"), string_of(&p)));
            r.push((owned_text("HTTPS_PROXY"), string_of(&p)));
            r.push((owned_text("ALL_PROXY"), string_of(&p)));
        },
        None => {},
    }
    assert(r@.map_values(|e: (String, String)| (e.0@, e.1@)) =~= proxy_env_spec(match network_proxy { Some(t) => Some(t@), None => None }));
    r
}

/// The `git clone` of a pack into its folder, through the proxy if any.
pub fn clone_command(git_url: &str, target_dir: &str, network_proxy: Option<&str>) -> (r: PlannedCommand)
    ensures
        command_view(r) == ("git"@, seq!["clone"@, "--depth=1"@, git_url@, target_dir@],
            proxy_env_spec(match network_proxy { Some(t) => Some(t@), None => None })),
{
    let args = vec![owned_text("clone"), owned_text("--depth=1"), owned_text(git_url), owned_text(target_dir)];
    assert(string_views(args@) =~= seq!["clone"@, "--depth=1"@, git_url@, target_dir@]);
    PlannedCommand { program: owned_text("git"), args, env: proxy_env(network_proxy) }
}

/// How a pack's requirements are installed: with uv when the caller found
/// it (`uv pip install -r`, inside the venv), else with the venv's pip;
/// mirror and proxy applied. Refused when no venv is configured.
pub open spec fn requirements_command_spec(
    uv: Option<Seq<char>>,
    venv_path: Seq<char>,
    windows: bool,
    requirements: Seq<char>,
    package_name: Seq<char>,
    proxy: Option<Seq<char>>,
    index: Option<Seq<char>>,
) -> Result<(Seq<char>, Seq<Seq<char>>, Seq<(Seq<char>, Seq<char>)>), Seq<char>> {
    if trim(venv_path).len() == 0 {
        Err("Cannot install requirements for "@ + package_name + ": ComfyUI venv_path is empty"@)
    } else {
        match uv {
            Some(u) => Ok((u, seq!["pip"@, "install"@, "-r"@, requirements] + index_args_spec(true, index),
                seq![("VIRTUAL_ENV"@, venv_path)] + proxy_env_spec(proxy))),
            None => Ok((
                if windows {
                    joined_path(joined_path(venv_path, "Scripts"@), "pip.exe"@)
                } else {
                    joined_path(joined_path(venv_path, "bin"@), "pip"@)
                },
                seq!["install"@, "-r"@, requirements] + index_args_spec(false, index),
                proxy_env_spec(proxy),
            )),
        }
    }
}

/// The command that installs a pack's requirements.
pub fn requirements_command(
    uv: Option<&str>,
    venv_path: &str,
    windows: bool,
    requirements: &str,
    package_name: &str,
    network_proxy: Option<&str>,
    pip_index_url: Option<&str>,
) -> (r: Result<PlannedCommand, String>)
    ensures
        match r {
            Ok(c) => requirements_command_spec(
                match uv { Some(t) => Some(t@), None => None }, venv_path@, windows, requirements@, package_name@,
                match network_proxy { Some(t) => Some(t@), None => None },
                match pip_index_url { Some(t) => Some(t@), None => None },
            ) == Ok::<(Seq<char>, Seq<Seq<char>>, Seq<(Seq<char>, Seq<char>)>), Seq<char>>(command_view(c)),
            Err(e) => requirements_command_spec(
                match uv { Some(t) => Some(t@), None => None }, venv_path@, windows, requirements@, package_name@,
                match network_proxy { Some(t) => Some(t@), None => None },
                match pip_index_url { Some(t) => Some(t@), None => None },
            ) == Err::<(Seq<char>, Seq<Seq<char>>, Seq<(Seq<char>, Seq<char>)>), Seq<char>>(e@),
        },
{
    if trim_chars(&chars_of(venv_path)).len() == 0 {
        let mut v = chars_of("Cannot install requirements for ");
        push_str(&mut v, package_name);
        push_str(&mut v, ": ComfyUI venv_path is empty");
        return Err(string_of(&v));
    }
    let use_uv = uv.is_some();
    let mut args: Vec<String> = Vec::new();
    let mut env: Vec<(String, String)> = Vec::new();
    let program = match uv {
        Some(u) => {
            args.push(owned_text("pip"));
            env.push((owned_text("VIRTUAL_ENV"), owned_text(venv_path)));
            owned_text(u)
        },
        None => resolve_pip_bin(venv_path, windows),
    };
    args.push(owned_text("install"));
    args.push(owned_text("-r"));
    args.push(owned_text(requirements));
    match opt_text(pip_index_url) {
        Some(url) => {
            if use_uv {
                args.push(owned_text("--index-url"));
            } else {
                args.push(owned_text("-i"));
            }
            args.push(string_of(&url));
        },
        None => {},
    }
    let ghost before_env = env@;
    let extra = proxy_env(network_proxy);
    let mut k: usize = 0;
    while k < extra.len()
        invariant
            k <= extra.len(),
            env@ == before_env + extra@.take(k as int),
        decreases extra.len() - k,
    {
        env.push((extra[k].0.clone(), extra[k].1.clone()));
        assert(env@ =~= before_env + extra@.take(k + 1)) by {
            assert(extra@.take(k + 1) =~= extra@.take(k as int).push(extra@[k as int]));
        }
        k += 1;
    }
    assert(extra@.take(extra.len() as int) =~= extra@);
    let c = PlannedCommand { program, args, env };
    assert(command_view(c).1 =~= (match uv {
        Some(_) => seq!["pip"@, "install"@, "-r"@, requirements@] + index_args_spec(true, match pip_index_url { Some(t) => Some(t@), None => None }),
        None => seq!["install"@, "-r"@, requirements@] + index_args_spec(false, match pip_index_url { Some(t) => Some(t@), None => None }),
    }));
    assert(command_view(c).2 =~= (match uv {
        Some(_) => seq![("VIRTUAL_ENV"@, venv_path@)] + proxy_env_spec(match network_proxy { Some(t) => Some(t@), None => None }),
        None => proxy_env_spec(match network_proxy { Some(t) => Some(t@), None => None }),
    }));
    Ok(c)
}

/// The stamp written after a pack's requirements installed: the lowercase
/// hex SHA-256 of the requirements file.
pub open spec fn stamp_spec(requirements: Seq<u8>) -> Seq<char> {
    crate::text::hex_of(crate::digest::sha256_spec(requirements), false)
}

/// The stamp written after a pack's requirements installed.
pub fn requirements_stamp(requirements: &[u8]) -> (r: String)
    ensures
        r@ == stamp_spec(requirements@),
{
    let digest = crate::digest::sha256(requirements);
    string_of(&crate::text::hex_chars(&digest, false))
}

/// Whether a stamp left by an earlier install matches the requirements as
/// they are now: the stamp, trimmed, is the current one.
pub open spec fn stamp_current_spec(stamp: Option<Seq<char>>, current: Seq<char>) -> bool {
    stamp matches Some(s) && trim(s) == current
}

/// Whether the stamp left by an earlier install matches the requirements
/// file as it is now, so the install can be skipped.
pub fn requirements_up_to_date(stamp: Option<&str>, current: &str) -> (r: bool)
    ensures
        r == stamp_current_spec(match stamp { Some(s) => Some(s@), None => None }, current@),
{
    match stamp {
        Some(s) => same_chars(&trim_chars(&chars_of(s)), &chars_of(current)),
        None => false,
    }
}

/// Once a pack's requirements installed and its stamp was written, the next
/// check on the same requirements file finds the install up to date.
pub proof fn written_stamp_skips_the_next_install(requirements: Seq<u8>)
    ensures
        stamp_current_spec(Some(stamp_spec(requirements)), stamp_spec(requirements)),
{
    crate::text::lemma_hex_solid(crate::digest::sha256_spec(requirements), false);
    crate::text::lemma_trim_solid(stamp_spec(requirements));
}

// ---------------------------------------------------------------------------
// Installing a custom node from the node browser
// ---------------------------------------------------------------------------

/// What the install flow learned last.
#[derive(Debug, Clone, Copy, PartialEq, Eq, Structural)]
pub enum InstallEvent {
    /// The install was asked for; whether the node's folder already exists.
    Begin { target_exists: bool },
    /// `git clone` ended.
    Cloned { success: bool },
    /// Whether the clone has a `requirements.txt`.
    RequirementsChecked { exists: bool },
    /// The requirements install ended.
    PipFinished { success: bool },
}

/// What the install flow does next.
#[derive(Debug, Clone, Copy, PartialEq, Eq, Structural)]
pub enum InstallNext {
    Clone,
    CheckRequirements,
    RunPip,
    /// Finished; `announce` says whether the frontend is told a node was
    /// installed (so it restarts ComfyUI).
    Done { announce: bool },
    /// The clone failed: the install fails with "git clone failed".
    Fail,
}

/// A progress report the frontend shows for an install.
pub struct InstallProgress {
    pub step: &'static str,
    pub message: String,
    pub done: bool,
}

pub open spec fn progress_view(v: Seq<InstallProgress>) -> Seq<(Seq<char>, Seq<char>, bool)> {
    v.map_values(|p: InstallProgress| (p.step@, p.message@, p.done))
}

/// The reports and the next move after each event. A node whose folder
/// exists is already installed; a failed clone fails the install; a failed
/// requirements install is reported but the node still counts as installed.
pub open spec fn install_step_spec(node_name: Seq<char>, e: InstallEvent) -> (Seq<(Seq<char>, Seq<char>, bool)>, InstallNext) {
    let installed = ("done"@, node_name + " installed successfully"@, true);
    match e {
        InstallEvent::Begin { target_exists } => if target_exists {
            (seq![("done"@, "Already installed"@, true)], InstallNext::Done { announce: false })
        } else {
            (seq![("clone"@, "Cloning "@ + node_name + "..."@, false)], InstallNext::Clone)
        },
        InstallEvent::Cloned { success } => if success {
            (Seq::empty(), InstallNext::CheckRequirements)
        } else {
            (seq![("error"@, "git clone failed"@, true)], InstallNext::Fail)
        },
        InstallEvent::RequirementsChecked { exists } => if exists {
            (seq![("pip"@, "Installing Python dependencies..."@, false)], InstallNext::RunPip)
        } else {
            (seq![installed], InstallNext::Done { announce: true })
        },
        InstallEvent::PipFinished { success } => if success {
            (seq![installed], InstallNext::Done { announce: true })
        } else {
            (seq![("error"@, "pip install failed (some features may not work)"@, false), installed], InstallNext::Done { announce: true })
        },
    }
}

fn progress(step: &'static str, message: String, done: bool) -> (r: InstallProgress)
    ensures
        r.step == step,
        r.message == message,
        r.done == done,
{
    InstallProgress { step, message, done }
}

fn lit(s: &str) -> (r: String)
    ensures
        r@ == s@,
{
    string_of(&chars_of(s))
}

fn installed_message(node_name: &str) -> (r: String)
    ensures
        r@ == node_name@ + " installed successfully"@,
{
    let mut m = chars_of(node_name);
    push_str(&mut m, " installed successfully");
    string_of(&m)
}

/// One step of installing a custom node.
pub fn custom_node_install_step(node_name: &str, e: InstallEvent) -> (r: (Vec<InstallProgress>, InstallNext))
    ensures
        (progress_view(r.0@), r.1) == install_step_spec(node_name@, e),
{
    let r = match e {
        InstallEvent::Begin { target_exists } => if target_exists {
            (vec![progress("done", lit("Already installed"), true)], InstallNext::Done { announce: false })
        } else {
            let mut m = chars_of("Cloning ");
            push_str(&mut m, node_name);
            push_str(&mut m, "...");
            (vec![progress("clone", string_of(&m), false)], InstallNext::Clone)
        },
        InstallEvent::Cloned { success } => if success {
            (Vec::new(), InstallNext::CheckRequirements)
        } else {
            (vec![progress("error", lit("git clone failed"), true)], InstallNext::Fail)
        },
        InstallEvent::RequirementsChecked { exists } => if exists {
            (vec![progress("pip", lit("Installing Python dependencies..."), false)], InstallNext::RunPip)
        } else {
            (vec![progress("done", installed_message(node_name), true)], InstallNext::Done { announce: true })
        },
        InstallEvent::PipFinished { success } => if success {
            (vec![progress("done", installed_message(node_name), true)], InstallNext::Done { announce: true })
        } else {
            (
                vec![
                    progress("error", lit("pip install failed (some features may not work)"), false),
                    progress("done", installed_message(node_name), true),
                ],
                InstallNext::Done { announce: true },
            )
        },
    };
    assert(progress_view(r.0@) =~= install_step_spec(node_name@, e).0);
    r
}

/// A line streamed from `git clone` or `pip` shown as progress: trimmed, and
/// not at all when blank.
pub fn install_output_line(line: &str) -> (r: Option<String>)
    ensures
        match r {
            Some(t) => trim(line@).len() > 0 && t@ == trim(line@),
            None => trim(line@).len() == 0,
        },
{
    let t = trim_chars(&chars_of(line));
    if t.len() == 0 { None } else { Some(string_of(&t)) }
}


// ---------------------------------------------------------------------------
// Installing the frame-interpolation pack and its checkpoint
// ---------------------------------------------------------------------------

/// How many mirrors the RIFE checkpoint is fetched from.
pub const RIFE_MIRROR_COUNT: usize = 5;

/// Mirror `i` of the RIFE checkpoint, in the order they are tried. Mirrors
/// go stale independently, so every one is tried before the download fails.
pub open spec fn rife_ckpt_url_spec(i: int) -> Seq<char> {
    if i == 0 {
        "https://github.com/Fannovel16/ComfyUI-Frame-Interpolation/releases/download/models/rife49.pth"@
    } else if i == 1 {
        "https://huggingface.co/marduk191/rife/resolve/main/rife49.pth"@
    } else if i == 2 {
        "https://huggingface.co/MachineDelusions/RIFE/resolve/main/rife49.pth"@
    } else if i == 3 {
        "https://huggingface.co/Isi99999/Frame_Interpolation_Models/resolve/main/rife49.pth"@
    } else {
        "https://huggingface.co/hfmaster/models-moved/resolve/main/rife/rife49.pth"@
    }
}

/// Mirror `i` of the RIFE checkpoint.
pub fn rife_ckpt_url(i: usize) -> (r: &'static str)
    requires
        i < RIFE_MIRROR_COUNT,
    ensures
        r@ == rife_ckpt_url_spec(i as int),
{
    if i == 0 {
        "https://github.com/Fannovel16/ComfyUI-Frame-Interpolation/releases/download/models/rife49.pth"
    } else if i == 1 {
        "https://huggingface.co/marduk191/rife/resolve/main/rife49.pth"
    } else if i == 2 {
        "https://huggingface.co/MachineDelusions/RIFE/resolve/main/rife49.pth"
    } else if i == 3 {
        "https://huggingface.co/Isi99999/Frame_Interpolation_Models/resolve/main/rife49.pth"
    } else {
        "https://huggingface.co/hfmaster/models-moved/resolve/main/rife/rife49.pth"
    }
}

/// What the RIFE install learned last.
#[derive(Debug, Clone)]
pub enum RifeEvent {
    /// The install was asked for.
    Begin,
    /// Cloning and installing the pack ended, with its error if it failed.
    NodesEnsured { error: Option<String> },
    /// Whether a plausible checkpoint is already on disk.
    CheckpointChecked { present: bool },
    /// A leftover partial checkpoint was removed and the checkpoint directory
    /// created, with the error if creating it failed.
    DirPrepared { error: Option<String> },
    /// A download from mirror `mirror` ended, with its error if it failed.
    MirrorFinished { mirror: usize, error: Option<String> },
}

/// What the RIFE install does next.
#[derive(Debug, Clone, Copy, PartialEq, Eq, Structural)]
pub enum RifeNext {
    /// Clone and install the pack.
    EnsureNodes,
    /// Look for a plausible checkpoint on disk.
    CheckCheckpoint,
    /// Remove a leftover partial checkpoint and create its directory.
    PrepareDir,
    /// Download the checkpoint from this mirror.
    Download { mirror: usize },
    /// The install is finished.
    Done,
    /// The install failed; the last report carries the error.
    Fail,
}

pub open spec fn rife_ready() -> (Seq<char>, Seq<char>, bool) {
    ("done"@, "RIFE frame interpolation is ready"@, true)
}

/// The reports, the next move and the mirror failures after each event of
/// the RIFE install. A blank ComfyUI path fails at once; a checkpoint on
/// disk finishes the install; each failed mirror is recorded as
/// `url: error` and the next one tried, and once every mirror failed the
/// install fails naming each of them.
pub open spec fn rife_step_spec(
    comfyui_path: Seq<char>,
    failures: Seq<Seq<char>>,
    e: RifeEvent,
) -> (Seq<(Seq<char>, Seq<char>, bool)>, RifeNext, Seq<Seq<char>>) {
    match e {
        RifeEvent::Begin => if trim(comfyui_path).len() == 0 {
            (seq![("error"@, "ComfyUI path is not configured"@, true)], RifeNext::Fail, failures)
        } else {
            (seq![("clone"@, "Installing frame interpolation nodes..."@, false)], RifeNext::EnsureNodes, failures)
        },
        RifeEvent::NodesEnsured { error } => match error {
            Some(m) => (seq![("error"@, m@, true)], RifeNext::Fail, failures),
            None => (Seq::empty(), RifeNext::CheckCheckpoint, failures),
        },
        RifeEvent::CheckpointChecked { present } => if present {
            (seq![rife_ready()], RifeNext::Done, failures)
        } else {
            (Seq::empty(), RifeNext::PrepareDir, failures)
        },
        RifeEvent::DirPrepared { error } => match error {
            Some(m) => (
                seq![(
                    "error"@,
                    "Failed to create RIFE checkpoint directory at '"@ + joined_all(
                        comfyui_path,
                        seq!["custom_nodes"@, RIFE_PACKAGE_DIR@, "ckpts"@, "rife"@],
                    ) + "': "@ + m@,
                    true,
                )],
                RifeNext::Fail,
                failures,
            ),
            None => (seq![("download"@, "Downloading rife49.pth..."@, false)], RifeNext::Download { mirror: 0 }, failures),
        },
        RifeEvent::MirrorFinished { mirror, error } => match error {
            None => (seq![rife_ready()], RifeNext::Done, failures),
            Some(m) => {
                let f = failures.push(rife_ckpt_url_spec(mirror as int) + ": "@ + m@);
                if mirror + 1 < RIFE_MIRROR_COUNT {
                    (
                        seq![(
                            "download"@,
                            "Retrying rife49.pth from mirror "@ + crate::text::decimal((mirror + 2) as nat)
                                + " of 5..."@,
                            false,
                        )],
                        RifeNext::Download { mirror: (mirror + 1) as usize },
                        f,
                    )
                } else {
                    (
                        seq![(
                            "error"@,
                            "Failed to download rife49.pth from any of 5 mirrors.\n"@ + join_with(f, "\n"@),
                            true,
                        )],
                        RifeNext::Fail,
                        f,
                    )
                }
            },
        },
    }
}

/// Every step of the RIFE install that ends it (done or failed) ends with
/// a final report, and no other report is final: the frontend sees the
/// install finish once, and last.
pub proof fn rife_install_finishes_last(comfyui_path: Seq<char>, failures: Seq<Seq<char>>, e: RifeEvent)
    ensures
        ({
            let (reps, next, _f) = rife_step_spec(comfyui_path, failures, e);
            &&& (next == RifeNext::Done || next == RifeNext::Fail) <==> (reps.len() > 0 && reps.last().2)
            &&& forall|i: int| 0 <= i < reps.len() - 1 ==> !(#[trigger] reps[i]).2
        }),
{
}

/// One step of installing the RIFE frame-interpolation pack and its
/// checkpoint; `failures` collects the mirrors that failed so far.
pub fn rife_install_step(comfyui_path: &str, failures: &mut Vec<String>, e: RifeEvent) -> (r: (
    Vec<InstallProgress>,
    RifeNext,
))
    requires
        e matches RifeEvent::MirrorFinished { mirror, .. } ==> mirror < RIFE_MIRROR_COUNT,
    ensures
        (progress_view(r.0@), r.1, string_views(final(failures)@)) == rife_step_spec(
            comfyui_path@,
            string_views(old(failures)@),
            e,
        ),
{
    let ghost f0 = string_views(failures@);
    let ghost e0 = e;
    let r = match e {
        RifeEvent::Begin => {
            let t = trim_chars(&chars_of(comfyui_path));
            if t.len() == 0 {
                (vec![progress("error", lit("ComfyUI path is not configured"), true)], RifeNext::Fail)
            } else {
                (vec![progress("clone", lit("Installing frame interpolation nodes..."), false)], RifeNext::EnsureNodes)
            }
        },
        RifeEvent::NodesEnsured { error } => match error {
            Some(m) => (vec![progress("error", m, true)], RifeNext::Fail),
            None => (Vec::new(), RifeNext::CheckCheckpoint),
        },
        RifeEvent::CheckpointChecked { present } => if present {
            (vec![progress("done", lit("RIFE frame interpolation is ready"), true)], RifeNext::Done)
        } else {
            (Vec::new(), RifeNext::PrepareDir)
        },
        RifeEvent::DirPrepared { error } => match error {
            Some(m) => {
                let dir = rife_ckpt_dir(comfyui_path);
                let mut t = chars_of("Failed to create RIFE checkpoint directory at '");
                push_str(&mut t, dir.as_str());
                push_str(&mut t, "': ");
                push_str(&mut t, m.as_str());
                (vec![progress("error", string_of(&t), true)], RifeNext::Fail)
            },
            None => (vec![progress("download", lit("Downloading rife49.pth..."), false)], RifeNext::Download { mirror: 0 }),
        },
        RifeEvent::MirrorFinished { mirror, error } => match error {
            None => (vec![progress("done", lit("RIFE frame interpolation is ready"), true)], RifeNext::Done),
            Some(m) => {
                let mut line = chars_of(rife_ckpt_url(mirror));
                push_str(&mut line, ": ");
                push_str(&mut line, m.as_str());
                let ghost fb = failures@;
                failures.push(string_of(&line));
                assert(string_views(failures@) =~= string_views(fb).push(line@));
                if mirror + 1 < RIFE_MIRROR_COUNT {
                    let mut t = chars_of("Retrying rife49.pth from mirror ");
                    push_all(&mut t, &crate::text::decimal_of((mirror + 2) as u64));
                    push_str(&mut t, " of 5...");
                    (vec![progress("download", string_of(&t), false)], RifeNext::Download { mirror: mirror + 1 })
                } else {
                    let views_now: Vec<Vec<char>> = failure_chars(failures);
                    let mut t = chars_of("Failed to download rife49.pth from any of 5 mirrors.\n");
                    let sep = chars_of("\n");
                    push_all(&mut t, &join_chars(&views_now, &sep));
                    (vec![progress("error", string_of(&t), true)], RifeNext::Fail)
                }
            },
        },
    };
    proof {
        reveal_strlit("\n");
    }
    assert(progress_view(r.0@) =~= rife_step_spec(comfyui_path@, f0, e0).0);
    r
}

fn failure_chars(v: &Vec<String>) -> (r: Vec<Vec<char>>)
    ensures
        views(r@) == string_views(v@),
{
    let mut r: Vec<Vec<char>> = Vec::new();
    let mut i: usize = 0;
    while i < v.len()
        invariant
            i <= v.len(),
            views(r@) == string_views(v@).take(i as int),
        decreases v.len() - i,
    {
        let ghost before = r@;
        r.push(chars_of(v[i].as_str()));
        assert(views(r@) =~= views(before).push(v@[i as int]@));
        assert(string_views(v@).take(i + 1) =~= string_views(v@).take(i as int).push(v@[i as int]@));
        i += 1;
    }
    assert(string_views(v@).take(v.len() as int) =~= string_views(v@));
    r
}

/// The progress report while the checkpoint streams in, due once more than
/// a MiB arrived since the last one: a percentage when the length is known,
/// else the megabytes so far.
pub open spec fn rife_download_progress_spec(downloaded: nat, last_emit: nat, total: nat) -> Option<Seq<char>> {
    if downloaded - last_emit > 1048576 {
        if total != 0 {
            Some("Downloading rife49.pth ("@ + crate::text::decimal((downloaded * 100 / total) as nat) + "%)"@)
        } else {
            Some("Downloading rife49.pth ("@ + crate::text::decimal(downloaded / 1048576) + " MB)"@)
        }
    } else {
        None
    }
}

/// The progress report due after `downloaded` bytes, if one is due.
pub fn rife_download_progress(downloaded: u64, last_emit: u64, total: u64) -> (r: Option<String>)
    requires
        last_emit <= downloaded,
        downloaded * 100 <= u64::MAX,
    ensures
        match r {
            Some(m) => rife_download_progress_spec(downloaded as nat, last_emit as nat, total as nat) == Some(m@),
            None => rife_download_progress_spec(downloaded as nat, last_emit as nat, total as nat) is None,
        },
{
    if downloaded - last_emit > 1048576 {
        let mut t = chars_of("Downloading rife49.pth (");
        if total != 0 {
            push_all(&mut t, &crate::text::decimal_of(downloaded * 100 / total));
            push_str(&mut t, "%)");
        } else {
            push_all(&mut t, &crate::text::decimal_of(downloaded / 1048576));
            push_str(&mut t, " MB)");
        }
        Some(string_of(&t))
    } else {
        None
    }
}

/// The error for a download too short to be the checkpoint (an HTML error
/// page or an LFS pointer), if it was.
pub fn rife_short_download(downloaded: u64) -> (r: Option<String>)
    ensures
        match r {
            Some(m) => downloaded < RIFE_CKPT_MIN_BYTES && m@ == "served only "@ + crate::text::decimal(
                downloaded as nat,
            ) + " bytes, expected at least 16 MB"@,
            None => downloaded >= RIFE_CKPT_MIN_BYTES,
        },
{
    if downloaded < RIFE_CKPT_MIN_BYTES {
        let mut t = chars_of("served only ");
        push_all(&mut t, &crate::text::decimal_of(downloaded));
        push_str(&mut t, " bytes, expected at least 16 MB");
        Some(string_of(&t))
    } else {
        None
    }
}

} // verus!
