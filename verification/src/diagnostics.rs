//! The text of the diagnostic log a user attaches to a bug report. The
//! caller gathers the facts (environment, folder listings, file sizes, git
//! refs); these functions decide what is shown and how, and keep secrets out.
use vstd::prelude::*;
use crate::sorting::{sort_order, stable_sort_order};
use crate::text::{
    chars_of, copy_range, decimal, decimal_of, ends, ends_with, find, find_spec, lines_of,
    lowercase_chars, push_all, push_str, same_chars, split_once_chars, split_once_spec,
    starts, starts_with, std_lines, string_of, trim, trim_chars, unicode_lower, views,
};

verus! {

// ---------------------------------------------------------------------------
// Proxy credentials
// ---------------------------------------------------------------------------

/// A proxy URL with any `user:pass@` part between `://` and the first `@`
/// replaced by `***`, so the host stays visible and the secret does not.
pub open spec fn redacted_proxy(url: Seq<char>) -> Seq<char> {
    match (find_spec(url, "://"@), find_spec(url, seq!['@'])) {
        (Some(scheme_end), Some(at)) => if at > scheme_end + 3 {
            url.take(scheme_end) + "://***@"@ + url.skip(at + 1)
        } else {
            url
        },
        _ => url,
    }
}

/// Hide the credentials of a proxy URL.
pub fn redact_proxy_credentials(url: &str) -> (r: String)
    ensures
        r@ == redacted_proxy(url@),
{
    let c = chars_of(url);
    let sep = chars_of("://");
    let at_sign = chars_of("@");
    proof {
        reveal_strlit("@");
        assert(at_sign@ =~= seq!['@']);
    }
    match (find(&c, &sep), find(&c, &at_sign)) {
        (Some(scheme_end), Some(at)) => {
            assert(at < c.len());
            if at > scheme_end && at - scheme_end > 3 {
                let mut v = copy_range(&c, 0, scheme_end);
                push_str(&mut v, "://***@");
                let rest = copy_range(&c, at + 1, c.len());
                push_all(&mut v, &rest);
                assert(v@ =~= url@.take(scheme_end as int) + "://***@"@ + url@.skip(at + 1));
                string_of(&v)
            } else {
                string_of(&c)
            }
        },
        _ => string_of(&c),
    }
}

// ---------------------------------------------------------------------------
// Environment
// ---------------------------------------------------------------------------

/// The environment variables the log reports: device selection, allocator
/// tuning, ROCm overrides, the Hugging Face cache, ComfyUI arguments and
/// proxies. Nothing that holds a key or token.
pub open spec fn tracked_env_spec() -> Seq<Seq<char>> {
    seq![
        "CUDA_VISIBLE_DEVICES"@, "HIP_VISIBLE_DEVICES"@, "ROCR_VISIBLE_DEVICES"@,
        "HSA_OVERRIDE_GFX_VERSION"@, "PYTORCH_CUDA_ALLOC_CONF"@, "PYTORCH_HIP_ALLOC_CONF"@,
        "PYTORCH_ENABLE_MPS_FALLBACK"@, "HF_HOME"@, "HF_HUB_OFFLINE"@, "HF_HUB_ENABLE_HF_TRANSFER"@,
        "COMMANDLINE_ARGS"@, "MOOSHIEUI_LLAMA_BIN_DIR"@, "HTTP_PROXY"@, "HTTPS_PROXY"@
    ]
}

/// The names of the environment variables the log reports, in order.
pub fn tracked_env_vars() -> (r: Vec<&'static str>)
    ensures
        crate::text::str_views(r@) == tracked_env_spec(),
{
    let v = vec![
        "CUDA_VISIBLE_DEVICES", "HIP_VISIBLE_DEVICES", "ROCR_VISIBLE_DEVICES",
        "HSA_OVERRIDE_GFX_VERSION", "PYTORCH_CUDA_ALLOC_CONF", "PYTORCH_HIP_ALLOC_CONF",
        "PYTORCH_ENABLE_MPS_FALLBACK", "HF_HOME", "HF_HUB_OFFLINE", "HF_HUB_ENABLE_HF_TRANSFER",
        "COMMANDLINE_ARGS", "MOOSHIEUI_LLAMA_BIN_DIR", "HTTP_PROXY", "HTTPS_PROXY"
    ];
    assert(crate::text::str_views(v@) =~= tracked_env_spec());
    v
}

/// How a set variable is shown: proxies with their credentials hidden.
pub open spec fn env_line(name: Seq<char>, value: Seq<char>) -> Seq<char> {
    let shown = if ends_with(name, "PROXY"@) { redacted_proxy(value) } else { value };
    name + "="@ + shown + "\n"@
}

/// The lines for the first `n` tracked variables that are set and not empty.
pub open spec fn env_lines(values: Seq<Option<Seq<char>>>, n: int) -> Seq<char>
    decreases n,
{
    if n <= 0 {
        Seq::<char>::empty()
    } else {
        env_lines(values, n - 1) + match values[n - 1] {
            Some(v) => if v.len() > 0 { env_line(tracked_env_spec()[n - 1], v) } else { Seq::<char>::empty() },
            None => Seq::<char>::empty(),
        }
    }
}

/// The environment section of the log.
pub open spec fn env_section_spec(values: Seq<Option<Seq<char>>>) -> Seq<char> {
    let body = env_lines(values, 14);
    "=== Environment (relevant) ===\n"@ + (if body.len() == 0 {
        "(none of the tracked variables are set)\n"@
    } else {
        body
    }) + "\n"@
}

pub open spec fn opt_views(v: Seq<Option<String>>) -> Seq<Option<Seq<char>>> {
    v.map_values(|o: Option<String>| match o {
        Some(s) => Some(s@),
        None => None,
    })
}

/// The environment section, from the value of each tracked variable (in
/// the order of `tracked_env_vars`; `None` when unset).
pub fn env_section(values: &Vec<Option<String>>) -> (r: String)
    requires
        values.len() == 14,
    ensures
        r@ == env_section_spec(opt_views(values@)),
{
    let names = tracked_env_vars();
    assert(names@.len() == crate::text::str_views(names@).len());
    let ghost vv = opt_views(values@);
    let mut body: Vec<char> = Vec::new();
    let mut i: usize = 0;
    while i < 14
        invariant
            i <= 14,
            values.len() == 14,
            names.len() == 14,
            vv == opt_views(values@),
            crate::text::str_views(names@) == tracked_env_spec(),
            body@ == env_lines(vv, i as int),
        decreases 14 - i,
    {
        assert(vv[i as int] == match values@[i as int] {
            Some(s) => Some(s@),
            None => None,
        });
        assert(crate::text::str_views(names@)[i as int] == names@[i as int]@);
        match &values[i] {
            Some(v) => {
                let vc = chars_of(v.as_str());
                if vc.len() > 0 {
                    let name = names[i];
                    let nc = chars_of(name);
                    let shown = if ends(&nc, "PROXY") {
                        chars_of(redact_proxy_credentials(v.as_str()).as_str())
                    } else {
                        vc
                    };
                    let ghost before = body@;
                    push_all(&mut body, &nc);
                    push_str(&mut body, "=");
                    push_all(&mut body, &shown);
                    push_str(&mut body, "\n");
                    assert(body@ =~= before + env_line(tracked_env_spec()[i as int], v@));
                }
            },
            None => {},
        }
        assert(body@ =~= env_lines(vv, i + 1));
        i += 1;
    }
    let mut out = chars_of("=== Environment (relevant) ===\n");
    if body.len() == 0 {
        push_str(&mut out, "(none of the tracked variables are set)\n");
    } else {
        push_all(&mut out, &body);
    }
    push_str(&mut out, "\n");
    string_of(&out)
}

// ---------------------------------------------------------------------------
// Git revisions of custom nodes
// ---------------------------------------------------------------------------

/// A short commit id: the first nine characters of the trimmed id.
pub open spec fn short_rev_spec(sha: Seq<char>) -> Seq<char> {
    let t = trim(sha);
    if t.len() > 9 { t.take(9) } else { t }
}

/// The short form of a commit id.
pub fn short_rev(sha: &str) -> (r: String)
    ensures
        r@ == short_rev_spec(sha@),
{
    let t = trim_chars(&chars_of(sha));
    if t.len() > 9 {
        string_of(&copy_range(&t, 0, 9))
    } else {
        string_of(&t)
    }
}

/// What a checkout's `HEAD` file points at.
#[derive(Debug, PartialEq, Eq)]
pub enum GitHead {
    /// A branch: the path of the ref file under `.git`.
    Ref(String),
    /// A detached head: the short commit id.
    Detached(String),
}

/// The meaning of `HEAD`: `ref: <path>` names a ref, anything else is a
/// commit id (the text is trimmed first).
pub open spec fn git_head_spec(head: Seq<char>) -> (bool, Seq<char>) {
    let t = trim(head);
    if starts_with(t, "ref: "@) {
        (true, t.skip(5))
    } else {
        (false, short_rev_spec(t))
    }
}

pub open spec fn git_head_view(h: GitHead) -> (bool, Seq<char>) {
    match h {
        GitHead::Ref(p) => (true, p@),
        GitHead::Detached(s) => (false, s@),
    }
}

/// Read the contents of a checkout's `HEAD` file.
pub fn parse_git_head(head: &str) -> (r: GitHead)
    ensures
        git_head_view(r) == git_head_spec(head@),
{
    let t = trim_chars(&chars_of(head));
    if starts(&t, "ref: ") {
        proof { reveal_strlit("ref: "); }
        let rest = copy_range(&t, 5, t.len());
        GitHead::Ref(string_of(&rest))
    } else {
        let ts = string_of(&t);
        assert(trim(t@) == t@) by {
            crate::text::lemma_trim_idempotent(head@);
        }
        GitHead::Detached(short_rev(ts.as_str()))
    }
}

/// The commit of `ref_path` in a `packed-refs` file: from the first line
/// `<sha> <name>` whose trimmed name is the ref.
pub open spec fn packed_rev_spec(lines: Seq<Seq<char>>, ref_path: Seq<char>) -> Option<Seq<char>>
    decreases lines.len(),
{
    if lines.len() == 0 {
        None
    } else {
        match split_once_spec(lines[0], ' ') {
            Some((sha, name)) => if trim(name) == ref_path {
                Some(short_rev_spec(sha))
            } else {
                packed_rev_spec(lines.drop_first(), ref_path)
            },
            None => packed_rev_spec(lines.drop_first(), ref_path),
        }
    }
}

/// Look a ref up in the text of a `packed-refs` file.
pub fn packed_ref_rev(packed: &str, ref_path: &str) -> (r: Option<String>)
    ensures
        match r {
            Some(s) => packed_rev_spec(std_lines(packed@), ref_path@) == Some(s@),
            None => packed_rev_spec(std_lines(packed@), ref_path@) is None,
        },
{
    let pc = chars_of(packed);
    let lines = lines_of(&pc);
    let ghost lv = views(lines@);
    assert(lv == std_lines(packed@));
    let want = chars_of(ref_path);
    let mut i: usize = 0;
    assert(lv.skip(0) =~= lv);
    while i < lines.len()
        invariant
            i <= lines.len(),
            lv == views(lines@),
            lv == std_lines(packed@),
            want@ == ref_path@,
            packed_rev_spec(lv, ref_path@) == packed_rev_spec(lv.skip(i as int), ref_path@),
        decreases lines.len() - i,
    {
        assert(lv.skip(i as int).drop_first() =~= lv.skip(i + 1));
        assert(lv.skip(i as int)[0] == lines@[i as int]@);
        match split_once_chars(&lines[i], ' ') {
            Some((sha, name)) => {
                let tn = trim_chars(&name);
                if same_chars(&tn, &want) {
                    return Some(short_rev(string_of(&sha).as_str()));
                }
            },
            None => {},
        }
        i += 1;
    }
    None
}

// ---------------------------------------------------------------------------
// Custom nodes
// ---------------------------------------------------------------------------

/// At most the first `n` of `o`.
pub open spec fn first_n<T>(o: Seq<T>, n: nat) -> Seq<T> {
    if o.len() > n { o.take(n as int) } else { o }
}

/// What the caller found in `custom_nodes/`.
pub enum NodeListing {
    /// No ComfyUI install is configured.
    NotConfigured,
    /// The folder could not be read: its path and the error, as displayed.
    Unreadable { dir: String, error: String },
    /// The names of its subfolders (in listing order), each with its short
    /// git revision when it is a checkout.
    Listed(Vec<(String, Option<String>)>),
}

pub open spec fn entry_view(e: (String, Option<String>)) -> (Seq<char>, Option<Seq<char>>) {
    (e.0@, match e.1 {
        Some(r) => Some(r@),
        None => None,
    })
}

pub open spec fn entry_views(v: Seq<(String, Option<String>)>) -> Seq<(Seq<char>, Option<Seq<char>>)> {
    v.map_values(|e: (String, Option<String>)| entry_view(e))
}

/// The listed folders that are custom nodes: Python's bytecode cache is not.
pub open spec fn node_entries(v: Seq<(Seq<char>, Option<Seq<char>>)>) -> Seq<(Seq<char>, Option<Seq<char>>)>
    decreases v.len(),
{
    if v.len() == 0 {
        v
    } else if v.last().0 == "__pycache__"@ {
        node_entries(v.drop_last())
    } else {
        node_entries(v.drop_last()).push(v.last())
    }
}

/// Nodes are listed by name, ignoring case.
pub open spec fn node_keys(v: Seq<(Seq<char>, Option<Seq<char>>)>) -> Seq<Seq<char>> {
    v.map_values(|e: (Seq<char>, Option<Seq<char>>)| unicode_lower(e.0))
}

/// One node's line: its name, its revision, and whether it is disabled.
pub open spec fn node_line(e: (Seq<char>, Option<Seq<char>>)) -> Seq<char> {
    "  "@ + e.0 + match e.1 {
        Some(r) => " @ "@ + r,
        None => Seq::<char>::empty(),
    } + (if ends_with(e.0, ".disabled"@) { " (disabled)"@ } else { Seq::<char>::empty() }) + "\n"@
}

/// The lines of the nodes at the indices `o`, in that order.
pub open spec fn node_lines(v: Seq<(Seq<char>, Option<Seq<char>>)>, o: Seq<int>) -> Seq<char>
    decreases o.len(),
{
    if o.len() == 0 {
        Seq::<char>::empty()
    } else {
        node_lines(v, o.drop_last()) + node_line(v[o.last()])
    }
}

/// The custom-nodes section of the log: at most 300 nodes, sorted by name
/// ignoring case, then how many more there are.
pub open spec fn custom_nodes_section_spec(listing: NodeListing) -> Seq<char> {
    "=== Custom Nodes ===\n"@ + match listing {
        NodeListing::NotConfigured => "(ComfyUI path not configured)\n"@,
        NodeListing::Unreadable { dir, error } => "(could not read "@ + dir@ + ": "@ + error@ + ")\n"@,
        NodeListing::Listed(entries) => {
            let nodes = node_entries(entry_views(entries@));
            if nodes.len() == 0 {
                "(none installed)\n"@
            } else {
                decimal(nodes.len()) + " installed:\n"@ + node_lines(nodes, first_n(sort_order(node_keys(nodes)), 300))
                    + (if nodes.len() > 300 {
                    "  ... and "@ + decimal((nodes.len() - 300) as nat) + " more\n"@
                } else {
                    Seq::<char>::empty()
                })
            }
        },
    } + "\n"@
}

/// Text for an optional revision.
fn opt_chars(o: &Option<String>) -> (r: Option<Vec<char>>)
    ensures
        match r {
            Some(v) => o matches Some(s) && v@ == s@,
            None => o is None,
        },
{
    match o {
        Some(s) => Some(chars_of(s.as_str())),
        None => None,
    }
}

/// The custom-nodes section of the diagnostic log.
pub fn custom_nodes_section(listing: &NodeListing) -> (r: String)
    ensures
        r@ == custom_nodes_section_spec(*listing),
{
    let mut out = chars_of("=== Custom Nodes ===\n");
    match listing {
        NodeListing::NotConfigured => {
            push_str(&mut out, "(ComfyUI path not configured)\n");
        },
        NodeListing::Unreadable { dir, error } => {
            push_str(&mut out, "(could not read ");
            push_str(&mut out, dir.as_str());
            push_str(&mut out, ": ");
            push_str(&mut out, error.as_str());
            push_str(&mut out, ")\n");
        },
        NodeListing::Listed(entries) => {
            let ghost ev = entry_views(entries@);
            let mut names: Vec<Vec<char>> = Vec::new();
            let mut revs: Vec<Option<Vec<char>>> = Vec::new();
            let mut keys: Vec<Vec<char>> = Vec::new();
            let mut i: usize = 0;
            while i < entries.len()
                invariant
                    i <= entries.len(),
                    ev == entry_views(entries@),
                    names.len() == revs.len(),
                    names.len() == keys.len(),
                    node_entries(ev.take(i as int)).len() == names.len(),
                    forall|k: int| 0 <= k < names.len() ==> (#[trigger] node_entries(ev.take(i as int))[k]).0 == names@[k]@,
                    forall|k: int| 0 <= k < names.len() ==> (#[trigger] node_entries(ev.take(i as int))[k]).1 == match revs@[k] {
                        Some(v) => Some(v@),
                        None => None::<Seq<char>>,
                    },
                    views(keys@) == node_keys(node_entries(ev.take(i as int))),
                decreases entries.len() - i,
            {
                assert(ev.take(i + 1).drop_last() =~= ev.take(i as int));
                assert(ev[i as int] == entry_view(entries@[i as int]));
                let name = chars_of(entries[i].0.as_str());
                if !crate::text::spells(&name, "__pycache__") {
                    let rev = opt_chars(&entries[i].1);
                    let key = lowercase_chars(&name);
                    let ghost old_keys = keys@;
                    let ghost prev = node_entries(ev.take(i as int));
                    names.push(name);
                    revs.push(rev);
                    keys.push(key);
                    assert(views(keys@) =~= views(old_keys).push(key@));
                    assert(node_keys(prev.push(ev[i as int])) =~= node_keys(prev).push(unicode_lower(ev[i as int].0)));
                }
                i += 1;
            }
            assert(ev.take(entries.len() as int) =~= ev);
            let ghost nodes = node_entries(ev);
            let n = names.len();
            if n == 0 {
                push_str(&mut out, "(none installed)\n");
            } else {
                let order = stable_sort_order(&keys);
                let ghost ov = order@.map_values(|x: usize| x as int);
                proof {
                    crate::sorting::lemma_sort_order_sorted(views(keys@), n as int);
                }
                let shown: usize = if n > 300 { 300 } else { n };
                assert(first_n(ov, 300) =~= ov.take(shown as int));
                push_all(&mut out, &decimal_of(n as u64));
                push_str(&mut out, " installed:\n");
                let ghost head = out@;
                let mut k: usize = 0;
                while k < shown
                    invariant
                        k <= shown,
                        shown <= n,
                        n == names.len(),
                        names.len() == revs.len(),
                        nodes.len() == n,
                        ov == order@.map_values(|x: usize| x as int),
                        ov.len() == n,
                        forall|a: int| 0 <= a < ov.len() ==> 0 <= #[trigger] ov[a] < n,
                        forall|j: int| 0 <= j < n ==> (#[trigger] nodes[j]).0 == names@[j]@,
                        forall|j: int| 0 <= j < n ==> (#[trigger] nodes[j]).1 == match revs@[j] {
                            Some(v) => Some(v@),
                            None => None::<Seq<char>>,
                        },
                        out@ == head + node_lines(nodes, ov.take(k as int)),
                    decreases shown - k,
                {
                    let idx = order[k];
                    assert(ov[k as int] == idx as int);
                    let ghost before = out@;
                    push_str(&mut out, "  ");
                    push_all(&mut out, &names[idx]);
                    match &revs[idx] {
                        Some(r) => {
                            push_str(&mut out, " @ ");
                            push_all(&mut out, r);
                        },
                        None => {},
                    }
                    if crate::text::ends(&names[idx], ".disabled") {
                        push_str(&mut out, " (disabled)");
                    }
                    push_str(&mut out, "\n");
                    assert(ov.take(k + 1).drop_last() =~= ov.take(k as int));
                    assert(out@ =~= before + node_line(nodes[idx as int]));
                    k += 1;
                }
                if n > 300 {
                    push_str(&mut out, "  ... and ");
                    push_all(&mut out, &decimal_of((n - 300) as u64));
                    push_str(&mut out, " more\n");
                }
            }
        },
    }
    push_str(&mut out, "\n");
    string_of(&out)
}

// ---------------------------------------------------------------------------
// Installed models
// ---------------------------------------------------------------------------

pub open spec fn file_views(v: Seq<(String, u64)>) -> Seq<(Seq<char>, u64)> {
    v.map_values(|f: (String, u64)| (f.0@, f.1))
}

/// Model files are listed by name, ignoring case.
pub open spec fn file_keys(v: Seq<(Seq<char>, u64)>) -> Seq<Seq<char>> {
    v.map_values(|f: (Seq<char>, u64)| unicode_lower(f.0))
}

/// The total size of some model files, in bytes.
pub open spec fn total_size(v: Seq<(Seq<char>, u64)>) -> nat
    decreases v.len(),
{
    if v.len() == 0 {
        0
    } else {
        total_size(v.drop_last()) + (v.last().1 as nat)
    }
}

/// The model categories the log inventories, in the order they are shown.
pub open spec fn inventory_categories_spec() -> Seq<Seq<char>> {
    seq![
        "checkpoints"@, "loras"@, "vae"@, "upscale_models"@, "embeddings"@, "controlnet"@,
        "clip"@, "unet"@, "diffusion_models"@, "text_encoders"@, "ultralytics"@, "model_patches"@
    ]
}

/// The model categories the log inventories, in the order they are shown.
pub fn inventory_categories() -> (r: Vec<&'static str>)
    ensures
        crate::text::str_views(r@) == inventory_categories_spec(),
{
    let v = vec![
        "checkpoints", "loras", "vae", "upscale_models", "embeddings", "controlnet",
        "clip", "unet", "diffusion_models", "text_encoders", "ultralytics", "model_patches"
    ];
    assert(crate::text::str_views(v@) =~= inventory_categories_spec());
    v
}

/// Bytes as whole mebibytes, rounded down.
pub open spec fn mib(bytes: nat) -> nat {
    bytes / 1048576
}

/// One model file's line: its name and size.
pub open spec fn file_line(f: (Seq<char>, u64)) -> Seq<char> {
    "  "@ + f.0 + " ("@ + decimal(mib(f.1 as nat)) + " MB)\n"@
}

/// The lines of the files at the indices `o`, in that order.
pub open spec fn file_lines(v: Seq<(Seq<char>, u64)>, o: Seq<int>) -> Seq<char>
    decreases o.len(),
{
    if o.len() == 0 {
        Seq::<char>::empty()
    } else {
        file_lines(v, o.drop_last()) + file_line(v[o.last()])
    }
}

/// A category's part of the models section: nothing when it has no files;
/// else its count and total size, at most 200 files sorted by name ignoring
/// case, and how many more there are.
pub open spec fn category_block(category: Seq<char>, files: Seq<(Seq<char>, u64)>) -> Seq<char> {
    if files.len() == 0 {
        Seq::<char>::empty()
    } else {
        category + " ("@ + decimal(files.len()) + " file"@ + (if files.len() == 1 {
            Seq::<char>::empty()
        } else {
            "s"@
        }) + ", "@ + decimal(mib(total_size(files))) + " MB):\n"@
            + file_lines(files, first_n(sort_order(file_keys(files)), 200)) + (if files.len() > 200 {
            "  ... and "@ + decimal((files.len() - 200) as nat) + " more\n"@
        } else {
            Seq::<char>::empty()
        })
    }
}

pub open spec fn inventory_views(v: Seq<(String, Vec<(String, u64)>)>) -> Seq<(Seq<char>, Seq<(Seq<char>, u64)>)> {
    v.map_values(|c: (String, Vec<(String, u64)>)| (c.0@, file_views(c.1@)))
}

/// The blocks of the first `n` categories.
pub open spec fn category_blocks(inv: Seq<(Seq<char>, Seq<(Seq<char>, u64)>)>, n: int) -> Seq<char>
    decreases n,
{
    if n <= 0 {
        Seq::<char>::empty()
    } else {
        category_blocks(inv, n - 1) + category_block(inv[n - 1].0, inv[n - 1].1)
    }
}

/// The installed-models section of the log; it says so when no category
/// has a file.
pub open spec fn models_section_spec(inv: Seq<(Seq<char>, Seq<(Seq<char>, u64)>)>) -> Seq<char> {
    let blocks = category_blocks(inv, inv.len() as int);
    "=== Installed Models ===\n"@ + blocks + (if blocks.len() == 0 {
        "(no models found)\n"@
    } else {
        Seq::<char>::empty()
    }) + "\n"@
}

/// The block of one category.
fn category_block_text(category: &str, files: &Vec<(String, u64)>) -> (r: Vec<char>)
    requires
        total_size(file_views(files@)) <= u64::MAX,
    ensures
        r@ == category_block(category@, file_views(files@)),
{
    let ghost fv = file_views(files@);
    let n = files.len();
    if n == 0 {
        return Vec::new();
    }
    let mut keys: Vec<Vec<char>> = Vec::new();
    let mut total: u64 = 0;
    let mut i: usize = 0;
    while i < n
        invariant
            i <= n,
            n == files.len(),
            fv == file_views(files@),
            total_size(fv) <= u64::MAX,
            views(keys@) == file_keys(fv.take(i as int)),
            total as nat == total_size(fv.take(i as int)),
        decreases n - i,
    {
        assert(fv.take(i + 1).drop_last() =~= fv.take(i as int));
        assert(fv[i as int] == (files@[i as int].0@, files@[i as int].1));
        proof {
            lemma_total_size_prefix(fv, i + 1);
        }
        let key = lowercase_chars(&chars_of(files[i].0.as_str()));
        let ghost old_keys = keys@;
        keys.push(key);
        assert(views(keys@) =~= views(old_keys).push(key@));
        assert(file_keys(fv.take(i + 1)) =~= file_keys(fv.take(i as int)).push(unicode_lower(fv[i as int].0)));
        total = total + files[i].1;
        i += 1;
    }
    assert(fv.take(n as int) =~= fv);
    let order = stable_sort_order(&keys);
    let ghost ov = order@.map_values(|x: usize| x as int);
    proof {
        crate::sorting::lemma_sort_order_sorted(views(keys@), n as int);
    }
    let shown: usize = if n > 200 { 200 } else { n };
    assert(first_n(ov, 200) =~= ov.take(shown as int));
    let mut out = chars_of(category);
    push_str(&mut out, " (");
    push_all(&mut out, &decimal_of(n as u64));
    push_str(&mut out, " file");
    if n != 1 {
        push_str(&mut out, "s");
    }
    push_str(&mut out, ", ");
    push_all(&mut out, &decimal_of(total / 1048576));
    push_str(&mut out, " MB):\n");
    let ghost head = out@;
    let mut k: usize = 0;
    while k < shown
        invariant
            k <= shown,
            shown <= n,
            n == files.len(),
            fv == file_views(files@),
            ov == order@.map_values(|x: usize| x as int),
            ov.len() == n,
            forall|a: int| 0 <= a < ov.len() ==> 0 <= #[trigger] ov[a] < n,
            out@ == head + file_lines(fv, ov.take(k as int)),
        decreases shown - k,
    {
        let idx = order[k];
        assert(ov[k as int] == idx as int);
        assert(fv[idx as int] == (files@[idx as int].0@, files@[idx as int].1));
        let ghost before = out@;
        push_str(&mut out, "  ");
        push_str(&mut out, files[idx].0.as_str());
        push_str(&mut out, " (");
        push_all(&mut out, &decimal_of(files[idx].1 / 1048576));
        push_str(&mut out, " MB)\n");
        assert(ov.take(k + 1).drop_last() =~= ov.take(k as int));
        assert(out@ =~= before + file_line(fv[idx as int]));
        k += 1;
    }
    if n > 200 {
        push_str(&mut out, "  ... and ");
        push_all(&mut out, &decimal_of((n - 200) as u64));
        push_str(&mut out, " more\n");
    }
    out
}

/// A prefix of some files is no larger than all of them.
proof fn lemma_total_size_prefix(v: Seq<(Seq<char>, u64)>, i: int)
    requires
        0 <= i <= v.len(),
    ensures
        total_size(v.take(i)) <= total_size(v),
    decreases v.len(),
{
    if i < v.len() {
        assert(v.drop_last().take(i) =~= v.take(i));
        lemma_total_size_prefix(v.drop_last(), i);
    } else {
        assert(v.take(i) =~= v);
    }
}

/// The installed-models section of the diagnostic log, from the model files
/// the caller found for each category (name below its folder, and size).
pub fn models_section(inventory: &Vec<(String, Vec<(String, u64)>)>) -> (r: String)
    requires
        forall|k: int| 0 <= k < inventory.len() ==> total_size(file_views(#[trigger] inventory@[k].1@)) <= u64::MAX,
    ensures
        r@ == models_section_spec(inventory_views(inventory@)),
{
    let ghost iv = inventory_views(inventory@);
    let mut blocks: Vec<char> = Vec::new();
    let mut i: usize = 0;
    while i < inventory.len()
        invariant
            i <= inventory.len(),
            iv == inventory_views(inventory@),
            forall|k: int| 0 <= k < inventory.len() ==> total_size(file_views(#[trigger] inventory@[k].1@)) <= u64::MAX,
            blocks@ == category_blocks(iv, i as int),
        decreases inventory.len() - i,
    {
        assert(iv[i as int] == (inventory@[i as int].0@, file_views(inventory@[i as int].1@)));
        let b = category_block_text(inventory[i].0.as_str(), &inventory[i].1);
        push_all(&mut blocks, &b);
        i += 1;
    }
    let mut out = chars_of("=== Installed Models ===\n");
    let empty = blocks.len() == 0;
    push_all(&mut out, &blocks);
    if empty {
        push_str(&mut out, "(no models found)\n");
    }
    push_str(&mut out, "\n");
    string_of(&out)
}

} // verus!
