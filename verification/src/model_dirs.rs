//! Model folders: which subfolders hold a model category, which names are
//! safe to use inside them, and where a category's models are installed
//! and searched for. The file system is consulted by the caller; these
//! functions decide from what it found.
use vstd::prelude::*;
use crate::paths::{
    absolute_path, extension_of, file_name_of, joined_path, path_components, path_extension, stripped_path, path_strip_prefix,
    path_file_name, path_is_absolute, path_join, path_parts,
};
use crate::sorting::{pair_keys, sort_order2, stable_sort_order2};
use crate::text::{
    chars_of, has, join_chars, join_with, lower_chars, lower_seq, same_chars, lowercase_chars, push_str, seq_contains,
    spells, split_chars, split_on, str_views, string_of, string_views, trim, trim_chars,
    unicode_lower, views,
};

verus! {

// ---------------------------------------------------------------------------
// Category folders
// ---------------------------------------------------------------------------

/// Every subfolder name that holds a ComfyUI model category, in the order
/// ComfyUI's generated configuration lists them; none for an unknown one.
pub open spec fn category_subdirs_spec(category: Seq<char>) -> Seq<Seq<char>> {
    if category == "checkpoints"@ {
        seq!["checkpoints"@, "Stable-diffusion"@, "Stable-Diffusion"@, "StableDiffusion"@, "models/Stable-diffusion"@, "Models/Stable-Diffusion"@, "Models/StableDiffusion"@]
    } else if category == "loras"@ {
        seq!["loras"@, "lora"@, "Lora"@, "LoRA"@, "LoRAs"@, "LORA"@, "Loras"@, "LyCORIS"@, "lycoris"@, "models/Lora"@, "models/loras"@, "models/LyCORIS"@, "Models/Lora"@, "Models/loras"@, "Models/LyCORIS"@]
    } else if category == "vae"@ {
        seq!["vae"@, "VAE"@, "models/VAE"@, "Models/VAE"@]
    } else if category == "upscale_models"@ {
        seq!["upscale_models"@, "ESRGAN"@, "models/ESRGAN"@, "models/RealESRGAN"@, "Models/ESRGAN"@, "Models/RealESRGAN"@]
    } else if category == "embeddings"@ {
        seq!["embeddings"@, "models/TextualInversion"@, "Models/TextualInversion"@]
    } else if category == "controlnet"@ {
        seq!["controlnet"@, "ControlNet"@, "models/ControlNet"@, "Models/ControlNet"@]
    } else if category == "clip"@ {
        seq!["clip"@, "models/clip"@, "Models/clip"@]
    } else if category == "unet"@ {
        seq!["unet"@, "models/unet"@, "Models/unet"@]
    } else if category == "diffusion_models"@ {
        seq!["diffusion_models"@, "DiffusionModels"@, "models/diffusion_models"@, "models/DiffusionModels"@, "Models/diffusion_models"@, "Models/DiffusionModels"@]
    } else if category == "text_encoders"@ {
        seq!["text_encoders"@, "TextEncoders"@, "models/text_encoders"@, "models/TextEncoders"@, "Models/text_encoders"@, "Models/TextEncoders"@]
    } else if category == "ultralytics"@ {
        seq!["ultralytics"@, "models/ultralytics"@, "Models/ultralytics"@]
    } else if category == "model_patches"@ {
        seq!["model_patches"@, "ModelPatches"@, "models/model_patches"@, "Models/model_patches"@]
    } else {
        Seq::<Seq<char>>::empty()
    }
}

pub fn category_subdirs(category: &str) -> (r: Vec<&'static str>)
    ensures
        str_views(r@) == category_subdirs_spec(category@),
{
    let c = chars_of(category);
    if spells(&c, "checkpoints") {
        let v = vec!["checkpoints", "Stable-diffusion", "Stable-Diffusion", "StableDiffusion", "models/Stable-diffusion", "Models/Stable-Diffusion", "Models/StableDiffusion"];
        assert(str_views(v@) =~= seq!["checkpoints"@, "Stable-diffusion"@, "Stable-Diffusion"@, "StableDiffusion"@, "models/Stable-diffusion"@, "Models/Stable-Diffusion"@, "Models/StableDiffusion"@]);
        v
    } else if spells(&c, "loras") {
        let v = vec!["loras", "lora", "Lora", "LoRA", "LoRAs", "LORA", "Loras", "LyCORIS", "lycoris", "models/Lora", "models/loras", "models/LyCORIS", "Models/Lora", "Models/loras", "Models/LyCORIS"];
        assert(str_views(v@) =~= seq!["loras"@, "lora"@, "Lora"@, "LoRA"@, "LoRAs"@, "LORA"@, "Loras"@, "LyCORIS"@, "lycoris"@, "models/Lora"@, "models/loras"@, "models/LyCORIS"@, "Models/Lora"@, "Models/loras"@, "Models/LyCORIS"@]);
        v
    } else if spells(&c, "vae") {
        let v = vec!["vae", "VAE", "models/VAE", "Models/VAE"];
        assert(str_views(v@) =~= seq!["vae"@, "VAE"@, "models/VAE"@, "Models/VAE"@]);
        v
    } else if spells(&c, "upscale_models") {
        let v = vec!["upscale_models", "ESRGAN", "models/ESRGAN", "models/RealESRGAN", "Models/ESRGAN", "Models/RealESRGAN"];
        assert(str_views(v@) =~= seq!["upscale_models"@, "ESRGAN"@, "models/ESRGAN"@, "models/RealESRGAN"@, "Models/ESRGAN"@, "Models/RealESRGAN"@]);
        v
    } else if spells(&c, "embeddings") {
        let v = vec!["embeddings", "models/TextualInversion", "Models/TextualInversion"];
        assert(str_views(v@) =~= seq!["embeddings"@, "models/TextualInversion"@, "Models/TextualInversion"@]);
        v
    } else if spells(&c, "controlnet") {
        let v = vec!["controlnet", "ControlNet", "models/ControlNet", "Models/ControlNet"];
        assert(str_views(v@) =~= seq!["controlnet"@, "ControlNet"@, "models/ControlNet"@, "Models/ControlNet"@]);
        v
    } else if spells(&c, "clip") {
        let v = vec!["clip", "models/clip", "Models/clip"];
        assert(str_views(v@) =~= seq!["clip"@, "models/clip"@, "Models/clip"@]);
        v
    } else if spells(&c, "unet") {
        let v = vec!["unet", "models/unet", "Models/unet"];
        assert(str_views(v@) =~= seq!["unet"@, "models/unet"@, "Models/unet"@]);
        v
    } else if spells(&c, "diffusion_models") {
        let v = vec!["diffusion_models", "DiffusionModels", "models/diffusion_models", "models/DiffusionModels", "Models/diffusion_models", "Models/DiffusionModels"];
        assert(str_views(v@) =~= seq!["diffusion_models"@, "DiffusionModels"@, "models/diffusion_models"@, "models/DiffusionModels"@, "Models/diffusion_models"@, "Models/DiffusionModels"@]);
        v
    } else if spells(&c, "text_encoders") {
        let v = vec!["text_encoders", "TextEncoders", "models/text_encoders", "models/TextEncoders", "Models/text_encoders", "Models/TextEncoders"];
        assert(str_views(v@) =~= seq!["text_encoders"@, "TextEncoders"@, "models/text_encoders"@, "models/TextEncoders"@, "Models/text_encoders"@, "Models/TextEncoders"@]);
        v
    } else if spells(&c, "ultralytics") {
        let v = vec!["ultralytics", "models/ultralytics", "Models/ultralytics"];
        assert(str_views(v@) =~= seq!["ultralytics"@, "models/ultralytics"@, "Models/ultralytics"@]);
        v
    } else if spells(&c, "model_patches") {
        let v = vec!["model_patches", "ModelPatches", "models/model_patches", "Models/model_patches"];
        assert(str_views(v@) =~= seq!["model_patches"@, "ModelPatches"@, "models/model_patches"@, "Models/model_patches"@]);
        v
    } else {
        Vec::new()
    }
}

/// The model categories the app manages, in display order.
pub open spec fn known_categories() -> Seq<Seq<char>> {
    seq!["checkpoints"@, "loras"@, "vae"@, "upscale_models"@, "embeddings"@, "controlnet"@, "clip"@, "unet"@, "diffusion_models"@, "text_encoders"@, "ultralytics"@, "model_patches"@]
}

/// The subfolders of the first `n` known categories, in order.
pub open spec fn known_subdirs_upto(n: int) -> Seq<Seq<char>>
    decreases n,
{
    if n <= 0 {
        Seq::<Seq<char>>::empty()
    } else {
        known_subdirs_upto(n - 1) + category_subdirs_spec(known_categories()[n - 1])
    }
}

/// Every subfolder name of every known category.
pub fn known_model_subdirs() -> (r: Vec<&'static str>)
    ensures
        str_views(r@) == known_subdirs_upto(12),
{
    let cats = 
        ["checkpoints", "loras", "vae", "upscale_models", "embeddings", "controlnet", "clip", "unet", "diffusion_models", "text_encoders", "ultralytics", "model_patches"];
    assert(str_views(cats@) =~= known_categories());
    let mut out: Vec<&'static str> = Vec::new();
    let mut i: usize = 0;
    while i < 12
        invariant
            i <= 12,
            str_views(cats@) == known_categories(),
            str_views(out@) == known_subdirs_upto(i as int),
        decreases 12 - i,
    {
        let subs = category_subdirs(cats[i]);
        let ghost before = out@;
        let mut j: usize = 0;
        while j < subs.len()
            invariant
                j <= subs.len(),
                str_views(out@) == str_views(before) + str_views(subs@).take(j as int),
            decreases subs.len() - j,
        {
            let ghost prev = out@;
            out.push(subs[j]);
            assert(str_views(out@) =~= str_views(prev).push(subs@[j as int]@));
            assert(str_views(subs@).take(j + 1) =~= str_views(subs@).take(j as int).push(subs@[j as int]@));
            assert(str_views(out@) =~= str_views(before) + str_views(subs@).take(j + 1));
            j += 1;
        }
        assert(str_views(subs@).take(subs.len() as int) =~= str_views(subs@));
        assert(str_views(cats@)[i as int] == cats@[i as int]@);
        i += 1;
    }
    out
}

// ---------------------------------------------------------------------------
// Names inside model folders
// ---------------------------------------------------------------------------

/// A single plain path component with no surrounding whitespace: the only
/// shape a category name may have.
pub open spec fn safe_component_spec(v: Seq<char>) -> bool {
    &&& v.len() > 0
    &&& trim(v) == v
    &&& path_parts(v).len() == 1
    &&& path_parts(v)[0].0
}

/// A relative path of plain components with no surrounding whitespace: the
/// only shape a model file name may have (it may name a subfolder).
pub open spec fn safe_relative_spec(v: Seq<char>) -> bool {
    &&& v.len() > 0
    &&& trim(v) == v
    &&& !absolute_path(v)
    &&& forall|i: int| 0 <= i < path_parts(v).len() ==> (#[trigger] path_parts(v)[i]).0
}

/// Whether `value` is one plain path component, untrimmed text refused.
pub fn is_safe_path_component(value: &str) -> (r: bool)
    ensures
        r == safe_component_spec(value@),
{
    let c = chars_of(value);
    let t = trim_chars(&c);
    if t.len() == 0 || !same_chars(&t, &c) {
        return false;
    }
    let parts = path_components(value);
    proof {
        assert(parts@.len() == path_parts(value@).len());
        if parts@.len() > 0 {
            assert(path_parts(value@)[0] == (parts@[0].0, parts@[0].1@));
        }
    }
    parts.len() == 1 && parts[0].0
}

/// Whether `value` is a relative path made only of plain components,
/// untrimmed text refused.
pub fn is_safe_relative_model_path(value: &str) -> (r: bool)
    ensures
        r == safe_relative_spec(value@),
{
    let c = chars_of(value);
    let t = trim_chars(&c);
    if t.len() == 0 || !same_chars(&t, &c) {
        return false;
    }
    if path_is_absolute(value) {
        return false;
    }
    let parts = path_components(value);
    let ghost pv = path_parts(value@);
    assert(parts@.len() == pv.len());
    let mut i: usize = 0;
    while i < parts.len()
        invariant
            i <= parts.len(),
            pv == path_parts(value@),
            parts@.map_values(|c: (bool, String)| (c.0, c.1@)) == pv,
            forall|k: int| 0 <= k < i ==> (#[trigger] pv[k]).0,
        decreases parts.len() - i,
    {
        assert(pv[i as int] == (parts@[i as int].0, parts@[i as int].1@));
        if !parts[i].0 {
            return false;
        }
        i += 1;
    }
    true
}

/// The file extensions of model files the app manages, compared in ASCII
/// lowercase.
pub open spec fn managed_extension(e: Seq<char>) -> bool {
    ||| e == "safetensors"@
    ||| e == "ckpt"@
    ||| e == "pt"@
    ||| e == "pth"@
    ||| e == "bin"@
    ||| e == "gguf"@
    ||| e == "onnx"@
    ||| e == "sft"@
}

/// Whether `path` names a model file by its extension.
pub fn is_managed_model_file(path: &str) -> (r: bool)
    ensures
        r == match extension_of(path@) {
            Some(e) => managed_extension(lower_seq(e)),
            None => false,
        },
{
    match path_extension(path) {
        Some(e) => {
            let l = lower_chars(&chars_of(e.as_str()));
            spells(&l, "safetensors") || spells(&l, "ckpt") || spells(&l, "pt") || spells(&l, "pth")
                || spells(&l, "bin") || spells(&l, "gguf") || spells(&l, "onnx") || spells(&l, "sft")
        },
        None => false,
    }
}

/// The category a folder of loose model files most likely holds, judged by
/// its (lowercased) name; LoRAs when nothing matches.
pub open spec fn flat_category(name: Seq<char>) -> Seq<char> {
    if seq_contains(name, "lora"@) || seq_contains(name, "lycoris"@) {
        "loras"@
    } else if seq_contains(name, "checkpoint"@) || seq_contains(name, "ckpt"@)
        || seq_contains(name, "stable-diffusion"@) || seq_contains(name, "stablediffusion"@) {
        "checkpoints"@
    } else if seq_contains(name, "vae"@) {
        "vae"@
    } else if seq_contains(name, "upscale"@) || seq_contains(name, "esrgan"@) {
        "upscale_models"@
    } else if seq_contains(name, "controlnet"@) || seq_contains(name, "control_net"@) {
        "controlnet"@
    } else if seq_contains(name, "embed"@) || seq_contains(name, "textual"@) {
        "embeddings"@
    } else if seq_contains(name, "ultralytic"@) || seq_contains(name, "face"@) {
        "ultralytics"@
    } else if seq_contains(name, "clip"@) || seq_contains(name, "text_encoder"@)
        || seq_contains(name, "text-encoder"@) || seq_contains(name, "textencoder"@) {
        "text_encoders"@
    } else if seq_contains(name, "unet"@) || seq_contains(name, "diffusion"@) {
        "diffusion_models"@
    } else {
        "loras"@
    }
}

/// The final component of `p`, or nothing.
pub open spec fn file_name_or_empty(p: Seq<char>) -> Seq<char> {
    match file_name_of(p) {
        Some(n) => n,
        None => Seq::<char>::empty(),
    }
}

/// The category of a folder of loose model files, from its name.
pub open spec fn flat_dir_category(p: Seq<char>) -> Seq<char> {
    flat_category(unicode_lower(file_name_or_empty(p)))
}

/// The category a flat model folder at `path` is taken to hold.
pub fn classify_flat_model_dir(path: &str) -> (r: &'static str)
    ensures
        r@ == flat_dir_category(path@),
{
    let name = match path_file_name(path) {
        Some(n) => chars_of(n.as_str()),
        None => Vec::new(),
    };
    assert(name@ == file_name_or_empty(path@));
    let n = lowercase_chars(&name);
    if has(&n, "lora") || has(&n, "lycoris") {
        "loras"
    } else if has(&n, "checkpoint") || has(&n, "ckpt") || has(&n, "stable-diffusion")
        || has(&n, "stablediffusion") {
        "checkpoints"
    } else if has(&n, "vae") {
        "vae"
    } else if has(&n, "upscale") || has(&n, "esrgan") {
        "upscale_models"
    } else if has(&n, "controlnet") || has(&n, "control_net") {
        "controlnet"
    } else if has(&n, "embed") || has(&n, "textual") {
        "embeddings"
    } else if has(&n, "ultralytic") || has(&n, "face") {
        "ultralytics"
    } else if has(&n, "clip") || has(&n, "text_encoder") || has(&n, "text-encoder")
        || has(&n, "textencoder") {
        "text_encoders"
    } else if has(&n, "unet") || has(&n, "diffusion") {
        "diffusion_models"
    } else {
        "loras"
    }
}

// ---------------------------------------------------------------------------
// Where a category's models are installed
// ---------------------------------------------------------------------------

/// A folder a model of some category can be installed into, with the label
/// shown for it.
#[derive(Clone, Debug)]
pub struct ModelInstallDir {
    pub path: String,
    pub label: String,
}

/// Path and label of each folder, as text.
pub open spec fn dir_views(v: Seq<ModelInstallDir>) -> Seq<(Seq<char>, Seq<char>)> {
    v.map_values(|d: ModelInstallDir| (d.path@, d.label@))
}

/// Folders are told apart by their path, ignoring case.
pub open spec fn dir_key(path: Seq<char>) -> Seq<char> {
    unicode_lower(path)
}

/// The keys of a list of candidate folders.
pub open spec fn dir_keys(c: Seq<(Seq<char>, Seq<char>)>) -> Seq<Seq<char>> {
    c.map_values(|x: (Seq<char>, Seq<char>)| dir_key(x.0))
}

/// The candidates kept when each is dropped whose key an earlier kept one
/// already has.
pub open spec fn kept_dirs(c: Seq<(Seq<char>, Seq<char>)>) -> Seq<(Seq<char>, Seq<char>)>
    decreases c.len(),
{
    if c.len() == 0 {
        c
    } else {
        let prev = kept_dirs(c.drop_last());
        if dir_keys(prev).contains(dir_key(c.last().0)) {
            prev
        } else {
            prev.push(c.last())
        }
    }
}

/// Adds the folder `path` with its `label`, unless a folder with the same
/// path, ignoring case, was added before; `seen` holds the keys added so far.
pub fn push_model_install_dir(
    dirs: &mut Vec<ModelInstallDir>,
    seen: &mut Vec<Vec<char>>,
    path: String,
    label: String,
)
    ensures
        views(old(seen)@).contains(dir_key(path@)) ==> {
            &&& final(dirs)@ == old(dirs)@
            &&& final(seen)@ == old(seen)@
        },
        !views(old(seen)@).contains(dir_key(path@)) ==> {
            &&& dir_views(final(dirs)@) == dir_views(old(dirs)@).push((path@, label@))
            &&& views(final(seen)@) == views(old(seen)@).push(dir_key(path@))
        },
{
    let key = lowercase_chars(&chars_of(path.as_str()));
    let mut i: usize = 0;
    while i < seen.len()
        invariant
            i <= seen.len(),
            key@ == dir_key(path@),
            forall|k: int| 0 <= k < i ==> seen@[k]@ != key@,
        decreases seen.len() - i,
    {
        if same_chars(&seen[i], &key) {
            assert(views(seen@)[i as int] == key@);
            return;
        }
        i += 1;
    }
    assert(!views(seen@).contains(key@)) by {
        if views(seen@).contains(key@) {
            let k = choose|k: int| 0 <= k < views(seen@).len() && views(seen@)[k] == key@;
            assert(seen@[k]@ == key@);
        }
    }
    let ghost old_dirs = dirs@;
    let ghost old_seen = seen@;
    let ghost pv = path@;
    let ghost lv = label@;
    dirs.push(ModelInstallDir { path, label });
    seen.push(key);
    assert(dir_views(dirs@) =~= dir_views(old_dirs).push((pv, lv)));
    assert(views(seen@) =~= views(old_seen).push(dir_key(pv)));
}

/// Adding one candidate to the kept list: it is kept exactly when its key is
/// new, and the keys follow.
proof fn lemma_kept_step(c: Seq<(Seq<char>, Seq<char>)>, x: (Seq<char>, Seq<char>))
    ensures
        kept_dirs(c.push(x)) == (if dir_keys(kept_dirs(c)).contains(dir_key(x.0)) {
            kept_dirs(c)
        } else {
            kept_dirs(c).push(x)
        }),
        dir_keys(kept_dirs(c).push(x)) == dir_keys(kept_dirs(c)).push(dir_key(x.0)),
{
    assert(c.push(x).drop_last() =~= c);
    assert(dir_keys(kept_dirs(c).push(x)) =~= dir_keys(kept_dirs(c)).push(dir_key(x.0)));
}

/// No two kept candidates share a key.
pub proof fn lemma_kept_distinct(c: Seq<(Seq<char>, Seq<char>)>)
    ensures
        forall|i: int, j: int|
            0 <= i < j < kept_dirs(c).len() ==> dir_key(#[trigger] kept_dirs(c)[i].0) != dir_key(
                #[trigger] kept_dirs(c)[j].0,
            ),
    decreases c.len(),
{
    if c.len() > 0 {
        let prev = kept_dirs(c.drop_last());
        lemma_kept_distinct(c.drop_last());
        if !dir_keys(prev).contains(dir_key(c.last().0)) {
            assert forall|i: int, j: int|
                0 <= i < j < kept_dirs(c).len() implies dir_key(#[trigger] kept_dirs(c)[i].0)
                != dir_key(#[trigger] kept_dirs(c)[j].0) by {
                if j == prev.len() {
                    assert(dir_keys(prev)[i] == dir_key(prev[i].0));
                }
            }
        }
    }
}

/// What the caller found on disk about one line of the extra model folders.
pub struct ExtraModelRoot {
    /// The line as configured, trimmed.
    pub line: String,
    /// The folder the line resolves to (see `resolve_extra_model_root`).
    pub base: String,
    /// Whether `base` holds any known category subfolder.
    pub structured: bool,
    /// Which of the category's subfolder names exist as folders under `base`.
    pub present_subdirs: Vec<String>,
}

/// One extra root as text: line, base, structured, present subfolders.
pub open spec fn root_view(r: ExtraModelRoot) -> (Seq<char>, Seq<char>, bool, Seq<Seq<char>>) {
    (r.line@, r.base@, r.structured, string_views(r.present_subdirs@))
}

pub open spec fn root_views(v: Seq<ExtraModelRoot>) -> Seq<(Seq<char>, Seq<char>, bool, Seq<Seq<char>>)> {
    v.map_values(|r: ExtraModelRoot| root_view(r))
}

/// The label of the ComfyUI models folder: the install's folder name.
pub open spec fn app_label(comfy: Seq<char>) -> Seq<char> {
    match file_name_of(comfy) {
        Some(n) => "App ("@ + n + ")"@,
        None => "App"@,
    }
}

/// The label of an extra root: its folder name, else the line itself.
pub open spec fn root_label(line: Seq<char>, base: Seq<char>) -> Seq<char> {
    match file_name_of(base) {
        Some(n) => n,
        None => line,
    }
}

/// The category folder inside the ComfyUI install, when one is configured.
pub open spec fn primary_candidates(comfy: Seq<char>, category: Seq<char>) -> Seq<(Seq<char>, Seq<char>)> {
    if comfy.len() == 0 {
        Seq::<(Seq<char>, Seq<char>)>::empty()
    } else {
        seq![(joined_path(joined_path(comfy, "models"@), category), app_label(comfy))]
    }
}

/// Each of `subs` that is present under `base`, in order, with its label.
pub open spec fn structured_candidates(
    base: Seq<char>,
    subs: Seq<Seq<char>>,
    present: Seq<Seq<char>>,
    label: Seq<char>,
    multi: bool,
) -> Seq<(Seq<char>, Seq<char>)>
    decreases subs.len(),
{
    if subs.len() == 0 {
        Seq::<(Seq<char>, Seq<char>)>::empty()
    } else {
        let prev = structured_candidates(base, subs.drop_last(), present, label, multi);
        let sub = subs.last();
        if present.contains(sub) {
            prev.push((joined_path(base, sub), if multi { label + " / "@ + sub } else { label }))
        } else {
            prev
        }
    }
}

/// The folders one extra root offers for `category`: its present category
/// subfolders when it is structured, else itself when its name suggests the
/// category.
pub open spec fn root_candidates(
    root: (Seq<char>, Seq<char>, bool, Seq<Seq<char>>),
    category: Seq<char>,
) -> Seq<(Seq<char>, Seq<char>)> {
    let label = root_label(root.0, root.1);
    let subs = category_subdirs_spec(category);
    if root.2 {
        structured_candidates(root.1, subs, root.3, label, subs.len() > 1)
    } else if flat_dir_category(root.1) == category {
        seq![(root.1, label)]
    } else {
        Seq::<(Seq<char>, Seq<char>)>::empty()
    }
}

/// The folders all extra roots offer, root by root.
pub open spec fn roots_candidates(
    roots: Seq<(Seq<char>, Seq<char>, bool, Seq<Seq<char>>)>,
    category: Seq<char>,
) -> Seq<(Seq<char>, Seq<char>)>
    decreases roots.len(),
{
    if roots.len() == 0 {
        Seq::<(Seq<char>, Seq<char>)>::empty()
    } else {
        roots_candidates(roots.drop_last(), category) + root_candidates(roots.last(), category)
    }
}

/// Every candidate install folder, before duplicates are dropped.
pub open spec fn install_candidates(
    comfy: Seq<char>,
    roots: Seq<(Seq<char>, Seq<char>, bool, Seq<Seq<char>>)>,
    category: Seq<char>,
) -> Seq<(Seq<char>, Seq<char>)> {
    primary_candidates(comfy, category) + roots_candidates(roots, category)
}

/// Whether `category` names a known model category in a safe form.
pub open spec fn valid_category(category: Seq<char>) -> bool {
    safe_component_spec(category) && category_subdirs_spec(category).len() > 0
}

/// Whether `name` is one of `names`.
fn listed(names: &Vec<String>, name: &str) -> (r: bool)
    ensures
        r == string_views(names@).contains(name@),
{
    let n = chars_of(name);
    let mut i: usize = 0;
    while i < names.len()
        invariant
            i <= names.len(),
            n@ == name@,
            forall|k: int| 0 <= k < i ==> names@[k]@ != name@,
        decreases names.len() - i,
    {
        let c = chars_of(names[i].as_str());
        if same_chars(&c, &n) {
            assert(string_views(names@)[i as int] == name@);
            return true;
        }
        i += 1;
    }
    assert(!string_views(names@).contains(name@)) by {
        if string_views(names@).contains(name@) {
            let k = choose|k: int| 0 <= k < string_views(names@).len() && string_views(names@)[k] == name@;
            assert(names@[k]@ == name@);
        }
    }
    false
}

/// The folders a model of `category` can be installed into: the category
/// folder of the ComfyUI install (when configured), then for each extra root
/// its present category subfolders, or the root itself when it is a flat
/// folder whose name suggests the category. A folder whose path repeats an
/// earlier one, ignoring case, is left out. An unknown or unsafe category is
/// refused.
pub fn model_install_dirs_for_config(
    comfyui_path: &str,
    extra_roots: &[ExtraModelRoot],
    category: &str,
) -> (r: Result<Vec<ModelInstallDir>, String>)
    ensures
        match r {
            Err(e) => !valid_category(category@) && e@ == "Invalid model category"@,
            Ok(d) => {
                &&& valid_category(category@)
                &&& dir_views(d@) == kept_dirs(install_candidates(comfyui_path@, root_views(extra_roots@), category@))
                &&& forall|i: int, j: int| 0 <= i < j < d@.len() ==>
                    dir_key(#[trigger] d@[i].path@) != dir_key(#[trigger] d@[j].path@)
            },
        },
{
    if !is_safe_path_component(category) {
        return Err(string_of(&chars_of("Invalid model category")));
    }
    let subs = category_subdirs(category);
    if subs.len() == 0 {
        return Err(string_of(&chars_of("Invalid model category")));
    }
    let ghost subv = category_subdirs_spec(category@);
    let ghost rv = root_views(extra_roots@);
    let mut dirs: Vec<ModelInstallDir> = Vec::new();
    let mut seen: Vec<Vec<char>> = Vec::new();
    let ghost mut cur: Seq<(Seq<char>, Seq<char>)> = Seq::empty();
    assert(dir_views(dirs@) =~= kept_dirs(cur));
    assert(views(seen@) =~= dir_keys(kept_dirs(cur)));
    let comfy = chars_of(comfyui_path);
    if comfy.len() > 0 {
        let models = path_join(comfyui_path, "models");
        let primary = path_join(models.as_str(), category);
        let label = match path_file_name(comfyui_path) {
            Some(n) => {
                let mut v = chars_of("App (");
                push_str(&mut v, n.as_str());
                push_str(&mut v, ")");
                string_of(&v)
            },
            None => string_of(&chars_of("App")),
        };
        let ghost x = (primary@, label@);
        push_model_install_dir(&mut dirs, &mut seen, primary, label);
        proof {
            lemma_kept_step(cur, x);
            cur = cur.push(x);
            assert(cur =~= primary_candidates(comfyui_path@, category@));
        }
    } else {
        assert(cur =~= primary_candidates(comfyui_path@, category@));
    }
    let mut i: usize = 0;
    while i < extra_roots.len()
        invariant
            i <= extra_roots.len(),
            rv == root_views(extra_roots@),
            subv == category_subdirs_spec(category@),
            str_views(subs@) == subv,
            subv.len() > 0,
            cur == primary_candidates(comfyui_path@, category@) + roots_candidates(rv.take(i as int), category@),
            dir_views(dirs@) == kept_dirs(cur),
            views(seen@) == dir_keys(kept_dirs(cur)),
        decreases extra_roots.len() - i,
    {
        let root = &extra_roots[i];
        let ghost rt = root_view(*root);
        assert(rv[i as int] == rt);
        assert(rv.take(i + 1).drop_last() =~= rv.take(i as int));
        let ghost before = cur;
        let base_label = match path_file_name(root.base.as_str()) {
            Some(n) => n,
            None => root.line.clone(),
        };
        assert(base_label@ == root_label(rt.0, rt.1));
        if root.structured {
            let multi = subs.len() > 1;
            let mut j: usize = 0;
            while j < subs.len()
                invariant
                    j <= subs.len(),
                    str_views(subs@) == subv,
                    rt == root_view(*root),
                    rt.2,
                    base_label@ == root_label(rt.0, rt.1),
                    multi == (subv.len() > 1),
                    cur == before + structured_candidates(rt.1, subv.take(j as int), rt.3, base_label@, multi),
                    dir_views(dirs@) == kept_dirs(cur),
                    views(seen@) == dir_keys(kept_dirs(cur)),
                decreases subs.len() - j,
            {
                let sub = subs[j];
                assert(subv[j as int] == sub@);
                assert(subv.take(j + 1).drop_last() =~= subv.take(j as int));
                if listed(&root.present_subdirs, sub) {
                    let candidate = path_join(root.base.as_str(), sub);
                    let label = if multi {
                        let mut v = chars_of(base_label.as_str());
                        push_str(&mut v, " / ");
                        push_str(&mut v, sub);
                        string_of(&v)
                    } else {
                        base_label.clone()
                    };
                    let ghost x = (candidate@, label@);
                    push_model_install_dir(&mut dirs, &mut seen, candidate, label);
                    proof {
                        lemma_kept_step(cur, x);
                        assert(cur.push(x) =~= before + structured_candidates(rt.1, subv.take(j + 1), rt.3, base_label@, multi));
                        cur = cur.push(x);
                    }
                } else {
                    assert(cur =~= before + structured_candidates(rt.1, subv.take(j + 1), rt.3, base_label@, multi));
                }
                j += 1;
            }
            proof {
                assert(subv.take(subv.len() as int) =~= subv);
                assert(cur =~= primary_candidates(comfyui_path@, category@) + roots_candidates(rv.take(i + 1), category@));
            }
        } else {
            let kind = classify_flat_model_dir(root.base.as_str());
            if spells(&chars_of(kind), category) {
                let ghost x = (root.base@, base_label@);
                push_model_install_dir(&mut dirs, &mut seen, root.base.clone(), base_label);
                proof {
                    lemma_kept_step(cur, x);
                    cur = cur.push(x);
                }
            }
            proof {
                assert(cur =~= primary_candidates(comfyui_path@, category@) + roots_candidates(rv.take(i + 1), category@));
            }
        }
        i += 1;
    }
    proof {
        assert(rv.take(extra_roots.len() as int) =~= rv);
        lemma_kept_distinct(cur);
        assert forall|a: int, b: int| 0 <= a < b < dirs@.len() implies
            dir_key(#[trigger] dirs@[a].path@) != dir_key(#[trigger] dirs@[b].path@) by {
            assert(dir_views(dirs@)[a] == (dirs@[a].path@, dirs@[a].label@));
            assert(dir_views(dirs@)[b] == (dirs@[b].path@, dirs@[b].label@));
            assert(dir_key(kept_dirs(cur)[a].0) != dir_key(kept_dirs(cur)[b].0));
        }
    }
    Ok(dirs)
}

// ---------------------------------------------------------------------------
// Extra model folders and the search for a model file
// ---------------------------------------------------------------------------

/// The trimmed, non-blank pieces of `parts`, in order.
pub open spec fn nonblank_trimmed(parts: Seq<Seq<char>>) -> Seq<Seq<char>>
    decreases parts.len(),
{
    if parts.len() == 0 {
        Seq::<Seq<char>>::empty()
    } else {
        let prev = nonblank_trimmed(parts.drop_last());
        let t = trim(parts.last());
        if t.len() == 0 {
            prev
        } else {
            prev.push(t)
        }
    }
}

/// The folders listed in the extra-model-paths setting: one per line,
/// trimmed, blank lines skipped.
pub fn extra_model_root_lines(extra: &str) -> (r: Vec<String>)
    ensures
        string_views(r@) == nonblank_trimmed(split_on(extra@, '\n')),
{
    let c = chars_of(extra);
    let parts = split_chars(&c, '\n');
    let ghost pv = views(parts@);
    let mut out: Vec<String> = Vec::new();
    let mut i: usize = 0;
    while i < parts.len()
        invariant
            i <= parts.len(),
            pv == views(parts@),
            string_views(out@) == nonblank_trimmed(pv.take(i as int)),
        decreases parts.len() - i,
    {
        assert(pv.take(i + 1).drop_last() =~= pv.take(i as int));
        assert(pv[i as int] == parts@[i as int]@);
        let t = trim_chars(&parts[i]);
        if t.len() > 0 {
            let ghost prev = out@;
            out.push(string_of(&t));
            assert(string_views(out@) =~= string_views(prev).push(t@));
        }
        i += 1;
    }
    assert(pv.take(parts.len() as int) =~= pv);
    out
}

/// The folder an extra line stands for: the line's folder when it holds
/// category subfolders, else its `models` subfolder when that does (a
/// ComfyUI install root), else the line's folder as it is. The caller looks
/// at the disk: `structured` for the folder itself, `nested_structured` for
/// its `models` subfolder (false when that is no folder).
pub fn resolve_extra_model_root(path: &str, structured: bool, nested_structured: bool) -> (r: String)
    ensures
        r@ == (if !structured && nested_structured {
            joined_path(path@, "models"@)
        } else {
            path@
        }),
{
    if structured {
        string_of(&chars_of(path))
    } else if nested_structured {
        path_join(path, "models")
    } else {
        string_of(&chars_of(path))
    }
}

/// The category subfolders of `base` a model file is looked for in, in order.
pub open spec fn subdir_search(base: Seq<char>, subs: Seq<Seq<char>>, filename: Seq<char>) -> Seq<Seq<char>>
    decreases subs.len(),
{
    if subs.len() == 0 {
        Seq::<Seq<char>>::empty()
    } else {
        subdir_search(base, subs.drop_last(), filename).push(joined_path(joined_path(base, subs.last()), filename))
    }
}

/// The places a model file is looked for under one extra root, in order:
/// each category subfolder, then the root itself.
pub open spec fn base_search(base: Seq<char>, subs: Seq<Seq<char>>, filename: Seq<char>) -> Seq<Seq<char>> {
    subdir_search(base, subs, filename).push(joined_path(base, filename))
}

/// The places looked at under each extra root, root by root.
pub open spec fn bases_search(bases: Seq<Seq<char>>, subs: Seq<Seq<char>>, filename: Seq<char>) -> Seq<Seq<char>>
    decreases bases.len(),
{
    if bases.len() == 0 {
        Seq::<Seq<char>>::empty()
    } else {
        bases_search(bases.drop_last(), subs, filename) + base_search(bases.last(), subs, filename)
    }
}

/// Every place a model file is looked for, in the order tried: the category
/// folder of the ComfyUI install, then each extra root in turn.
pub open spec fn model_search_order(
    comfy: Seq<char>,
    bases: Seq<Seq<char>>,
    category: Seq<char>,
    filename: Seq<char>,
) -> Seq<Seq<char>> {
    seq![joined_path(joined_path(joined_path(comfy, "models"@), category), filename)]
        + bases_search(bases, category_subdirs_spec(category), filename)
}

/// The paths at which the model `filename` of `category` is looked for, in
/// order; the first that exists is the model. `bases` are the resolved extra
/// roots. `None` when the category or the file name is unsafe.
pub fn model_path_candidates(
    comfyui_path: &str,
    bases: &[String],
    category: &str,
    filename: &str,
) -> (r: Option<Vec<String>>)
    ensures
        match r {
            None => !(safe_component_spec(category@) && safe_relative_spec(filename@)),
            Some(v) => {
                &&& safe_component_spec(category@)
                &&& safe_relative_spec(filename@)
                &&& string_views(v@) == model_search_order(comfyui_path@, string_views(bases@), category@, filename@)
            },
        },
{
    if !is_safe_path_component(category) || !is_safe_relative_model_path(filename) {
        return None;
    }
    let subs = category_subdirs(category);
    let ghost subv = category_subdirs_spec(category@);
    let ghost bv = string_views(bases@);
    let mut out: Vec<String> = Vec::new();
    let models = path_join(comfyui_path, "models");
    let cat_dir = path_join(models.as_str(), category);
    out.push(path_join(cat_dir.as_str(), filename));
    assert(string_views(out@) =~= seq![joined_path(joined_path(joined_path(comfyui_path@, "models"@), category@), filename@)] + bases_search(bv.take(0), subv, filename@));
    let mut i: usize = 0;
    while i < bases.len()
        invariant
            i <= bases.len(),
            bv == string_views(bases@),
            subv == category_subdirs_spec(category@),
            str_views(subs@) == subv,
            string_views(out@) == seq![joined_path(joined_path(joined_path(comfyui_path@, "models"@), category@), filename@)] + bases_search(bv.take(i as int), subv, filename@),
        decreases bases.len() - i,
    {
        let base = bases[i].as_str();
        assert(bv[i as int] == base@);
        assert(bv.take(i + 1).drop_last() =~= bv.take(i as int));
        let ghost start = string_views(out@);
        let mut j: usize = 0;
        while j < subs.len()
            invariant
                j <= subs.len(),
                str_views(subs@) == subv,
                string_views(out@) == start + subdir_search(base@, subv.take(j as int), filename@),
            decreases subs.len() - j,
        {
            let ghost prev = out@;
            let sub = subs[j];
            assert(str_views(subs@)[j as int] == sub@);
            assert(subv.take(j + 1).drop_last() =~= subv.take(j as int));
            let d = path_join(base, sub);
            let p = path_join(d.as_str(), filename);
            out.push(p);
            assert(string_views(out@) =~= string_views(prev).push(p@));
            assert(string_views(out@) =~= start + subdir_search(base@, subv.take(j + 1), filename@));
            j += 1;
        }
        let ghost prev = out@;
        let p = path_join(base, filename);
        out.push(p);
        assert(string_views(out@) =~= string_views(prev).push(p@));
        assert(subv.take(subs.len() as int) =~= subv);
        assert(string_views(out@) =~= start + base_search(base@, subv, filename@));
        i += 1;
    }
    assert(bv.take(bases.len() as int) =~= bv);
    Some(out)
}

/// The texts of the plain components among `parts`, in order.
pub open spec fn normal_texts(parts: Seq<(bool, Seq<char>)>) -> Seq<Seq<char>>
    decreases parts.len(),
{
    if parts.len() == 0 {
        Seq::<Seq<char>>::empty()
    } else {
        let prev = normal_texts(parts.drop_last());
        if parts.last().0 {
            prev.push(parts.last().1)
        } else {
            prev
        }
    }
}

/// The name a model file at `path` is known by: its path below `root` (the
/// whole path when it is not below it), plain components only, joined with
/// `/`.
pub fn relative_model_filename(root: &str, path: &str) -> (r: String)
    ensures
        r@ == join_with(
            normal_texts(
                path_parts(
                    match stripped_path(path@, root@) {
                        Some(q) => q,
                        None => path@,
                    },
                ),
            ),
            "/"@,
        ),
{
    let rest = match path_strip_prefix(path, root) {
        Some(q) => q,
        None => string_of(&chars_of(path)),
    };
    let parts = path_components(rest.as_str());
    let ghost pv = path_parts(rest@);
    assert(parts@.len() == pv.len());
    let mut names: Vec<Vec<char>> = Vec::new();
    let mut i: usize = 0;
    while i < parts.len()
        invariant
            i <= parts.len(),
            pv == path_parts(rest@),
            parts@.map_values(|c: (bool, String)| (c.0, c.1@)) == pv,
            views(names@) == normal_texts(pv.take(i as int)),
        decreases parts.len() - i,
    {
        assert(pv[i as int] == (parts@[i as int].0, parts@[i as int].1@));
        assert(pv.take(i + 1).drop_last() =~= pv.take(i as int));
        if parts[i].0 {
            let ghost prev = names@;
            names.push(chars_of(parts[i].1.as_str()));
            assert(views(names@) =~= views(prev).push(parts@[i as int].1@));
        }
        i += 1;
    }
    assert(pv.take(parts.len() as int) =~= pv);
    let sep = chars_of("/");
    string_of(&join_chars(&names, &sep))
}

// ---------------------------------------------------------------------------
// Managing installed model files
// ---------------------------------------------------------------------------

/// The first of `dirs` whose path is `directory`, if any.
pub open spec fn find_dir_spec(dirs: Seq<(Seq<char>, Seq<char>)>, directory: Seq<char>) -> Option<(Seq<char>, Seq<char>)>
    decreases dirs.len(),
{
    if dirs.len() == 0 {
        None
    } else if dirs[0].0 == directory {
        Some(dirs[0])
    } else {
        find_dir_spec(dirs.drop_first(), directory)
    }
}

/// The install folder of `category` at `directory`, as
/// `model_install_dirs_for_config` lists them; refused when the category is
/// or the folder is not one of them.
pub open spec fn known_dir_spec(
    comfy: Seq<char>,
    roots: Seq<(Seq<char>, Seq<char>, bool, Seq<Seq<char>>)>,
    category: Seq<char>,
    directory: Seq<char>,
) -> Result<(Seq<char>, Seq<char>), Seq<char>> {
    if !valid_category(category) {
        Err("Invalid model category"@)
    } else {
        match find_dir_spec(kept_dirs(install_candidates(comfy, roots, category)), directory) {
            Some(d) => Ok(d),
            None => Err("Unknown model directory"@),
        }
    }
}

/// Look up a known install folder of a category by its path.
pub fn find_known_model_dir(
    comfyui_path: &str,
    extra_roots: &[ExtraModelRoot],
    category: &str,
    directory: &str,
) -> (r: Result<ModelInstallDir, String>)
    ensures
        match r {
            Ok(d) => known_dir_spec(comfyui_path@, root_views(extra_roots@), category@, directory@)
                == Ok::<(Seq<char>, Seq<char>), Seq<char>>((d.path@, d.label@)),
            Err(e) => known_dir_spec(comfyui_path@, root_views(extra_roots@), category@, directory@)
                == Err::<(Seq<char>, Seq<char>), Seq<char>>(e@),
        },
{
    let dirs = match model_install_dirs_for_config(comfyui_path, extra_roots, category) {
        Ok(d) => d,
        Err(e) => return Err(e),
    };
    let ghost dv = dir_views(dirs@);
    let want = chars_of(directory);
    let mut i: usize = 0;
    assert(dv.skip(0) =~= dv);
    while i < dirs.len()
        invariant
            i <= dirs.len(),
            dv == dir_views(dirs@),
            valid_category(category@),
            dv == kept_dirs(install_candidates(comfyui_path@, root_views(extra_roots@), category@)),
            want@ == directory@,
            find_dir_spec(dv, directory@) == find_dir_spec(dv.skip(i as int), directory@),
        decreases dirs.len() - i,
    {
        assert(dv.skip(i as int).drop_first() =~= dv.skip(i + 1));
        assert(dv.skip(i as int)[0] == (dirs@[i as int].path@, dirs@[i as int].label@));
        if same_chars(&chars_of(dirs[i].path.as_str()), &want) {
            return Ok(ModelInstallDir { path: dirs[i].path.clone(), label: dirs[i].label.clone() });
        }
        i += 1;
    }
    Err(string_of(&chars_of("Unknown model directory")))
}

/// A model file inside an install folder; refused unless the name is a safe
/// relative path.
pub open spec fn file_in_dir_spec(directory: Seq<char>, filename: Seq<char>) -> Result<Seq<char>, Seq<char>> {
    if safe_relative_spec(filename) {
        Ok(joined_path(directory, filename))
    } else {
        Err("Invalid model filename"@)
    }
}

/// The path of model `filename` inside install folder `directory`.
pub fn model_file_path_in_dir(directory: &str, filename: &str) -> (r: Result<String, String>)
    ensures
        match r {
            Ok(p) => file_in_dir_spec(directory@, filename@) == Ok::<Seq<char>, Seq<char>>(p@),
            Err(e) => file_in_dir_spec(directory@, filename@) == Err::<Seq<char>, Seq<char>>(e@),
        },
{
    if !is_safe_relative_model_path(filename) {
        return Err(string_of(&chars_of("Invalid model filename")));
    }
    Ok(path_join(directory, filename))
}

/// The file a delete removes, refused for an unknown folder, an unsafe name
/// or a file that is not a model; the caller then checks that it exists.
pub open spec fn delete_target_spec(
    comfy: Seq<char>,
    roots: Seq<(Seq<char>, Seq<char>, bool, Seq<Seq<char>>)>,
    category: Seq<char>,
    filename: Seq<char>,
    directory: Seq<char>,
) -> Result<Seq<char>, Seq<char>> {
    match known_dir_spec(comfy, roots, category, directory) {
        Err(e) => Err(e),
        Ok(d) => match file_in_dir_spec(d.0, filename) {
            Err(e) => Err(e),
            Ok(p) => if managed_file_spec(p) { Ok(p) } else { Err("Unsupported model file type"@) },
        },
    }
}

/// Whether a path names a managed model file.
pub open spec fn managed_file_spec(p: Seq<char>) -> bool {
    match extension_of(p) {
        Some(e) => managed_extension(lower_seq(e)),
        None => false,
    }
}

/// The file to delete for a delete request.
pub fn delete_model_target(
    comfyui_path: &str,
    extra_roots: &[ExtraModelRoot],
    category: &str,
    filename: &str,
    directory: &str,
) -> (r: Result<String, String>)
    ensures
        match r {
            Ok(p) => delete_target_spec(comfyui_path@, root_views(extra_roots@), category@, filename@, directory@)
                == Ok::<Seq<char>, Seq<char>>(p@),
            Err(e) => delete_target_spec(comfyui_path@, root_views(extra_roots@), category@, filename@, directory@)
                == Err::<Seq<char>, Seq<char>>(e@),
        },
{
    let dir = find_known_model_dir(comfyui_path, extra_roots, category, directory)?;
    let path = model_file_path_in_dir(dir.path.as_str(), filename)?;
    if !is_managed_model_file(path.as_str()) {
        return Err(string_of(&chars_of("Unsupported model file type")));
    }
    Ok(path)
}

/// The source and destination of a move, refused for an unknown folder or
/// unsafe name on either side, a move onto itself (paths compared component
/// by component) or a file that is not a model; the caller then checks that
/// the source exists and the destination does not.
pub open spec fn move_targets_spec(
    comfy: Seq<char>,
    roots: Seq<(Seq<char>, Seq<char>, bool, Seq<Seq<char>>)>,
    category: Seq<char>,
    target_category: Seq<char>,
    filename: Seq<char>,
    source_directory: Seq<char>,
    target_directory: Seq<char>,
    target_filename: Seq<char>,
) -> Result<(Seq<char>, Seq<char>), Seq<char>> {
    match known_dir_spec(comfy, roots, category, source_directory) {
        Err(e) => Err(e),
        Ok(sd) => match known_dir_spec(comfy, roots, target_category, target_directory) {
            Err(e) => Err(e),
            Ok(td) => match file_in_dir_spec(sd.0, filename) {
                Err(e) => Err(e),
                Ok(source) => match file_in_dir_spec(td.0, target_filename) {
                    Err(e) => Err(e),
                    Ok(target) => if path_parts(source) == path_parts(target) {
                        Err("Choose a different destination directory"@)
                    } else if !managed_file_spec(source) {
                        Err("Unsupported model file type"@)
                    } else {
                        Ok((source, target))
                    },
                },
            },
        },
    }
}

/// Whether two paths have the same components.
fn same_components(a: &str, b: &str) -> (r: bool)
    ensures
        r == (path_parts(a@) == path_parts(b@)),
{
    let pa = path_components(a);
    let pb = path_components(b);
    let ghost va = path_parts(a@);
    let ghost vb = path_parts(b@);
    assert(pa@.len() == va.len());
    assert(pb@.len() == vb.len());
    if pa.len() != pb.len() {
        assert(va.len() != vb.len());
        return false;
    }
    let mut i: usize = 0;
    while i < pa.len()
        invariant
            i <= pa.len(),
            pa.len() == pb.len(),
            pa@.map_values(|c: (bool, String)| (c.0, c.1@)) == va,
            pb@.map_values(|c: (bool, String)| (c.0, c.1@)) == vb,
            va == path_parts(a@),
            vb == path_parts(b@),
            forall|k: int| 0 <= k < i ==> va[k] == vb[k],
        decreases pa.len() - i,
    {
        assert(va[i as int] == (pa@[i as int].0, pa@[i as int].1@));
        assert(vb[i as int] == (pb@[i as int].0, pb@[i as int].1@));
        if pa[i].0 != pb[i].0 || !same_chars(&chars_of(pa[i].1.as_str()), &chars_of(pb[i].1.as_str())) {
            assert(va[i as int] != vb[i as int]);
            return false;
        }
        i += 1;
    }
    assert(va =~= vb);
    true
}

/// The source and destination files of a move request.
pub fn move_model_targets(
    comfyui_path: &str,
    extra_roots: &[ExtraModelRoot],
    category: &str,
    target_category: &str,
    filename: &str,
    source_directory: &str,
    target_directory: &str,
    target_filename: &str,
) -> (r: Result<(String, String), String>)
    ensures
        match r {
            Ok((s, t)) => move_targets_spec(
                comfyui_path@, root_views(extra_roots@), category@, target_category@, filename@,
                source_directory@, target_directory@, target_filename@,
            ) == Ok::<(Seq<char>, Seq<char>), Seq<char>>((s@, t@)),
            Err(e) => move_targets_spec(
                comfyui_path@, root_views(extra_roots@), category@, target_category@, filename@,
                source_directory@, target_directory@, target_filename@,
            ) == Err::<(Seq<char>, Seq<char>), Seq<char>>(e@),
        },
{
    let source_dir = find_known_model_dir(comfyui_path, extra_roots, category, source_directory)?;
    let target_dir = find_known_model_dir(comfyui_path, extra_roots, target_category, target_directory)?;
    let source = model_file_path_in_dir(source_dir.path.as_str(), filename)?;
    let target = model_file_path_in_dir(target_dir.path.as_str(), target_filename)?;
    if same_components(source.as_str(), target.as_str()) {
        return Err(string_of(&chars_of("Choose a different destination directory")));
    }
    if !is_managed_model_file(source.as_str()) {
        return Err(string_of(&chars_of("Unsupported model file type")));
    }
    Ok((source, target))
}

/// The folder a create-folder request makes, refused for an unknown install
/// folder or an unsafe relative path; the caller then checks that no file
/// has that name.
pub open spec fn new_folder_spec(
    comfy: Seq<char>,
    roots: Seq<(Seq<char>, Seq<char>, bool, Seq<Seq<char>>)>,
    category: Seq<char>,
    directory: Seq<char>,
    folder_path: Seq<char>,
) -> Result<Seq<char>, Seq<char>> {
    match known_dir_spec(comfy, roots, category, directory) {
        Err(e) => Err(e),
        Ok(d) => if safe_relative_spec(folder_path) {
            Ok(joined_path(d.0, folder_path))
        } else {
            Err("Invalid folder name"@)
        },
    }
}

/// The folder to create for a create-folder request.
pub fn new_model_folder_target(
    comfyui_path: &str,
    extra_roots: &[ExtraModelRoot],
    category: &str,
    directory: &str,
    folder_path: &str,
) -> (r: Result<String, String>)
    ensures
        match r {
            Ok(p) => new_folder_spec(comfyui_path@, root_views(extra_roots@), category@, directory@, folder_path@)
                == Ok::<Seq<char>, Seq<char>>(p@),
            Err(e) => new_folder_spec(comfyui_path@, root_views(extra_roots@), category@, directory@, folder_path@)
                == Err::<Seq<char>, Seq<char>>(e@),
        },
{
    let dir = find_known_model_dir(comfyui_path, extra_roots, category, directory)?;
    if !is_safe_relative_model_path(folder_path) {
        return Err(string_of(&chars_of("Invalid folder name")));
    }
    Ok(path_join(dir.path.as_str(), folder_path))
}

// ---------------------------------------------------------------------------
// Listing installed models and folders
// ---------------------------------------------------------------------------

/// A model file shown in the Model Manager.
pub struct ManagedModelFile {
    pub category: String,
    /// Its path below the install folder, `/`-separated.
    pub filename: String,
    pub directory: String,
    pub directory_label: String,
    pub path: String,
    pub size_bytes: u64,
    pub modified_ms: u64,
}

/// A subfolder of an install folder, shown in the Model Manager.
pub struct ManagedModelFolder {
    pub category: String,
    /// Its path below the install folder, `/`-separated.
    pub path: String,
    pub directory: String,
    pub directory_label: String,
}

/// A file the caller found while walking an install folder.
pub struct FoundModelFile {
    /// The install folder walked, and its label.
    pub directory: String,
    pub directory_label: String,
    /// The file's full path, size and modification time (ms since the epoch).
    pub path: String,
    pub size_bytes: u64,
    pub modified_ms: u64,
}

/// The name a file is known by below an install folder.
pub open spec fn relative_name_spec(root: Seq<char>, path: Seq<char>) -> Seq<char> {
    join_with(
        normal_texts(path_parts(match stripped_path(path, root) {
            Some(q) => q,
            None => path,
        })),
        "/"@,
    )
}

pub type ManagedFileView = (Seq<char>, Seq<char>, Seq<char>, Seq<char>, Seq<char>, u64, u64);

pub open spec fn managed_file_view(f: ManagedModelFile) -> ManagedFileView {
    (f.category@, f.filename@, f.directory@, f.directory_label@, f.path@, f.size_bytes, f.modified_ms)
}

/// The Model Manager entries for the found files, in walk order: model files
/// only, with a safe relative name.
pub open spec fn listed_files(category: Seq<char>, found: Seq<FoundModelFile>) -> Seq<ManagedFileView>
    decreases found.len(),
{
    if found.len() == 0 {
        Seq::<ManagedFileView>::empty()
    } else {
        let prev = listed_files(category, found.drop_last());
        let e = found.last();
        let name = relative_name_spec(e.directory@, e.path@);
        if managed_file_spec(e.path@) && safe_relative_spec(name) {
            prev.push((category, name, e.directory@, e.directory_label@, e.path@, e.size_bytes, e.modified_ms))
        } else {
            prev
        }
    }
}

/// Files are listed by name ignoring case, then by folder label.
pub open spec fn file_sort_keys(l: Seq<ManagedFileView>) -> Seq<(Seq<char>, Seq<char>)> {
    l.map_values(|f: ManagedFileView| (unicode_lower(f.1), f.3))
}

/// The Model Manager's file list for a category, from what the walk found.
pub open spec fn file_listing_spec(category: Seq<char>, found: Seq<FoundModelFile>) -> Seq<ManagedFileView> {
    let l = listed_files(category, found);
    sort_order2(file_sort_keys(l)).map_values(|i: int| l[i])
}

/// The Model Manager's file list for a category: the model files the walk
/// found, each named by its path below its install folder, sorted by name
/// ignoring case and then by folder label.
pub fn model_file_listing(category: &str, found: &Vec<FoundModelFile>) -> (r: Vec<ManagedModelFile>)
    ensures
        r@.map_values(|f: ManagedModelFile| managed_file_view(f)) == file_listing_spec(category@, found@),
{
    let mut items: Vec<ManagedModelFile> = Vec::new();
    let mut k1: Vec<Vec<char>> = Vec::new();
    let mut k2: Vec<Vec<char>> = Vec::new();
    let mut i: usize = 0;
    while i < found.len()
        invariant
            i <= found.len(),
            items.len() == k1.len(),
            items.len() == k2.len(),
            items@.map_values(|f: ManagedModelFile| managed_file_view(f)) == listed_files(category@, found@.take(i as int)),
            pair_keys(views(k1@), views(k2@)) == file_sort_keys(listed_files(category@, found@.take(i as int))),
        decreases found.len() - i,
    {
        assert(found@.take(i + 1).drop_last() =~= found@.take(i as int));
        assert(found@.take(i + 1).last() == found@[i as int]);
        let e = &found[i];
        if is_managed_model_file(e.path.as_str()) {
            let name = relative_model_filename(e.directory.as_str(), e.path.as_str());
            if is_safe_relative_model_path(name.as_str()) {
                let ghost prev = listed_files(category@, found@.take(i as int));
                let ghost old_items = items@;
                let ghost old1 = views(k1@);
                let ghost old2 = views(k2@);
                k1.push(lowercase_chars(&chars_of(name.as_str())));
                k2.push(chars_of(e.directory_label.as_str()));
                items.push(ManagedModelFile {
                    category: string_of(&chars_of(category)),
                    filename: name,
                    directory: e.directory.clone(),
                    directory_label: e.directory_label.clone(),
                    path: e.path.clone(),
                    size_bytes: e.size_bytes,
                    modified_ms: e.modified_ms,
                });
                let ghost nv = managed_file_view(items@.last());
                assert(items@.map_values(|f: ManagedModelFile| managed_file_view(f)) =~= old_items.map_values(|f: ManagedModelFile| managed_file_view(f)).push(nv));
                assert(views(k1@) =~= old1.push(unicode_lower(nv.1)));
                assert(views(k2@) =~= old2.push(nv.3));
                assert(old1.len() == old2.len());
                assert(pair_keys(views(k1@), views(k2@)) =~= pair_keys(old1, old2).push((unicode_lower(nv.1), nv.3)));
                assert(file_sort_keys(prev.push(nv)) =~= file_sort_keys(prev).push((unicode_lower(nv.1), nv.3)));
            }
        }
        i += 1;
    }
    assert(found@.take(found.len() as int) =~= found@);
    let ghost l = listed_files(category@, found@);
    let order = stable_sort_order2(&k1, &k2);
    let ghost ov = order@.map_values(|x: usize| x as int);
    proof {
        crate::sorting::lemma_sort_order2_sorted(file_sort_keys(l), l.len() as int);
    }
    let mut out: Vec<ManagedModelFile> = Vec::new();
    let mut j: usize = 0;
    while j < order.len()
        invariant
            j <= order.len(),
            ov == order@.map_values(|x: usize| x as int),
            ov == sort_order2(file_sort_keys(l)),
            items@.map_values(|f: ManagedModelFile| managed_file_view(f)) == l,
            forall|a: int| 0 <= a < ov.len() ==> 0 <= #[trigger] ov[a] < l.len(),
            out@.map_values(|f: ManagedModelFile| managed_file_view(f)) == ov.take(j as int).map_values(|x: int| l[x]),
        decreases order.len() - j,
    {
        let idx = order[j];
        assert(ov[j as int] == idx as int);
        let src = &items[idx];
        let ghost before = out@;
        out.push(ManagedModelFile {
            category: src.category.clone(),
            filename: src.filename.clone(),
            directory: src.directory.clone(),
            directory_label: src.directory_label.clone(),
            path: src.path.clone(),
            size_bytes: src.size_bytes,
            modified_ms: src.modified_ms,
        });
        assert(l[idx as int] == managed_file_view(items@[idx as int]));
        assert(out@.map_values(|f: ManagedModelFile| managed_file_view(f)) =~= before.map_values(|f: ManagedModelFile| managed_file_view(f)).push(l[idx as int]));
        assert(ov.take(j + 1).map_values(|x: int| l[x]) =~= ov.take(j as int).map_values(|x: int| l[x]).push(l[idx as int]));
        j += 1;
    }
    assert(ov.take(order.len() as int) =~= ov);
    out
}

pub type ManagedFolderView = (Seq<char>, Seq<char>, Seq<char>, Seq<char>);

pub open spec fn managed_folder_view(f: ManagedModelFolder) -> ManagedFolderView {
    (f.category@, f.path@, f.directory@, f.directory_label@)
}

/// A folder the caller found while walking an install folder: the install
/// folder, its label, and the folder's full path.
pub type FoundFolderView = (Seq<char>, Seq<char>, Seq<char>);

pub open spec fn found_folder_views(v: Seq<(String, String, String)>) -> Seq<FoundFolderView> {
    v.map_values(|f: (String, String, String)| (f.0@, f.1@, f.2@))
}

/// The Model Manager entries for the found folders, in walk order: those
/// with a safe relative name.
pub open spec fn listed_folders(category: Seq<char>, found: Seq<FoundFolderView>) -> Seq<ManagedFolderView>
    decreases found.len(),
{
    if found.len() == 0 {
        Seq::<ManagedFolderView>::empty()
    } else {
        let prev = listed_folders(category, found.drop_last());
        let e = found.last();
        let name = relative_name_spec(e.0, e.2);
        if safe_relative_spec(name) {
            prev.push((category, name, e.0, e.1))
        } else {
            prev
        }
    }
}

/// Folders are listed by folder label, then by path ignoring case.
pub open spec fn folder_sort_keys(l: Seq<ManagedFolderView>) -> Seq<(Seq<char>, Seq<char>)> {
    l.map_values(|f: ManagedFolderView| (f.3, unicode_lower(f.1)))
}

pub open spec fn folder_listing_spec(category: Seq<char>, found: Seq<FoundFolderView>) -> Seq<ManagedFolderView> {
    let l = listed_folders(category, found);
    sort_order2(folder_sort_keys(l)).map_values(|i: int| l[i])
}

/// The Model Manager's folder tree for a category: every folder the walk
/// found (install folder, its label, full path), named by its path below
/// the install folder, sorted by label and then by path ignoring case.
pub fn model_folder_listing(category: &str, found: &Vec<(String, String, String)>) -> (r: Vec<ManagedModelFolder>)
    ensures
        r@.map_values(|f: ManagedModelFolder| managed_folder_view(f))
            == folder_listing_spec(category@, found_folder_views(found@)),
{
    let ghost fv = found_folder_views(found@);
    let mut items: Vec<ManagedModelFolder> = Vec::new();
    let mut k1: Vec<Vec<char>> = Vec::new();
    let mut k2: Vec<Vec<char>> = Vec::new();
    let mut i: usize = 0;
    while i < found.len()
        invariant
            i <= found.len(),
            fv == found_folder_views(found@),
            items.len() == k1.len(),
            items.len() == k2.len(),
            items@.map_values(|f: ManagedModelFolder| managed_folder_view(f)) == listed_folders(category@, fv.take(i as int)),
            pair_keys(views(k1@), views(k2@)) == folder_sort_keys(listed_folders(category@, fv.take(i as int))),
        decreases found.len() - i,
    {
        assert(fv.take(i + 1).drop_last() =~= fv.take(i as int));
        assert(fv.take(i + 1).last() == (found@[i as int].0@, found@[i as int].1@, found@[i as int].2@));
        let e = &found[i];
        let name = relative_model_filename(e.0.as_str(), e.2.as_str());
        if is_safe_relative_model_path(name.as_str()) {
            let ghost prev = listed_folders(category@, fv.take(i as int));
            let ghost old_items = items@;
            let ghost old1 = views(k1@);
            let ghost old2 = views(k2@);
            k1.push(chars_of(e.1.as_str()));
            k2.push(lowercase_chars(&chars_of(name.as_str())));
            items.push(ManagedModelFolder {
                category: string_of(&chars_of(category)),
                path: name,
                directory: e.0.clone(),
                directory_label: e.1.clone(),
            });
            let ghost nv = managed_folder_view(items@.last());
            assert(items@.map_values(|f: ManagedModelFolder| managed_folder_view(f)) =~= old_items.map_values(|f: ManagedModelFolder| managed_folder_view(f)).push(nv));
            assert(views(k1@) =~= old1.push(nv.3));
            assert(views(k2@) =~= old2.push(unicode_lower(nv.1)));
            assert(old1.len() == old2.len());
            assert(pair_keys(views(k1@), views(k2@)) =~= pair_keys(old1, old2).push((nv.3, unicode_lower(nv.1))));
            assert(folder_sort_keys(prev.push(nv)) =~= folder_sort_keys(prev).push((nv.3, unicode_lower(nv.1))));
        }
        i += 1;
    }
    assert(fv.take(found.len() as int) =~= fv);
    let ghost l = listed_folders(category@, fv);
    let order = stable_sort_order2(&k1, &k2);
    let ghost ov = order@.map_values(|x: usize| x as int);
    proof {
        crate::sorting::lemma_sort_order2_sorted(folder_sort_keys(l), l.len() as int);
    }
    let mut out: Vec<ManagedModelFolder> = Vec::new();
    let mut j: usize = 0;
    while j < order.len()
        invariant
            j <= order.len(),
            ov == order@.map_values(|x: usize| x as int),
            ov == sort_order2(folder_sort_keys(l)),
            items@.map_values(|f: ManagedModelFolder| managed_folder_view(f)) == l,
            forall|a: int| 0 <= a < ov.len() ==> 0 <= #[trigger] ov[a] < l.len(),
            out@.map_values(|f: ManagedModelFolder| managed_folder_view(f)) == ov.take(j as int).map_values(|x: int| l[x]),
        decreases order.len() - j,
    {
        let idx = order[j];
        assert(ov[j as int] == idx as int);
        let src = &items[idx];
        let ghost before = out@;
        out.push(ManagedModelFolder {
            category: src.category.clone(),
            path: src.path.clone(),
            directory: src.directory.clone(),
            directory_label: src.directory_label.clone(),
        });
        assert(l[idx as int] == managed_folder_view(items@[idx as int]));
        assert(out@.map_values(|f: ManagedModelFolder| managed_folder_view(f)) =~= before.map_values(|f: ManagedModelFolder| managed_folder_view(f)).push(l[idx as int]));
        assert(ov.take(j + 1).map_values(|x: int| l[x]) =~= ov.take(j as int).map_values(|x: int| l[x]).push(l[idx as int]));
        j += 1;
    }
    assert(ov.take(order.len() as int) =~= ov);
    out
}

} // verus!
