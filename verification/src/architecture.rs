//! Structural model detection: which architecture and which kind of file
//! (full checkpoint or bare diffusion model) a tensor-name table proves, and
//! how architectures relate to model families.
use vstd::prelude::*;
use crate::text::{
    chars_of, copy_range, lower_chars, lower_seq, seq_contains, spells, starts, starts_with,
    str_views, string_of,
};

verus! {

// ---------------------------------------------------------------------------
// Counting tensor names
// ---------------------------------------------------------------------------

/// How many of `names` start with `p`.
pub open spec fn count_prefixed(names: Seq<Seq<char>>, p: Seq<char>) -> nat
    decreases names.len(),
{
    if names.len() == 0 {
        0
    } else {
        count_prefixed(names.drop_last(), p) + if starts_with(names.last(), p) { 1nat } else { 0nat }
    }
}

fn count_starting_with(names: &[&str], p: &str) -> (r: usize)
    ensures
        r == count_prefixed(str_views(names@), p@),
{
    let ghost v = str_views(names@);
    let pc = chars_of(p);
    let mut c: usize = 0;
    let mut i: usize = 0;
    assert(v.take(0) =~= Seq::<Seq<char>>::empty());
    while i < names.len()
        invariant
            i <= names.len(),
            v == str_views(names@),
            pc@ == p@,
            c == count_prefixed(v.take(i as int), p@),
            c <= i,
        decreases names.len() - i,
    {
        assert(v.take(i + 1).drop_last() =~= v.take(i as int));
        assert(v.take(i + 1).last() == names@[i as int]@);
        let k = chars_of(names[i]);
        if starts(&k, p) {
            c += 1;
        }
        i += 1;
    }
    assert(v.take(names.len() as int) =~= v);
    c
}

/// The container prefix the bulk of a checkpoint's tensors sit under: the
/// candidate (in the order `model.diffusion_model.`, `diffusion_model.`,
/// `model.model.`, `net.`) that the most names start with, earlier ones
/// winning ties, provided more than 5 names do; else none.
pub open spec fn dominant_prefix_spec(names: Seq<Seq<char>>) -> Seq<char> {
    let c0 = count_prefixed(names, "model.diffusion_model."@);
    let c1 = count_prefixed(names, "diffusion_model."@);
    let c2 = count_prefixed(names, "model.model."@);
    let c3 = count_prefixed(names, "net."@);
    let (b0, n0) = if c0 > 0 { ("model.diffusion_model."@, c0) } else { (Seq::<char>::empty(), 0nat) };
    let (b1, n1) = if c1 > n0 { ("diffusion_model."@, c1) } else { (b0, n0) };
    let (b2, n2) = if c2 > n1 { ("model.model."@, c2) } else { (b1, n1) };
    let (b3, n3) = if c3 > n2 { ("net."@, c3) } else { (b2, n2) };
    if n3 > 5 { b3 } else { Seq::<char>::empty() }
}

pub fn dominant_tensor_key_prefix(names: &[&str]) -> (r: &'static str)
    ensures
        r@ == dominant_prefix_spec(str_views(names@)),
{
    proof { reveal_strlit(""); }
    let c0 = count_starting_with(names, "model.diffusion_model.");
    let c1 = count_starting_with(names, "diffusion_model.");
    let c2 = count_starting_with(names, "model.model.");
    let c3 = count_starting_with(names, "net.");
    let mut best: &'static str = "";
    let mut best_count: usize = 0;
    if c0 > best_count {
        best = "model.diffusion_model.";
        best_count = c0;
    }
    if c1 > best_count {
        best = "diffusion_model.";
        best_count = c1;
    }
    if c2 > best_count {
        best = "model.model.";
        best_count = c2;
    }
    if c3 > best_count {
        best = "net.";
        best_count = c3;
    }
    if best_count > 5 {
        best
    } else {
        ""
    }
}

// ---------------------------------------------------------------------------
// Architecture from tensor names
// ---------------------------------------------------------------------------

/// The names that start with `p`, with `p` removed, in order.
pub open spec fn stripped_names(names: Seq<Seq<char>>, p: Seq<char>) -> Seq<Seq<char>>
    decreases names.len(),
{
    if names.len() == 0 {
        Seq::<Seq<char>>::empty()
    } else {
        let r = stripped_names(names.drop_last(), p);
        if starts_with(names.last(), p) { r.push(names.last().skip(p.len() as int)) } else { r }
    }
}

/// The names with the dominant container prefix stripped (names outside the
/// container are dropped); all names when there is no dominant prefix.
pub open spec fn bare_names(names: Seq<Seq<char>>) -> Seq<Seq<char>> {
    let prefix = dominant_prefix_spec(names);
    if prefix.len() == 0 { names } else { stripped_names(names, prefix) }
}

pub open spec fn any_starts_with(names: Seq<Seq<char>>, p: Seq<char>) -> bool {
    exists|i: int| 0 <= i < names.len() && starts_with(#[trigger] names[i], p)
}

pub open spec fn any_contains(names: Seq<Seq<char>>, s: Seq<char>) -> bool {
    exists|i: int| 0 <= i < names.len() && seq_contains(#[trigger] names[i], s)
}

/// The architecture a tensor-name table proves, by the markers ComfyUI's
/// `detect_unet_config` uses, matched on the names with their container
/// prefix stripped; the first rule that applies decides.
pub open spec fn architecture_spec(names: Seq<Seq<char>>) -> Option<Seq<char>> {
    let prefix = dominant_prefix_spec(names);
    let bare = bare_names(names);
    if any_starts_with(bare, "llm_adapter."@) && any_contains(bare, "blocks.0.mlp.layer1."@) {
        Some("anima"@)
    } else if any_starts_with(bare, "blocks.0.mlp.layer1."@) {
        Some("cosmos_predict2"@)
    } else if bare.contains("head.modulation"@) {
        Some("wan2.1"@)
    } else if any_starts_with(bare, "double_blocks."@) && any_starts_with(bare, "single_blocks."@) {
        Some("flux"@)
    } else if bare.contains("txt_norm.weight"@) && any_starts_with(bare, "transformer_blocks."@) {
        Some("qwen_image"@)
    } else if any_starts_with(bare, "joint_blocks."@)
        || any_starts_with(bare, "transformer_blocks.0.attn.add_q_proj."@) {
        Some("stable-diffusion-3-medium"@)
    } else if any_starts_with(bare, "double_transformer_blocks."@)
        && any_starts_with(bare, "single_transformer_blocks."@) {
        Some("auraflow"@)
    } else if any_contains(bare, "mlp_t5"@) {
        Some("hunyuandit"@)
    } else if any_contains(bare, "clip_txt_mapper"@) {
        Some("stable_cascade"@)
    } else if any_starts_with(bare, "adaln_single."@) {
        Some("pixart"@)
    } else if any_contains(bare, "chatglm"@) {
        Some("kolors"@)
    } else if prefix == "model.diffusion_model."@ || prefix == "diffusion_model."@
        || any_starts_with(bare, "input_blocks."@) {
        if any_contains(bare, "label_emb"@) || any_starts_with(names, "conditioner.embedders.1."@) {
            Some("stable-diffusion-xl-v1-base"@)
        } else {
            Some("stable-diffusion-v1-5"@)
        }
    } else {
        None
    }
}

/// Names that no earlier, more specific detection rule claims: no Anima or
/// Cosmos adapter blocks, no Wan head modulation, no Flux double and single
/// blocks together, no Qwen Image text norm beside transformer blocks.
pub open spec fn before_mmdit_unclaimed(bare: Seq<Seq<char>>) -> bool {
    &&& !(any_starts_with(bare, "llm_adapter."@) && any_contains(bare, "blocks.0.mlp.layer1."@))
    &&& !any_starts_with(bare, "blocks.0.mlp.layer1."@)
    &&& !bare.contains("head.modulation"@)
    &&& !(any_starts_with(bare, "double_blocks."@) && any_starts_with(bare, "single_blocks."@))
    &&& !(bare.contains("txt_norm.weight"@) && any_starts_with(bare, "transformer_blocks."@))
}

/// The transformer architectures ahead of SD3, each told by its own
/// marker once the ones before it are ruled out: Anima (an LLM adapter
/// beside Cosmos blocks), Cosmos Predict 2 (Cosmos blocks), Wan 2.1 (a
/// `head.modulation` tensor), Flux (double and single blocks), Qwen Image
/// (a text norm beside transformer blocks).
pub proof fn transformer_markers_name_their_architecture(names: Seq<Seq<char>>)
    ensures
        ({
            let bare = bare_names(names);
            let anima = any_starts_with(bare, "llm_adapter."@) && any_contains(bare, "blocks.0.mlp.layer1."@);
            let cosmos = any_starts_with(bare, "blocks.0.mlp.layer1."@);
            let wan = bare.contains("head.modulation"@);
            let flux = any_starts_with(bare, "double_blocks."@) && any_starts_with(bare, "single_blocks."@);
            let qwen = bare.contains("txt_norm.weight"@) && any_starts_with(bare, "transformer_blocks."@);
            &&& anima ==> architecture_spec(names) == Some("anima"@)
            &&& !anima && cosmos ==> architecture_spec(names) == Some("cosmos_predict2"@)
            &&& !anima && !cosmos && wan ==> architecture_spec(names) == Some("wan2.1"@)
            &&& !anima && !cosmos && !wan && flux ==> architecture_spec(names) == Some("flux"@)
            &&& !anima && !cosmos && !wan && !flux && qwen ==> architecture_spec(names) == Some("qwen_image"@)
        }),
{
}

/// SD3's MMDiT blocks decide the architecture on their own: a table with
/// a `joint_blocks.` tensor, or with diffusers' `transformer_blocks.0.attn.add_q_proj.`
/// tensor, either one without the other, is SD3 / SD3.5 unless an earlier
/// rule claims it.
pub proof fn mmdit_blocks_mean_sd3(names: Seq<Seq<char>>)
    requires
        any_starts_with(bare_names(names), "joint_blocks."@)
            || any_starts_with(bare_names(names), "transformer_blocks.0.attn.add_q_proj."@),
        before_mmdit_unclaimed(bare_names(names)),
    ensures
        architecture_spec(names) == Some("stable-diffusion-3-medium"@),
{
}

/// Names that no rule before the UNet checkpoints claims: none of the
/// transformer architectures' markers.
pub open spec fn before_unet_unclaimed(bare: Seq<Seq<char>>) -> bool {
    &&& before_mmdit_unclaimed(bare)
    &&& !any_starts_with(bare, "joint_blocks."@)
    &&& !any_starts_with(bare, "transformer_blocks.0.attn.add_q_proj."@)
    &&& !(any_starts_with(bare, "double_transformer_blocks."@) && any_starts_with(bare, "single_transformer_blocks."@))
    &&& !any_contains(bare, "mlp_t5"@)
    &&& !any_contains(bare, "clip_txt_mapper"@)
    &&& !any_starts_with(bare, "adaln_single."@)
    &&& !any_contains(bare, "chatglm"@)
}

/// A UNet checkpoint (its tensors under `model.diffusion_model.` or
/// `diffusion_model.`, or with `input_blocks.`) is SDXL when it has a class
/// embedding (`label_emb`) or a second text encoder
/// (`conditioner.embedders.1.`), and SD 1.5 otherwise; a table with none of
/// the markers, no UNet prefix and no `input_blocks.` gets no architecture.
pub proof fn unet_checkpoints_split_into_sdxl_and_sd15(names: Seq<Seq<char>>)
    requires
        before_unet_unclaimed(bare_names(names)),
    ensures
        ({
            let prefix = dominant_prefix_spec(names);
            let bare = bare_names(names);
            let unet = prefix == "model.diffusion_model."@ || prefix == "diffusion_model."@
                || any_starts_with(bare, "input_blocks."@);
            let xl = any_contains(bare, "label_emb"@) || any_starts_with(names, "conditioner.embedders.1."@);
            &&& unet && xl ==> architecture_spec(names) == Some("stable-diffusion-xl-v1-base"@)
            &&& unet && !xl ==> architecture_spec(names) == Some("stable-diffusion-v1-5"@)
            &&& !unet ==> architecture_spec(names) is None
        }),
{
}

fn any_starts(names: &Vec<Vec<char>>, p: &str) -> (r: bool)
    ensures
        r == any_starts_with(crate::text::views(names@), p@),
{
    let ghost v = crate::text::views(names@);
    let mut i: usize = 0;
    while i < names.len()
        invariant
            i <= names.len(),
            v == crate::text::views(names@),
            forall|k: int| 0 <= k < i ==> !starts_with(#[trigger] v[k], p@),
        decreases names.len() - i,
    {
        assert(v[i as int] == names@[i as int]@);
        if starts(&names[i], p) {
            return true;
        }
        i += 1;
    }
    false
}

fn any_has(names: &Vec<Vec<char>>, s: &str) -> (r: bool)
    ensures
        r == any_contains(crate::text::views(names@), s@),
{
    let ghost v = crate::text::views(names@);
    let mut i: usize = 0;
    while i < names.len()
        invariant
            i <= names.len(),
            v == crate::text::views(names@),
            forall|k: int| 0 <= k < i ==> !seq_contains(#[trigger] v[k], s@),
        decreases names.len() - i,
    {
        assert(v[i as int] == names@[i as int]@);
        if crate::text::has(&names[i], s) {
            return true;
        }
        i += 1;
    }
    false
}

fn has_name(names: &Vec<Vec<char>>, s: &str) -> (r: bool)
    ensures
        r == crate::text::views(names@).contains(s@),
{
    let ghost v = crate::text::views(names@);
    let mut i: usize = 0;
    while i < names.len()
        invariant
            i <= names.len(),
            v == crate::text::views(names@),
            forall|k: int| 0 <= k < i ==> v[k] != s@,
        decreases names.len() - i,
    {
        assert(v[i as int] == names@[i as int]@);
        if spells(&names[i], s) {
            assert(v[i as int] == s@);
            return true;
        }
        i += 1;
    }
    false
}

fn bare_names_of(names: &[&str], prefix: &str) -> (r: Vec<Vec<char>>)
    ensures
        crate::text::views(r@) == (if prefix@.len() == 0 {
            str_views(names@)
        } else {
            stripped_names(str_views(names@), prefix@)
        }),
{
    let ghost v = str_views(names@);
    let pc = chars_of(prefix);
    let mut out: Vec<Vec<char>> = Vec::new();
    let mut i: usize = 0;
    assert(v.take(0) =~= Seq::<Seq<char>>::empty());
    while i < names.len()
        invariant
            i <= names.len(),
            v == str_views(names@),
            pc@ == prefix@,
            crate::text::views(out@) == (if prefix@.len() == 0 {
                v.take(i as int)
            } else {
                stripped_names(v.take(i as int), prefix@)
            }),
        decreases names.len() - i,
    {
        assert(v.take(i + 1).drop_last() =~= v.take(i as int));
        assert(v.take(i + 1).last() == names@[i as int]@);
        let k = chars_of(names[i]);
        let ghost before = out@;
        if pc.len() == 0 {
            out.push(k);
            assert(crate::text::views(out@) =~= crate::text::views(before).push(names@[i as int]@));
            assert(v.take(i + 1) =~= v.take(i as int).push(names@[i as int]@));
        } else if starts(&k, prefix) {
            proof { assert(crate::text::occurs_at(k@, prefix@, 0)); }
            let kn = k.len();
            let rest = copy_range(&k, pc.len(), kn);
            assert(rest@ =~= k@.skip(prefix@.len() as int));
            out.push(rest);
            assert(crate::text::views(out@) =~= crate::text::views(before).push(rest@));
        }
        i += 1;
    }
    assert(v.take(names.len() as int) =~= v);
    out
}

/// Infer the model architecture by examining tensor name patterns.
pub fn infer_architecture_from_key_names(names: &[&str]) -> (r: Option<String>)
    ensures
        match r {
            Some(a) => architecture_spec(str_views(names@)) == Some(a@),
            None => architecture_spec(str_views(names@)) is None,
        },
{
    let prefix = dominant_tensor_key_prefix(names);
    let bare = bare_names_of(names, prefix);
    let arch: Option<&'static str> = if any_starts(&bare, "llm_adapter.") && any_has(&bare, "blocks.0.mlp.layer1.") {
        Some("anima")
    } else if any_starts(&bare, "blocks.0.mlp.layer1.") {
        Some("cosmos_predict2")
    } else if has_name(&bare, "head.modulation") {
        Some("wan2.1")
    } else if any_starts(&bare, "double_blocks.") && any_starts(&bare, "single_blocks.") {
        Some("flux")
    } else if has_name(&bare, "txt_norm.weight") && any_starts(&bare, "transformer_blocks.") {
        Some("qwen_image")
    } else if any_starts(&bare, "joint_blocks.") || any_starts(&bare, "transformer_blocks.0.attn.add_q_proj.") {
        Some("stable-diffusion-3-medium")
    } else if any_starts(&bare, "double_transformer_blocks.") && any_starts(&bare, "single_transformer_blocks.") {
        Some("auraflow")
    } else if any_has(&bare, "mlp_t5") {
        Some("hunyuandit")
    } else if any_has(&bare, "clip_txt_mapper") {
        Some("stable_cascade")
    } else if any_starts(&bare, "adaln_single.") {
        Some("pixart")
    } else if any_has(&bare, "chatglm") {
        Some("kolors")
    } else {
        let p = chars_of(prefix);
        let is_unet_prefix = spells(&p, "model.diffusion_model.") || spells(&p, "diffusion_model.");
        if is_unet_prefix || any_starts(&bare, "input_blocks.") {
            let all = bare_names_of(names, "");
            proof {
                reveal_strlit("");
            }
            if any_has(&bare, "label_emb") || any_starts(&all, "conditioner.embedders.1.") {
                Some("stable-diffusion-xl-v1-base")
            } else {
                Some("stable-diffusion-v1-5")
            }
        } else {
            None
        }
    };
    match arch {
        Some(a) => {
            let c = chars_of(a);
            Some(string_of(&c))
        },
        None => None,
    }
}

// ---------------------------------------------------------------------------
// Kind of file
// ---------------------------------------------------------------------------

/// More than 5 names start with `p`: a real tensor tree, not a stray buffer.
pub open spec fn has_tree(names: Seq<Seq<char>>, p: Seq<char>) -> bool {
    count_prefixed(names, p) > 5
}

/// A full single-file checkpoint carries a baked VAE or text encoder tree; a
/// bare diffusion model carries only a diffusion tree; anything else (a LoRA,
/// an embedding) proves neither.
pub open spec fn model_kind_spec(names: Seq<Seq<char>>) -> Option<Seq<char>> {
    if has_tree(names, "cond_stage_model."@) || has_tree(names, "conditioner.embedders."@)
        || has_tree(names, "first_stage_model."@) || has_tree(names, "text_encoders."@) {
        Some("checkpoint"@)
    } else if has_tree(names, "model.diffusion_model."@) || has_tree(names, "diffusion_model."@)
        || has_tree(names, "double_blocks."@) || has_tree(names, "single_blocks."@)
        || has_tree(names, "joint_blocks."@) || has_tree(names, "transformer_blocks."@)
        || has_tree(names, "net."@) {
        Some("diffusion_model"@)
    } else {
        None
    }
}

/// Infer whether a file is a full checkpoint or a bare diffusion model from
/// its tensor names.
pub fn infer_model_kind_from_key_names(names: &[&str]) -> (r: Option<&'static str>)
    ensures
        match r {
            Some(k) => model_kind_spec(str_views(names@)) == Some(k@),
            None => model_kind_spec(str_views(names@)) is None,
        },
{
    if count_starting_with(names, "cond_stage_model.") > 5
        || count_starting_with(names, "conditioner.embedders.") > 5
        || count_starting_with(names, "first_stage_model.") > 5
        || count_starting_with(names, "text_encoders.") > 5 {
        return Some("checkpoint");
    }
    if count_starting_with(names, "model.diffusion_model.") > 5
        || count_starting_with(names, "diffusion_model.") > 5
        || count_starting_with(names, "double_blocks.") > 5
        || count_starting_with(names, "single_blocks.") > 5
        || count_starting_with(names, "joint_blocks.") > 5
        || count_starting_with(names, "transformer_blocks.") > 5
        || count_starting_with(names, "net.") > 5 {
        return Some("diffusion_model");
    }
    None
}

// ---------------------------------------------------------------------------
// Architectures and families
// ---------------------------------------------------------------------------

/// The family an architecture maps onto unambiguously, if it does.
pub open spec fn family_of_architecture(a: Seq<char>) -> Option<Seq<char>> {
    if a == "anima"@ {
        Some("anima"@)
    } else if a == "wan2.1"@ {
        Some("wan"@)
    } else if a == "flux"@ {
        Some("flux"@)
    } else if a == "qwen_image"@ {
        Some("qwen"@)
    } else if a == "stable-diffusion-3-medium"@ {
        Some("sd3"@)
    } else if a == "auraflow"@ {
        Some("auraflow"@)
    } else if a == "pixart"@ {
        Some("pixart"@)
    } else if a == "hunyuandit"@ {
        Some("hunyuandit"@)
    } else if a == "stable_cascade"@ {
        Some("cascade"@)
    } else if a == "kolors"@ {
        Some("kolors"@)
    } else if a == "stable-diffusion-xl-v1-base"@ {
        Some("sdxl"@)
    } else if a == "stable-diffusion-v1-5"@ {
        Some("sd15"@)
    } else {
        None
    }
}

pub fn family_from_architecture(architecture: &str) -> (r: Option<&'static str>)
    ensures
        match r {
            Some(f) => family_of_architecture(architecture@) == Some(f@),
            None => family_of_architecture(architecture@) is None,
        },
{
    let a = chars_of(architecture);
    if spells(&a, "anima") {
        Some("anima")
    } else if spells(&a, "wan2.1") {
        Some("wan")
    } else if spells(&a, "flux") {
        Some("flux")
    } else if spells(&a, "qwen_image") {
        Some("qwen")
    } else if spells(&a, "stable-diffusion-3-medium") {
        Some("sd3")
    } else if spells(&a, "auraflow") {
        Some("auraflow")
    } else if spells(&a, "pixart") {
        Some("pixart")
    } else if spells(&a, "hunyuandit") {
        Some("hunyuandit")
    } else if spells(&a, "stable_cascade") {
        Some("cascade")
    } else if spells(&a, "kolors") {
        Some("kolors")
    } else if spells(&a, "stable-diffusion-xl-v1-base") {
        Some("sdxl")
    } else if spells(&a, "stable-diffusion-v1-5") {
        Some("sd15")
    } else {
        None
    }
}

/// The structural class of a family: families that share tensor topology
/// share a class; a family without an implemented structural signature has
/// none.
pub open spec fn class_of_family(f: Seq<char>) -> Option<Seq<char>> {
    if f == "sdxl"@ || f == "illustrious"@ || f == "pony"@ || f == "mugen"@ {
        Some("sdxl"@)
    } else if f == "sd15"@ {
        Some("sd15"@)
    } else if f == "flux"@ || f == "flux1d"@ || f == "flux1s"@ || f == "flux1krea"@ || f == "chroma"@ {
        Some("flux"@)
    } else if f == "anima"@ {
        Some("anima"@)
    } else if f == "wan"@ {
        Some("wan"@)
    } else if f == "qwen"@ {
        Some("qwen_image"@)
    } else if f == "sd3"@ {
        Some("sd3"@)
    } else if f == "auraflow"@ {
        Some("auraflow"@)
    } else if f == "pixart"@ {
        Some("pixart"@)
    } else if f == "hunyuandit"@ {
        Some("hunyuandit"@)
    } else if f == "cascade"@ {
        Some("cascade"@)
    } else if f == "kolors"@ {
        Some("kolors"@)
    } else {
        None
    }
}

pub fn architecture_class(family: &str) -> (r: Option<&'static str>)
    ensures
        match r {
            Some(c) => class_of_family(family@) == Some(c@),
            None => class_of_family(family@) is None,
        },
{
    let f = chars_of(family);
    if spells(&f, "sdxl") || spells(&f, "illustrious") || spells(&f, "pony") || spells(&f, "mugen") {
        Some("sdxl")
    } else if spells(&f, "sd15") {
        Some("sd15")
    } else if spells(&f, "flux") || spells(&f, "flux1d") || spells(&f, "flux1s") || spells(&f, "flux1krea")
        || spells(&f, "chroma") {
        Some("flux")
    } else if spells(&f, "anima") {
        Some("anima")
    } else if spells(&f, "wan") {
        Some("wan")
    } else if spells(&f, "qwen") {
        Some("qwen_image")
    } else if spells(&f, "sd3") {
        Some("sd3")
    } else if spells(&f, "auraflow") {
        Some("auraflow")
    } else if spells(&f, "pixart") {
        Some("pixart")
    } else if spells(&f, "hunyuandit") {
        Some("hunyuandit")
    } else if spells(&f, "cascade") {
        Some("cascade")
    } else if spells(&f, "kolors") {
        Some("kolors")
    } else {
        None
    }
}

/// The app architecture a city96/ComfyUI-GGUF `general.architecture` value
/// names, compared without ASCII case.
pub open spec fn gguf_arch_spec(gguf_arch: Seq<char>) -> Option<Seq<char>> {
    let a = lower_seq(gguf_arch);
    if a == "flux"@ {
        Some("flux"@)
    } else if a == "sd1"@ {
        Some("stable-diffusion-v1-5"@)
    } else if a == "sdxl"@ {
        Some("stable-diffusion-xl-v1-base"@)
    } else if a == "sd3"@ {
        Some("stable-diffusion-3-medium"@)
    } else if a == "aura"@ || a == "auraflow"@ {
        Some("auraflow"@)
    } else if a == "wan"@ || a == "wan21"@ || a == "wan2.1"@ {
        Some("wan2.1"@)
    } else if a == "cosmos"@ {
        Some("cosmos_predict2"@)
    } else if a == "qwen_image"@ || a == "qwenimage"@ || a == "qwen-image"@ {
        Some("qwen_image"@)
    } else if a == "pixart"@ {
        Some("pixart"@)
    } else if a == "hunyuan_dit"@ || a == "hunyuandit"@ {
        Some("hunyuandit"@)
    } else if a == "kolors"@ {
        Some("kolors"@)
    } else {
        None
    }
}

pub fn gguf_arch_to_app_arch(gguf_arch: &str) -> (r: Option<&'static str>)
    ensures
        match r {
            Some(a) => gguf_arch_spec(gguf_arch@) == Some(a@),
            None => gguf_arch_spec(gguf_arch@) is None,
        },
{
    let raw = chars_of(gguf_arch);
    let a = lower_chars(&raw);
    if spells(&a, "flux") {
        Some("flux")
    } else if spells(&a, "sd1") {
        Some("stable-diffusion-v1-5")
    } else if spells(&a, "sdxl") {
        Some("stable-diffusion-xl-v1-base")
    } else if spells(&a, "sd3") {
        Some("stable-diffusion-3-medium")
    } else if spells(&a, "aura") || spells(&a, "auraflow") {
        Some("auraflow")
    } else if spells(&a, "wan") || spells(&a, "wan21") || spells(&a, "wan2.1") {
        Some("wan2.1")
    } else if spells(&a, "cosmos") {
        Some("cosmos_predict2")
    } else if spells(&a, "qwen_image") || spells(&a, "qwenimage") || spells(&a, "qwen-image") {
        Some("qwen_image")
    } else if spells(&a, "pixart") {
        Some("pixart")
    } else if spells(&a, "hunyuan_dit") || spells(&a, "hunyuandit") {
        Some("hunyuandit")
    } else if spells(&a, "kolors") {
        Some("kolors")
    } else {
        None
    }
}

} // verus!
