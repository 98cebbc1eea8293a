//! The model info a model file gets: its turbo variant and family, where the
//! family came from, the fields its headers declare, the structural family
//! and kind its weights prove, and for a split model the companion VAE and
//! text encoder among those installed.
use vstd::prelude::*;
use crate::architecture::{family_from_architecture, family_of_architecture};
use crate::gguf::{gguf_fields_spec, gguf_info_fields, GgufArchitectureMeta};
use crate::models::{
    family_from_base_model_spec, is_sdxl_like_family, model_family_from_base_model,
    recommended_clip_from_available, recommended_clip_spec, recommended_vae_from_available,
    recommended_vae_spec, sdxl_like_family, turbo_model_variant_from_filename, turbo_variant_spec,
};
use crate::modelspec::{
    display_fields_spec, effective_is_split, kind_from_family, kind_from_family_spec,
    meta_entry_views, model_file_format, model_file_format_spec, needs_runtime_metadata,
    needs_runtime_metadata_spec, opt_text, runtime_fields_spec, safetensors_display_fields,
    safetensors_runtime_fields, soft_identity, soft_identity_spec, split_model_spec,
    structural_override, structural_override_spec, ModelFileFormat, SafetensorsHeader,
    SoftIdentity,
};
use crate::text::{chars_of, spells, str_views, string_of, string_views};
use crate::text_map::{
    keys_unique, pair_views, text_map, text_map_contains, text_map_extend, text_map_get,
    text_map_insert,
};

verus! {

/// What the caller read for a model file's info.
pub struct ModelspecFacts {
    pub category: String,
    pub filename: String,
    /// The base model each sidecar names (LoRA Manager, Forge, Stability
    /// Matrix), as cleaned by `sidecar_text`; `None` when absent or unread.
    pub lora_manager: Option<String>,
    pub forge: Option<String>,
    pub stability_matrix: Option<String>,
    /// When no source names the family: the file's AutoV2 hash and the
    /// base model CivitAI gives for it.
    pub hash_lookup: Option<(String, Option<String>)>,
    /// The safetensors header as read, or why it could not be.
    pub header: Option<Result<SafetensorsHeader, String>>,
    /// The structural detection of a GGUF header.
    pub gguf: Option<GgufArchitectureMeta>,
    /// ComfyUI's installed VAEs and text encoders, when it listed them.
    pub vaes: Option<Vec<String>>,
    pub encoders: Option<Vec<String>>,
}

pub open spec fn mget(m: Map<Seq<char>, Seq<char>>, k: Seq<char>) -> Option<Seq<char>> {
    if m.dom().contains(k) { Some(m[k]) } else { None }
}

pub open spec fn bool_text(b: bool) -> Seq<char> {
    if b { "true"@ } else { "false"@ }
}

/// A family and whether it is SDXL-like.
pub open spec fn with_family(m: Map<Seq<char>, Seq<char>>, f: Seq<char>) -> Map<Seq<char>, Seq<char>> {
    m.insert("family"@, f).insert("is_sdxl_like"@, bool_text(sdxl_like_family(f)))
}

/// The turbo variant, then the family's first source: an Anima name, a
/// sidecar's base model, the file name's family, or the hash lookup.
pub open spec fn identity_spec(f: ModelspecFacts) -> Map<Seq<char>, Seq<char>> {
    let m = Map::<Seq<char>, Seq<char>>::empty().insert("turbo_model_variant"@, turbo_variant_spec(f.filename@));
    let id = soft_identity_spec(f.filename@, opt_text(f.lora_manager), opt_text(f.forge), opt_text(f.stability_matrix));
    if id.0 == 0 {
        with_family(m, "anima"@)
    } else if id.0 == 1 {
        m.insert("base_model"@, id.1)
    } else if id.0 == 2 {
        with_family(m, id.1)
    } else {
        match f.hash_lookup {
            Some((h, b)) => {
                let m1 = m.insert("hash"@, h@);
                match b {
                    Some(bm) => m1.insert("base_model"@, bm@),
                    None => m1,
                }
            },
            None => m,
        }
    }
}

/// The header's runtime fields, when the model may need them (a header
/// that could not be read is then an error).
pub open spec fn runtime_spec(f: ModelspecFacts, m: Map<Seq<char>, Seq<char>>) -> Result<Map<Seq<char>, Seq<char>>, Seq<char>> {
    let needed = needs_runtime_metadata_spec(
        model_file_format_spec(f.filename@) == ModelFileFormat::Safetensors,
        mget(m, "is_sdxl_like"@) == Some("true"@),
        mget(m, "base_model"@),
    );
    if !needed {
        Ok(m)
    } else {
        match f.header {
            Some(Ok(h)) => Ok(m.union_prefer_right(runtime_fields_spec(h.metadata@, h.has_v_pred))),
            Some(Err(e)) => Err(e@),
            None => Ok(m),
        }
    }
}

/// A family still missing comes from the base model, else is unknown.
pub open spec fn family_fallback_spec(m: Map<Seq<char>, Seq<char>>) -> Map<Seq<char>, Seq<char>> {
    if m.dom().contains("family"@) {
        m
    } else {
        with_family(m, match mget(m, "base_model"@) {
            Some(b) => family_from_base_model_spec(b),
            None => "unknown"@,
        })
    }
}

/// The fields the file's header declares, where none is set yet.
pub open spec fn display_spec(f: ModelspecFacts, m: Map<Seq<char>, Seq<char>>) -> Map<Seq<char>, Seq<char>> {
    if model_file_format_spec(f.filename@) == ModelFileFormat::Safetensors {
        match f.header {
            Some(Ok(h)) => display_fields_spec(
                meta_entry_views(h.metadata@),
                h.has_v_pred,
                match h.keys { Some(k) => Some(string_views(k@)), None => None },
            ).union_prefer_right(m),
            _ => m,
        }
    } else {
        match f.gguf {
            Some(g) => crate::text_map::assoc(gguf_fields_spec(g@)).union_prefer_right(m),
            None => m,
        }
    }
}

/// The weights' family overrides or fills in the family, recording a
/// mismatch when it does.
pub open spec fn structural_spec(m: Map<Seq<char>, Seq<char>>) -> Map<Seq<char>, Seq<char>> {
    match mget(m, "architecture"@) {
        None => m,
        Some(a) => match family_of_architecture(a) {
            None => m,
            Some(st) => {
                let (ov, mis) = structural_override_spec(mget(m, "family"@), st);
                let m1 = if mis && m.dom().contains("family"@) {
                    m.insert("filename_family_mismatch"@, m["family"@])
                } else {
                    m
                };
                if ov { with_family(m1, st) } else { m1 }
            },
        },
    }
}

/// A family never shipped as a full checkpoint marks an undetected kind.
pub open spec fn kind_spec(m: Map<Seq<char>, Seq<char>>) -> Map<Seq<char>, Seq<char>> {
    match kind_from_family_spec(m.dom().contains("model_kind"@), mget(m, "family"@)) {
        Some((k, s)) => m.insert("model_kind"@, k).insert("model_kind_source"@, s),
        None => m,
    }
}

/// A split model's recommended VAE and text encoder.
pub open spec fn recommend_spec(f: ModelspecFacts, m: Map<Seq<char>, Seq<char>>) -> Map<Seq<char>, Seq<char>> {
    if !split_model_spec(f.category@, mget(m, "model_kind"@)) {
        m
    } else {
        let fam = match mget(m, "family"@) { Some(x) => x, None => "unknown"@ };
        let m1 = match f.vaes {
            Some(v) => match recommended_vae_spec("diffusion_models"@, fam, string_views(v@)) {
                Some(x) => m.insert("recommended_vae"@, x),
                None => m,
            },
            None => m,
        };
        match f.encoders {
            Some(e) => match recommended_clip_spec("diffusion_models"@, fam, string_views(e@)) {
                Some((model, t)) => {
                    let m2 = match model {
                        Some(x) => m1.insert("recommended_clip_model"@, x),
                        None => m1,
                    };
                    m2.insert("recommended_clip_type"@, t)
                },
                None => m1,
            },
            None => m1,
        }
    }
}

/// The model info of a file: nothing for a file that is neither
/// safetensors nor GGUF, else the steps above in order.
pub open spec fn modelspec_info_spec(f: ModelspecFacts) -> Result<Option<Map<Seq<char>, Seq<char>>>, Seq<char>> {
    if model_file_format_spec(f.filename@) == ModelFileFormat::Other {
        Ok(None)
    } else {
        match runtime_spec(f, identity_spec(f)) {
            Err(e) => Err(e),
            Ok(m) => Ok(Some(recommend_spec(f, kind_spec(structural_spec(display_spec(f, family_fallback_spec(m))))))),
        }
    }
}

fn owned(s: &str) -> (r: String)
    ensures
        r@ == s@,
{
    string_of(&chars_of(s))
}

fn set(m: &mut Vec<(String, String)>, key: &str, value: String)
    requires
        keys_unique(pair_views(old(m)@)),
    ensures
        keys_unique(pair_views(final(m)@)),
        text_map(final(m)@) == text_map(old(m)@).insert(key@, value@),
{
    text_map_insert(m, owned(key), value);
}

fn get(m: &Vec<(String, String)>, key: &str) -> (r: Option<String>)
    requires
        keys_unique(pair_views(m@)),
    ensures
        opt_text(r) == mget(text_map(m@), key@),
{
    text_map_get(m, key)
}

fn set_family(m: &mut Vec<(String, String)>, f: &str)
    requires
        keys_unique(pair_views(old(m)@)),
    ensures
        keys_unique(pair_views(final(m)@)),
        text_map(final(m)@) == with_family(text_map(old(m)@), f@),
{
    set(m, "family", owned(f));
    let sdxl = is_sdxl_like_family(f);
    proof {
        reveal_strlit("true");
        reveal_strlit("false");
    }
    set(m, "is_sdxl_like", owned(if sdxl { "true" } else { "false" }));
}

fn gguf_keys_unique(meta: GgufArchitectureMeta) -> (r: Vec<(String, String)>)
    ensures
        keys_unique(pair_views(r@)),
        text_map(r@) == crate::text_map::assoc(gguf_fields_spec(meta@)),
{
    let ghost mv = meta@;
    let r = gguf_info_fields(meta);
    proof {
        reveal_strlit("model_kind");
        reveal_strlit("model_kind_source");
        reveal_strlit("architecture");
        reveal_strlit("gguf_architecture");
        assert(pair_views(r@) =~= gguf_fields_spec(mv));
        let v = pair_views(r@);
        assert forall|i: int, j: int| 0 <= i < j < v.len() implies (#[trigger] v[i]).0 != (#[trigger] v[j]).0 by {
            assert(v[i].0.len() != v[j].0.len() || v[i].0[0] != v[j].0[0] || v[i].0[10] != v[j].0[10]);
        }
    }
    r
}

fn ref_strs(v: &Vec<String>) -> (r: Vec<&str>)
    ensures
        str_views(r@) == string_views(v@),
{
    let mut r: Vec<&str> = Vec::new();
    let mut i: usize = 0;
    while i < v.len()
        invariant
            i <= v.len(),
            str_views(r@) == string_views(v@.take(i as int)),
        decreases v.len() - i,
    {
        r.push(v[i].as_str());
        assert(string_views(v@.take(i + 1)) =~= string_views(v@.take(i as int)).push(v@[i as int]@));
        assert(str_views(r@) =~= str_views(r@.drop_last()).push(r@.last()@));
        i += 1;
    }
    assert(v@.take(v.len() as int) =~= v@);
    r
}

fn identity_step(
    filename: &str,
    lora_manager: Option<String>,
    forge: Option<String>,
    stability_matrix: Option<String>,
    hash_lookup: Option<(String, Option<String>)>,
    Ghost(f): Ghost<ModelspecFacts>,
) -> (m: Vec<(String, String)>)
    requires
        f.filename@ == filename@,
        f.lora_manager == lora_manager,
        f.forge == forge,
        f.stability_matrix == stability_matrix,
        f.hash_lookup == hash_lookup,
    ensures
        keys_unique(pair_views(m@)),
        text_map(m@) == identity_spec(f),
{
    let mut m: Vec<(String, String)> = Vec::new();
    assert(pair_views(m@) =~= Seq::<(Seq<char>, Seq<char>)>::empty());
    assert(text_map(m@) =~= Map::<Seq<char>, Seq<char>>::empty());
    set(&mut m, "turbo_model_variant", owned(turbo_model_variant_from_filename(filename)));
    match soft_identity(filename, lora_manager, forge, stability_matrix) {
        SoftIdentity::Anima => set_family(&mut m, "anima"),
        SoftIdentity::BaseModel(b) => set(&mut m, "base_model", b),
        SoftIdentity::Family(fam) => set_family(&mut m, fam),
        SoftIdentity::Unresolved => match hash_lookup {
            Some((h, b)) => {
                set(&mut m, "hash", h);
                match b {
                    Some(bm) => set(&mut m, "base_model", bm),
                    None => {},
                }
            },
            None => {},
        },
    }
    m
}

fn runtime_step(m: &mut Vec<(String, String)>, header: &Option<Result<SafetensorsHeader, String>>, format: ModelFileFormat, Ghost(f): Ghost<ModelspecFacts>) -> (r: Result<(), String>)
    requires
        keys_unique(pair_views(old(m)@)),
        f.header == *header,
        format == model_file_format_spec(f.filename@),
    ensures
        keys_unique(pair_views(final(m)@)),
        match r {
            Ok(()) => runtime_spec(f, text_map(old(m)@)) == Ok::<Map<Seq<char>, Seq<char>>, Seq<char>>(text_map(final(m)@)),
            Err(e) => runtime_spec(f, text_map(old(m)@)) == Err::<Map<Seq<char>, Seq<char>>, Seq<char>>(e@),
        },
{
    let ghost m1 = text_map(m@);
    let sdxl = match get(m, "is_sdxl_like") {
        Some(v) => {
            proof { reveal_strlit("true"); }
            spells(&chars_of(v.as_str()), "true")
        },
        None => false,
    };
    let base = get(m, "base_model");
    let needed = match &base {
        Some(b) => needs_runtime_metadata(format == ModelFileFormat::Safetensors, sdxl, Some(b.as_str())),
        None => needs_runtime_metadata(format == ModelFileFormat::Safetensors, sdxl, None),
    };
    if needed {
        match header {
            Some(Ok(h)) => {
                match safetensors_runtime_fields(&h.metadata, h.has_v_pred) {
                    Some(rt) => text_map_extend(m, rt, false),
                    None => {
                        assert(m1.union_prefer_right(runtime_fields_spec(h.metadata@, h.has_v_pred)) =~= m1);
                    },
                }
            },
            Some(Err(e)) => return Err(e.clone()),
            None => {},
        }
    }
    Ok(())
}

fn fallback_step(m: &mut Vec<(String, String)>)
    requires
        keys_unique(pair_views(old(m)@)),
    ensures
        keys_unique(pair_views(final(m)@)),
        text_map(final(m)@) == family_fallback_spec(text_map(old(m)@)),
{
    if !text_map_contains(m, "family") {
        match get(m, "base_model") {
            Some(b) => set_family(m, model_family_from_base_model(b.as_str())),
            None => set_family(m, "unknown"),
        }
    }
}

fn display_step(
    m: &mut Vec<(String, String)>,
    header: &Option<Result<SafetensorsHeader, String>>,
    gguf: Option<GgufArchitectureMeta>,
    format: ModelFileFormat,
    Ghost(f): Ghost<ModelspecFacts>,
)
    requires
        keys_unique(pair_views(old(m)@)),
        f.header == *header,
        f.gguf == gguf,
        format == model_file_format_spec(f.filename@),
    ensures
        keys_unique(pair_views(final(m)@)),
        text_map(final(m)@) == display_spec(f, text_map(old(m)@)),
{
    let ghost m3 = text_map(m@);
    if format == ModelFileFormat::Safetensors {
        match header {
            Some(Ok(h)) => {
                let shown = match &h.keys {
                    Some(k) => {
                        let refs = ref_strs(k);
                        safetensors_display_fields(&h.metadata, h.has_v_pred, Some(refs.as_slice()))
                    },
                    None => safetensors_display_fields(&h.metadata, h.has_v_pred, None),
                };
                match shown {
                    Some(d) => text_map_extend(m, d, true),
                    None => {
                        assert(display_fields_spec(
                            meta_entry_views(h.metadata@),
                            h.has_v_pred,
                            match h.keys { Some(k) => Some(string_views(k@)), None => None },
                        ).union_prefer_right(m3) =~= m3);
                    },
                }
            },
            _ => {},
        }
    } else {
        match gguf {
            Some(g) => {
                let fields = gguf_keys_unique(g);
                text_map_extend(m, fields, true);
            },
            None => {},
        }
    }
}

fn structural_step(m: &mut Vec<(String, String)>)
    requires
        keys_unique(pair_views(old(m)@)),
    ensures
        keys_unique(pair_views(final(m)@)),
        text_map(final(m)@) == structural_spec(text_map(old(m)@)),
{
    match get(m, "architecture") {
        Some(a) => match family_from_architecture(a.as_str()) {
            Some(st) => {
                let cur = get(m, "family");
                let (ov, mis) = match &cur {
                    Some(c) => structural_override(Some(c.as_str()), st),
                    None => structural_override(None, st),
                };
                if mis {
                    match cur {
                        Some(c) => set(m, "filename_family_mismatch", c),
                        None => {},
                    }
                }
                if ov {
                    set_family(m, st);
                }
            },
            None => {},
        },
        None => {},
    }
}

fn kind_step(m: &mut Vec<(String, String)>)
    requires
        keys_unique(pair_views(old(m)@)),
    ensures
        keys_unique(pair_views(final(m)@)),
        text_map(final(m)@) == kind_spec(text_map(old(m)@)),
{
    let has_kind = text_map_contains(m, "model_kind");
    let fam = get(m, "family");
    let kind = match &fam {
        Some(x) => kind_from_family(has_kind, Some(x.as_str())),
        None => kind_from_family(has_kind, None),
    };
    match kind {
        Some((k, s)) => {
            set(m, "model_kind", owned(k));
            set(m, "model_kind_source", owned(s));
        },
        None => {},
    }
}

fn recommend_step(
    m: &mut Vec<(String, String)>,
    category: &str,
    vaes: &Option<Vec<String>>,
    encoders: &Option<Vec<String>>,
    Ghost(f): Ghost<ModelspecFacts>,
)
    requires
        keys_unique(pair_views(old(m)@)),
        f.category@ == category@,
        f.vaes == *vaes,
        f.encoders == *encoders,
    ensures
        keys_unique(pair_views(final(m)@)),
        text_map(final(m)@) == recommend_spec(f, text_map(old(m)@)),
{
    let mk = get(m, "model_kind");
    let split = match &mk {
        Some(k) => effective_is_split(category, Some(k.as_str())),
        None => effective_is_split(category, None),
    };
    if split {
        let family = match get(m, "family") {
            Some(x) => x,
            None => owned("unknown"),
        };
        match vaes {
            Some(v) => match recommended_vae_from_available("diffusion_models", family.as_str(), v.as_slice()) {
                Some(x) => set(m, "recommended_vae", x),
                None => {},
            },
            None => {},
        }
        match encoders {
            Some(e) => match recommended_clip_from_available("diffusion_models", family.as_str(), e.as_slice()) {
                Some((model, t)) => {
                    match model {
                        Some(x) => set(m, "recommended_clip_model", x),
                        None => {},
                    }
                    set(m, "recommended_clip_type", owned(t));
                },
                None => {},
            },
            None => {},
        }
    }
}

/// Assemble a model file's info from what the caller read.
pub fn modelspec_info(facts: ModelspecFacts) -> (r: Result<Option<Vec<(String, String)>>, String>)
    ensures
        match r {
            Ok(Some(v)) => keys_unique(pair_views(v@))
                && modelspec_info_spec(facts) == Ok::<Option<Map<Seq<char>, Seq<char>>>, Seq<char>>(Some(text_map(v@))),
            Ok(None) => modelspec_info_spec(facts) == Ok::<Option<Map<Seq<char>, Seq<char>>>, Seq<char>>(None),
            Err(e) => modelspec_info_spec(facts) == Err::<Option<Map<Seq<char>, Seq<char>>>, Seq<char>>(e@),
        },
{
    let ghost f = facts;
    let format = model_file_format(facts.filename.as_str());
    if format == ModelFileFormat::Other {
        return Ok(None);
    }
    let ModelspecFacts {
        category, filename, lora_manager, forge, stability_matrix, hash_lookup, header, gguf, vaes, encoders,
    } = facts;
    let mut m = identity_step(filename.as_str(), lora_manager, forge, stability_matrix, hash_lookup, Ghost(f));
    match runtime_step(&mut m, &header, format, Ghost(f)) {
        Ok(()) => {},
        Err(e) => return Err(e),
    }
    fallback_step(&mut m);
    display_step(&mut m, &header, gguf, format, Ghost(f));
    structural_step(&mut m);
    kind_step(&mut m);
    recommend_step(&mut m, category.as_str(), &vaes, &encoders, Ghost(f));
    Ok(Some(m))
}

} // verus!
