//! The decisions behind a model's info panel: which files are read, where
//! the model's family comes from, when the weights' structure overrides it,
//! and when a split model gets companion-file recommendations.
use vstd::prelude::*;
use crate::architecture::class_of_family;
use crate::models::{
    family_from_filename_spec, filename_indicates_anima, model_family_from_filename,
    separate_clip_family, text_indicates_anima_spec,
};
use crate::text::{
    chars_of, copy_range, ends, ends_with, join_chars, join_with, lower_chars, lower_seq, push_str,
    same_chars, spells, starts, starts_with, string_of, trim, trim_chars, views,
};
use crate::paths::{file_stem_of, joined_path, parent_path, path_file_stem, path_join, path_parent};
use crate::text_map::{keys_unique, pair_views, text_map, text_map_contains, text_map_insert};
use crate::sorting::{sort_order, stable_sort_order};
use crate::architecture::{
    architecture_spec, infer_architecture_from_key_names, infer_model_kind_from_key_names,
    model_kind_spec,
};

verus! {

/// The container formats whose metadata the info panel reads.
#[derive(Debug, Clone, Copy, PartialEq, Eq, Structural)]
pub enum ModelFileFormat {
    Safetensors,
    Gguf,
    /// Any other file: there is no metadata to read.
    Other,
}

pub open spec fn model_file_format_spec(filename: Seq<char>) -> ModelFileFormat {
    if ends_with(filename, ".safetensors"@) {
        ModelFileFormat::Safetensors
    } else if ends_with(lower_seq(filename), ".gguf"@) {
        ModelFileFormat::Gguf
    } else {
        ModelFileFormat::Other
    }
}

/// The format of a model file by its name: `.safetensors` exactly, `.gguf`
/// in any ASCII case.
pub fn model_file_format(filename: &str) -> (r: ModelFileFormat)
    ensures
        r == model_file_format_spec(filename@),
{
    let f = chars_of(filename);
    if ends(&f, ".safetensors") {
        ModelFileFormat::Safetensors
    } else {
        let l = lower_chars(&f);
        if ends(&l, ".gguf") {
            ModelFileFormat::Gguf
        } else {
            ModelFileFormat::Other
        }
    }
}

// ---------------------------------------------------------------------------
// Sidecar metadata files
// ---------------------------------------------------------------------------

/// The metadata file other tools leave next to a model: the model's folder
/// joined with its stem and `suffix` (`.metadata.json` for LoRA Manager,
/// `.civitai.info` for Forge, `.cm-info.json` for Stability Matrix).
pub open spec fn sidecar_metadata_path_spec(model_path: Seq<char>, suffix: Seq<char>) -> Option<Seq<char>> {
    match (parent_path(model_path), file_stem_of(model_path)) {
        (Some(dir), Some(stem)) => Some(joined_path(dir, stem + suffix)),
        _ => None,
    }
}

/// Where a model's sidecar metadata file of a tool would be.
pub fn sidecar_metadata_path(model_path: &str, suffix: &str) -> (r: Option<String>)
    ensures
        match r {
            Some(p) => sidecar_metadata_path_spec(model_path@, suffix@) == Some(p@),
            None => sidecar_metadata_path_spec(model_path@, suffix@) is None,
        },
{
    let dir = match path_parent(model_path) {
        Some(d) => d,
        None => return None,
    };
    let stem = match path_file_stem(model_path) {
        Some(s) => s,
        None => return None,
    };
    let mut name = chars_of(stem.as_str());
    push_str(&mut name, suffix);
    let name = string_of(&name);
    Some(path_join(dir.as_str(), name.as_str()))
}

/// A text field of a sidecar as shown: trimmed, and absent when blank or
/// when it is, ignoring ASCII case, the tool's placeholder.
pub open spec fn sidecar_text_spec(value: Option<Seq<char>>, placeholder: Option<Seq<char>>) -> Option<Seq<char>> {
    match value {
        None => None,
        Some(v) => {
            let t = trim(v);
            if t.len() == 0 || (placeholder matches Some(p) && lower_seq(t) == lower_seq(p)) {
                None
            } else {
                Some(t)
            }
        },
    }
}

/// A sidecar's text field, cleaned as the info panel shows it.
pub fn sidecar_text(value: Option<&str>, placeholder: Option<&str>) -> (r: Option<String>)
    ensures
        opt_text(r) == sidecar_text_spec(
            match value { Some(v) => Some(v@), None => None },
            match placeholder { Some(p) => Some(p@), None => None },
        ),
{
    let v = match value {
        Some(v) => v,
        None => return None,
    };
    let t = trim_chars(&chars_of(v));
    if t.len() == 0 {
        return None;
    }
    match placeholder {
        Some(p) => {
            if same_chars(&lower_chars(&t), &lower_chars(&chars_of(p))) {
                return None;
            }
        },
        None => {},
    }
    Some(string_of(&t))
}

/// The base model a LoRA Manager sidecar names: its own `base_model`, else
/// its CivitAI block's; `unknown` counts as none.
pub fn lora_manager_base_model(own: Option<&str>, civitai: Option<&str>) -> (r: Option<String>)
    ensures
        opt_text(r) == match sidecar_text_spec(match own { Some(v) => Some(v@), None => None }, Some("unknown"@)) {
            Some(t) => Some(t),
            None => sidecar_text_spec(match civitai { Some(v) => Some(v@), None => None }, Some("unknown"@)),
        },
{
    match sidecar_text(own, Some("unknown")) {
        Some(t) => Some(t),
        None => sidecar_text(civitai, Some("unknown")),
    }
}

/// Where a model's family is first taken from, before its weights are
/// looked at.
#[derive(Debug, PartialEq, Eq)]
pub enum SoftIdentity {
    /// Anima fine-tunes ship without metadata; their file name decides.
    Anima,
    /// A CivitAI base model from a sidecar file.
    BaseModel(String),
    /// A family suggested by the file name.
    Family(&'static str),
    /// Nothing names the family: the file's hash is looked up on CivitAI.
    Unresolved,
}

pub open spec fn soft_identity_view(s: SoftIdentity) -> (int, Seq<char>) {
    match s {
        SoftIdentity::Anima => (0, Seq::<char>::empty()),
        SoftIdentity::BaseModel(b) => (1, b@),
        SoftIdentity::Family(f) => (2, f@),
        SoftIdentity::Unresolved => (3, Seq::<char>::empty()),
    }
}

/// The first source that names the model: an Anima file name, then the
/// `baseModel` of the LoRA Manager, Forge and Stability Matrix sidecars in
/// that order, then the family the file name suggests.
pub open spec fn soft_identity_spec(
    filename: Seq<char>,
    lora_manager: Option<Seq<char>>,
    forge: Option<Seq<char>>,
    stability_matrix: Option<Seq<char>>,
) -> (int, Seq<char>) {
    if text_indicates_anima_spec(filename) {
        (0, Seq::<char>::empty())
    } else if lora_manager is Some {
        (1, lora_manager->0)
    } else if forge is Some {
        (1, forge->0)
    } else if stability_matrix is Some {
        (1, stability_matrix->0)
    } else {
        match family_from_filename_spec(filename) {
            Some(f) => (2, f),
            None => (3, Seq::<char>::empty()),
        }
    }
}

pub open spec fn opt_text(o: Option<String>) -> Option<Seq<char>> {
    match o {
        Some(s) => Some(s@),
        None => None,
    }
}

/// Decide where the family comes from, given the `baseModel` each sidecar
/// holds (`None` when it has none or is absent).
pub fn soft_identity(
    filename: &str,
    lora_manager: Option<String>,
    forge: Option<String>,
    stability_matrix: Option<String>,
) -> (r: SoftIdentity)
    ensures
        soft_identity_view(r) == soft_identity_spec(
            filename@,
            opt_text(lora_manager),
            opt_text(forge),
            opt_text(stability_matrix),
        ),
{
    if filename_indicates_anima(filename) {
        return SoftIdentity::Anima;
    }
    match lora_manager {
        Some(b) => return SoftIdentity::BaseModel(b),
        None => {},
    }
    match forge {
        Some(b) => return SoftIdentity::BaseModel(b),
        None => {},
    }
    match stability_matrix {
        Some(b) => return SoftIdentity::BaseModel(b),
        None => {},
    }
    match model_family_from_filename(filename) {
        Some(f) => SoftIdentity::Family(f),
        None => SoftIdentity::Unresolved,
    }
}

// ---------------------------------------------------------------------------
// Structure against name
// ---------------------------------------------------------------------------

/// Whether the family the weights prove replaces the family found so far,
/// and whether that is a mismatch worth recording. Anima always wins (a
/// wrong guess is unrunnable); an unknown family is filled in; otherwise
/// only a different known structural class overrides.
pub open spec fn structural_override_spec(current: Option<Seq<char>>, structural: Seq<char>) -> (bool, bool) {
    if structural == "anima"@ {
        (true, match current {
            Some(f) => f != "unknown"@ && f != structural,
            None => false,
        })
    } else {
        match current {
            None => (true, false),
            Some(soft) => if soft == "unknown"@ {
                (true, false)
            } else {
                match (class_of_family(soft), class_of_family(structural)) {
                    (Some(sc), Some(tc)) => if sc != tc { (true, true) } else { (false, false) },
                    _ => (false, false),
                }
            },
        }
    }
}

/// Decide whether the structural family replaces the current one.
pub fn structural_override(current: Option<&str>, structural: &str) -> (r: (bool, bool))
    ensures
        r == structural_override_spec(match current {
            Some(c) => Some(c@),
            None => None,
        }, structural@),
{
    let s = chars_of(structural);
    if spells(&s, "anima") {
        let mismatch = match current {
            Some(f) => {
                let fc = chars_of(f);
                !spells(&fc, "unknown") && !crate::text::same_chars(&fc, &s)
            },
            None => false,
        };
        return (true, mismatch);
    }
    let soft = match current {
        None => return (true, false),
        Some(c) => c,
    };
    let sc = chars_of(soft);
    if spells(&sc, "unknown") {
        return (true, false);
    }
    match (crate::architecture::architecture_class(soft), crate::architecture::architecture_class(structural)) {
        (Some(a), Some(b)) => {
            let ac = chars_of(a);
            let bc = chars_of(b);
            if !crate::text::same_chars(&ac, &bc) {
                (true, true)
            } else {
                (false, false)
            }
        },
        _ => (false, false),
    }
}

/// A structural result never replaces a compatible sub-family (same class)
/// or a family it cannot classify, never records a mismatch without
/// overriding, and always fills in a family that is still unknown.
pub proof fn structure_refines_but_never_downgrades(current: Seq<char>, structural: Seq<char>)
    ensures
        structural_override_spec(Some(current), structural).1 ==> structural_override_spec(Some(current), structural).0,
        structural != "anima"@ && class_of_family(current) is Some && class_of_family(current) == class_of_family(structural)
            && current != "unknown"@ ==> !structural_override_spec(Some(current), structural).0,
        structural != "anima"@ && class_of_family(current) is None && current != "unknown"@
            ==> !structural_override_spec(Some(current), structural).0,
        structural_override_spec(Some("unknown"@), structural).0,
        structural_override_spec(None, structural).0,
{
}

// ---------------------------------------------------------------------------
// Kind and recommendations
// ---------------------------------------------------------------------------

/// When the weights proved no kind, a family that never ships as a full
/// checkpoint makes the file a diffusion model (`model_kind`,
/// `model_kind_source`).
pub open spec fn kind_from_family_spec(has_kind: bool, family: Option<Seq<char>>) -> Option<(Seq<char>, Seq<char>)> {
    if has_kind {
        None
    } else {
        match family {
            Some(f) => if separate_clip_family(f) { Some(("diffusion_model"@, "family"@)) } else { None },
            None => None,
        }
    }
}

pub fn kind_from_family(has_kind: bool, family: Option<&str>) -> (r: Option<(&'static str, &'static str)>)
    ensures
        match r {
            Some((k, s)) => kind_from_family_spec(has_kind, match family {
                Some(f) => Some(f@),
                None => None,
            }) == Some((k@, s@)),
            None => kind_from_family_spec(has_kind, match family {
                Some(f) => Some(f@),
                None => None,
            }) is None,
        },
{
    if has_kind {
        return None;
    }
    match family {
        Some(f) => if crate::models::family_requires_separate_clip(f) {
            Some(("diffusion_model", "family"))
        } else {
            None
        },
        None => None,
    }
}

/// Companion-file recommendations are made for a model that loads as a
/// split model: anything in `diffusion_models/`, and a `checkpoints/` file
/// whose weights make it a bare diffusion model.
pub open spec fn split_model_spec(category: Seq<char>, model_kind: Option<Seq<char>>) -> bool {
    (category == "checkpoints"@ || category == "diffusion_models"@)
        && (category == "diffusion_models"@ || model_kind == Some("diffusion_model"@))
}

pub fn effective_is_split(category: &str, model_kind: Option<&str>) -> (r: bool)
    ensures
        r == split_model_spec(category@, match model_kind {
            Some(k) => Some(k@),
            None => None,
        }),
{
    let c = chars_of(category);
    let known = spells(&c, "checkpoints") || spells(&c, "diffusion_models");
    let diffusion_kind = match model_kind {
        Some(k) => {
            let kc = chars_of(k);
            spells(&kc, "diffusion_model")
        },
        None => false,
    };
    known && (spells(&c, "diffusion_models") || diffusion_kind)
}

/// SDXL-like safetensors models also carry runtime metadata worth reading:
/// when the family found so far is SDXL-like, or the base model maps to an
/// SDXL-like family.
pub open spec fn needs_runtime_metadata_spec(is_safetensors: bool, sdxl_like: bool, base_model: Option<Seq<char>>) -> bool {
    is_safetensors && (sdxl_like || match base_model {
        Some(b) => crate::models::sdxl_like_family(crate::models::family_from_base_model_spec(b)),
        None => false,
    })
}

pub fn needs_runtime_metadata(is_safetensors: bool, sdxl_like: bool, base_model: Option<&str>) -> (r: bool)
    ensures
        r == needs_runtime_metadata_spec(is_safetensors, sdxl_like, match base_model {
            Some(b) => Some(b@),
            None => None,
        }),
{
    if !is_safetensors {
        return false;
    }
    if sdxl_like {
        return true;
    }
    match base_model {
        Some(b) => crate::models::is_sdxl_like_family(crate::models::model_family_from_base_model(b)),
        None => false,
    }
}

// ---------------------------------------------------------------------------
// Safetensors header
// ---------------------------------------------------------------------------

/// The largest JSON header of a safetensors file the app reads (100 MiB).
pub const MAX_SAFETENSORS_HEADER: u64 = 104857600;

/// The length of a safetensors file's JSON header, from the file's first
/// eight bytes (a little-endian integer); refused beyond 100 MiB.
pub fn safetensors_header_len(prefix: [u8; 8]) -> (r: Result<u64, String>)
    ensures
        match r {
            Ok(n) => n == crate::gguf::le_u64(prefix@, 0) && n <= MAX_SAFETENSORS_HEADER,
            Err(e) => crate::gguf::le_u64(prefix@, 0) > MAX_SAFETENSORS_HEADER
                && e@ == "Safetensors header too large"@,
        },
{
    let n = match crate::gguf::read_u64_le(&prefix, 0) {
        Ok((v, _)) => v,
        Err(_) => 0,
    };
    if n > MAX_SAFETENSORS_HEADER {
        Err(string_of(&chars_of("Safetensors header too large")))
    } else {
        Ok(n)
    }
}

/// The longest metadata value kept for display (4 MiB of UTF-8).
pub const MAX_METADATA_VALUE_BYTES: usize = 4194304;

/// A `__metadata__` value as the caller read it from the JSON header.
pub enum MetaValue {
    /// JSON `null`.
    Null,
    /// A JSON string, unquoted.
    Text(String),
    /// Any other JSON value (a number, a bool, ...), as JSON text.
    Other(String),
}

/// A metadata value in full: `(0, "")` for null, `(1, text)` for a string,
/// `(2, json)` for any other value.
pub open spec fn meta_view(v: MetaValue) -> (int, Seq<char>) {
    match v {
        MetaValue::Null => (0, Seq::<char>::empty()),
        MetaValue::Text(s) => (1, s@),
        MetaValue::Other(s) => (2, s@),
    }
}

pub open spec fn meta_views(v: Seq<(String, MetaValue)>) -> Seq<(Seq<char>, (int, Seq<char>))> {
    v.map_values(|e: (String, MetaValue)| (e.0@, meta_view(e.1)))
}

/// A top-level value of a JSON document: an object (its entries, each read
/// as a metadata value) or any other value.
pub enum HeaderValue {
    Object(Vec<(String, MetaValue)>),
    Other(MetaValue),
}

/// A JSON document read two levels deep: an object with its top-level
/// entries in map order, or any other JSON value.
pub enum HeaderDoc {
    Object(Vec<(String, HeaderValue)>),
    NotObject,
}

pub open spec fn header_value_view(v: HeaderValue) -> (bool, Seq<(Seq<char>, (int, Seq<char>))>, (int, Seq<char>)) {
    match v {
        HeaderValue::Object(m) => (true, meta_views(m@), (0, Seq::<char>::empty())),
        HeaderValue::Other(x) => (false, Seq::empty(), meta_view(x)),
    }
}

pub open spec fn header_doc_view(d: HeaderDoc) -> Option<Seq<(Seq<char>, (bool, Seq<(Seq<char>, (int, Seq<char>))>, (int, Seq<char>)))>> {
    match d {
        HeaderDoc::Object(es) => Some(es@.map_values(|e: (String, HeaderValue)| (e.0@, header_value_view(e.1)))),
        HeaderDoc::NotObject => None,
    }
}

/// What `serde_json::from_slice::<serde_json::Value>` makes of a JSON text's
/// bytes (a safetensors header, a sidecar file, a WebSocket frame), read
/// two levels deep: the top-level object's entries (each an
/// object of values or a single value; a value is null, a string, or the
/// JSON text of anything else), `None` for a document that is no object, or
/// the parse error's message.
pub uninterp spec fn json_header_doc(bytes: Seq<u8>) -> Result<
    Option<Seq<(Seq<char>, (bool, Seq<(Seq<char>, (int, Seq<char>))>, (int, Seq<char>)))>>,
    Seq<char>,
>;

#[verifier::external_type_specification]
#[verifier::external_body]
pub struct ExJsonValue(serde_json::Value);

/// `serde_json::from_slice::<serde_json::Value>`, converted to the header
/// types above, or the error's message. The contract claims only that the
/// outcome is the name above applied to the bytes.
#[verifier::external_body]
pub(crate) fn json_header(bytes: &[u8]) -> (r: Result<HeaderDoc, String>)
    ensures
        match r {
            Ok(d) => json_header_doc(bytes@) == Ok::<_, Seq<char>>(header_doc_view(d)),
            Err(e) => json_header_doc(bytes@) == Err::<Option<Seq<(Seq<char>, (bool, Seq<(Seq<char>, (int, Seq<char>))>, (int, Seq<char>)))>>, Seq<char>>(e@),
        },
{
    match serde_json::from_slice::<serde_json::Value>(bytes) {
        Ok(v) => Ok(header_doc_of(v)),
        Err(e) => Err(e.to_string()),
    }
}

/// A parsed `serde_json::Value` as a header document: one arm per variant,
/// fields moved.
#[verifier::external_body]
fn header_doc_of(v: serde_json::Value) -> HeaderDoc {
    match v {
        serde_json::Value::Object(m) => HeaderDoc::Object(m.into_iter().map(|(k, x)| (k, header_value_of(x))).collect()),
        _ => HeaderDoc::NotObject,
    }
}

/// A top-level `serde_json::Value` as a header value: one arm per variant.
#[verifier::external_body]
fn header_value_of(v: serde_json::Value) -> HeaderValue {
    match v {
        serde_json::Value::Object(m) => HeaderValue::Object(m.into_iter().map(|(k, x)| (k, meta_value_of(x))).collect()),
        other => HeaderValue::Other(meta_value_of(other)),
    }
}

/// A `serde_json::Value` as a metadata value: null, a string, or the JSON
/// text (`Value::to_string`) of anything else.
#[verifier::external_body]
fn meta_value_of(v: serde_json::Value) -> MetaValue {
    match v {
        serde_json::Value::Null => MetaValue::Null,
        serde_json::Value::String(s) => MetaValue::Text(s),
        other => MetaValue::Other(other.to_string()),
    }
}

/// What a safetensors header holds for the info panel.
pub struct SafetensorsHeader {
    /// The `__metadata__` entries, in map order (none when it is absent or
    /// no object).
    pub metadata: Vec<(String, MetaValue)>,
    /// Whether the header has a top-level `v_pred` key.
    pub has_v_pred: bool,
    /// The top-level key names, when the header is an object.
    pub keys: Option<Vec<String>>,
}

/// The `__metadata__` entries of a header's top-level entries.
pub open spec fn first_metadata(es: Seq<(Seq<char>, (bool, Seq<(Seq<char>, (int, Seq<char>))>, (int, Seq<char>)))>) -> Seq<(Seq<char>, (int, Seq<char>))>
    decreases es.len(),
{
    if es.len() == 0 {
        Seq::empty()
    } else if es[0].0 == "__metadata__"@ {
        if es[0].1.0 { es[0].1.1 } else { Seq::empty() }
    } else {
        first_metadata(es.drop_first())
    }
}

/// A safetensors header's bytes read: its metadata, whether it has a
/// `v_pred` key, and its key names, or why the JSON did not parse.
pub open spec fn safetensors_header_spec(bytes: Seq<u8>) -> Result<(Seq<(Seq<char>, (int, Seq<char>))>, bool, Option<Seq<Seq<char>>>), Seq<char>> {
    match json_header_doc(bytes) {
        Err(e) => Err(e),
        Ok(None) => Ok((Seq::empty(), false, None)),
        Ok(Some(es)) => Ok((
            first_metadata(es),
            exists|i: int| 0 <= i < es.len() && #[trigger] es[i].0 == "v_pred"@,
            Some(es.map_values(|e: (Seq<char>, (bool, Seq<(Seq<char>, (int, Seq<char>))>, (int, Seq<char>)))| e.0)),
        )),
    }
}

pub open spec fn safetensors_header_view(h: SafetensorsHeader) -> (Seq<(Seq<char>, (int, Seq<char>))>, bool, Option<Seq<Seq<char>>>) {
    (meta_views(h.metadata@), h.has_v_pred, match h.keys { Some(k) => Some(crate::text::string_views(k@)), None => None })
}

/// Parse the JSON header of a safetensors file (the bytes after its length
/// prefix).
pub fn parse_safetensors_header(header: &[u8]) -> (r: Result<SafetensorsHeader, String>)
    ensures
        match r {
            Ok(h) => safetensors_header_spec(header@) == Ok::<_, Seq<char>>(safetensors_header_view(h)),
            Err(e) => safetensors_header_spec(header@) == Err::<(Seq<(Seq<char>, (int, Seq<char>))>, bool, Option<Seq<Seq<char>>>), Seq<char>>(e@),
        },
{
    let doc = match json_header(header) {
        Ok(d) => d,
        Err(e) => return Err(e),
    };
    let entries = match doc {
        HeaderDoc::NotObject => {
            let h = SafetensorsHeader { metadata: Vec::new(), has_v_pred: false, keys: None };
            assert(meta_views(h.metadata@) =~= Seq::empty());
            return Ok(h);
        },
        HeaderDoc::Object(es) => es,
    };
    let ghost ev = entries@.map_values(|e: (String, HeaderValue)| (e.0@, header_value_view(e.1)));
    let ghost n = entries.len();
    let mut rest = entries;
    let mut keys: Vec<String> = Vec::new();
    let mut has_v_pred = false;
    let mut metadata: Option<Vec<(String, MetaValue)>> = None;
    assert(ev.skip(0) =~= ev);
    assert(ev.take(0).map_values(|e: (Seq<char>, (bool, Seq<(Seq<char>, (int, Seq<char>))>, (int, Seq<char>)))| e.0) =~= Seq::<Seq<char>>::empty());
    assert(crate::text::string_views(keys@) =~= Seq::<Seq<char>>::empty());
    while rest.len() > 0
        invariant
            keys.len() + rest.len() == n,
            ev.len() == n,
            forall|j: int| 0 <= j < rest.len() ==> (rest@[j].0@, header_value_view(rest@[j].1)) == #[trigger] ev[keys.len() + j],
            crate::text::string_views(keys@) == ev.take(keys.len() as int).map_values(|e: (Seq<char>, (bool, Seq<(Seq<char>, (int, Seq<char>))>, (int, Seq<char>)))| e.0),
            has_v_pred <==> exists|i: int| 0 <= i < keys.len() && #[trigger] ev[i].0 == "v_pred"@,
            match metadata {
                Some(m) => meta_views(m@) == first_metadata(ev),
                None => first_metadata(ev) == first_metadata(ev.skip(keys.len() as int)),
            },
        decreases rest.len(),
    {
        let k0 = keys.len();
        let ghost before_rest = rest@;
        let (k, v) = rest.remove(0);
        assert(forall|j: int| 0 <= j < rest.len() ==> rest@[j] == before_rest[j + 1]);
        assert((k@, header_value_view(v)) == ev[k0 as int]);
        let kc = chars_of(k.as_str());
        let is_vpred = spells(&kc, "v_pred");
        let is_meta = spells(&kc, "__metadata__");
        proof {
            reveal_strlit("v_pred");
            reveal_strlit("__metadata__");
            assert(ev.skip(k0 as int).drop_first() =~= ev.skip(k0 + 1));
            assert(ev.skip(k0 as int)[0] == ev[k0 as int]);
        }
        if is_vpred {
            has_v_pred = true;
        }
        if metadata.is_none() && is_meta {
            match v {
                HeaderValue::Object(m) => {
                    metadata = Some(m);
                },
                HeaderValue::Other(_) => {
                    let empty: Vec<(String, MetaValue)> = Vec::new();
                    assert(meta_views(empty@) =~= Seq::empty());
                    metadata = Some(empty);
                },
            }
        }
        let ghost kb = keys@;
        keys.push(k.clone());
        assert(ev.take(k0 + 1) =~= ev.take(k0 as int).push(ev[k0 as int]));
        assert(crate::text::string_views(keys@) =~= crate::text::string_views(kb).push(k@));
        proof {
            if has_v_pred && !(exists|i: int| 0 <= i < k0 && #[trigger] ev[i].0 == "v_pred"@) {
                assert(ev[k0 as int].0 == "v_pred"@);
            }
            assert forall|j: int| 0 <= j < rest.len() implies (rest@[j].0@, header_value_view(rest@[j].1)) == #[trigger] ev[keys.len() + j] by {
                assert(rest@[j] == before_rest[j + 1]);
                assert((before_rest[j + 1].0@, header_value_view(before_rest[j + 1].1)) == ev[k0 + (j + 1)]);
            }
        }
    }
    assert(ev.take(n as int) =~= ev);
    let metadata = match metadata {
        Some(m) => m,
        None => {
            let empty: Vec<(String, MetaValue)> = Vec::new();
            assert(ev.skip(n as int) =~= Seq::empty());
            assert(meta_views(empty@) =~= Seq::empty());
            empty
        },
    };
    Ok(SafetensorsHeader { metadata, has_v_pred, keys: Some(keys) })
}

// ---------------------------------------------------------------------------
// Reading a JSON document two levels deep
// ---------------------------------------------------------------------------

/// A parsed document's top-level entries, two levels deep (see
/// `json_header_doc`).
pub open spec fn doc_entries(es: Seq<(String, HeaderValue)>) -> Seq<(Seq<char>, (bool, Seq<(Seq<char>, (int, Seq<char>))>, (int, Seq<char>)))> {
    es.map_values(|e: (String, HeaderValue)| (e.0@, header_value_view(e.1)))
}

/// The value of the first entry with key `key` (a JSON object's `get`).
pub open spec fn entry_of<V>(es: Seq<(Seq<char>, V)>, key: Seq<char>) -> Option<V>
    decreases es.len(),
{
    if es.len() == 0 {
        None
    } else if es[0].0 == key {
        Some(es[0].1)
    } else {
        entry_of(es.drop_first(), key)
    }
}

/// The string a top-level key holds (`doc.get(key).and_then(as_str)`).
pub open spec fn doc_str(
    doc: Option<Seq<(Seq<char>, (bool, Seq<(Seq<char>, (int, Seq<char>))>, (int, Seq<char>)))>>,
    key: Seq<char>,
) -> Option<Seq<char>> {
    match doc {
        None => None,
        Some(es) => match entry_of(es, key) {
            Some(v) => if !v.0 && v.2.0 == 1 { Some(v.2.1) } else { None },
            None => None,
        },
    }
}

/// The string `doc[key][sub]` holds (`doc.get(key).and_then(|v|
/// v.get(sub)).and_then(as_str)`).
pub open spec fn doc_nested_str(
    doc: Option<Seq<(Seq<char>, (bool, Seq<(Seq<char>, (int, Seq<char>))>, (int, Seq<char>)))>>,
    key: Seq<char>,
    sub: Seq<char>,
) -> Option<Seq<char>> {
    match doc {
        None => None,
        Some(es) => match entry_of(es, key) {
            Some(v) => if v.0 {
                match entry_of(v.1, sub) {
                    Some(x) => if x.0 == 1 { Some(x.1) } else { None },
                    None => None,
                }
            } else {
                None
            },
            None => None,
        },
    }
}

/// Whether `doc[key][sub]` is JSON null, absent entries and non-objects
/// reading as null (`doc[key][sub].is_null()`).
pub open spec fn doc_nested_null(
    doc: Option<Seq<(Seq<char>, (bool, Seq<(Seq<char>, (int, Seq<char>))>, (int, Seq<char>)))>>,
    key: Seq<char>,
    sub: Seq<char>,
) -> bool {
    match doc {
        None => true,
        Some(es) => match entry_of(es, key) {
            Some(v) => if v.0 {
                match entry_of(v.1, sub) {
                    Some(x) => x.0 == 0,
                    None => true,
                }
            } else {
                true
            },
            None => true,
        },
    }
}

fn find_doc_entry(es: &Vec<(String, HeaderValue)>, key: &str) -> (r: Option<usize>)
    ensures
        match r {
            Some(i) => i < es.len() && entry_of(doc_entries(es@), key@) == Some(header_value_view(es@[i as int].1)),
            None => entry_of(doc_entries(es@), key@) is None,
        },
{
    let ghost ev = doc_entries(es@);
    let mut i: usize = 0;
    assert(ev.skip(0) =~= ev);
    while i < es.len()
        invariant
            i <= es.len(),
            ev == doc_entries(es@),
            entry_of(ev, key@) == entry_of(ev.skip(i as int), key@),
        decreases es.len() - i,
    {
        assert(ev.skip(i as int)[0] == ev[i as int]);
        assert(ev.skip(i as int).drop_first() =~= ev.skip(i + 1));
        if spells(&chars_of(es[i].0.as_str()), key) {
            return Some(i);
        }
        i += 1;
    }
    assert(ev.skip(es.len() as int).len() == 0);
    None
}

fn find_meta_entry(es: &Vec<(String, MetaValue)>, key: &str) -> (r: Option<usize>)
    ensures
        match r {
            Some(i) => i < es.len() && entry_of(meta_views(es@), key@) == Some(meta_view(es@[i as int].1)),
            None => entry_of(meta_views(es@), key@) is None,
        },
{
    let ghost ev = meta_views(es@);
    let mut i: usize = 0;
    assert(ev.skip(0) =~= ev);
    while i < es.len()
        invariant
            i <= es.len(),
            ev == meta_views(es@),
            entry_of(ev, key@) == entry_of(ev.skip(i as int), key@),
        decreases es.len() - i,
    {
        assert(ev.skip(i as int)[0] == ev[i as int]);
        assert(ev.skip(i as int).drop_first() =~= ev.skip(i + 1));
        if spells(&chars_of(es[i].0.as_str()), key) {
            return Some(i);
        }
        i += 1;
    }
    assert(ev.skip(es.len() as int).len() == 0);
    None
}

/// The string a top-level key of a parsed document holds.
pub(crate) fn doc_str_of(es: &Vec<(String, HeaderValue)>, key: &str) -> (r: Option<String>)
    ensures
        opt_text(r) == doc_str(Some(doc_entries(es@)), key@),
{
    match find_doc_entry(es, key) {
        Some(i) => match &es[i].1 {
            HeaderValue::Other(MetaValue::Text(t)) => Some(t.clone()),
            _ => None,
        },
        None => None,
    }
}

/// The string `doc[key][sub]` holds in a parsed document.
pub(crate) fn doc_nested_str_of(es: &Vec<(String, HeaderValue)>, key: &str, sub: &str) -> (r: Option<String>)
    ensures
        opt_text(r) == doc_nested_str(Some(doc_entries(es@)), key@, sub@),
{
    match find_doc_entry(es, key) {
        Some(i) => match &es[i].1 {
            HeaderValue::Object(m) => match find_meta_entry(m, sub) {
                Some(j) => match &m[j].1 {
                    MetaValue::Text(t) => Some(t.clone()),
                    _ => None,
                },
                None => None,
            },
            _ => None,
        },
        None => None,
    }
}

/// Whether `doc[key][sub]` is null in a parsed document.
pub(crate) fn doc_nested_null_of(es: &Vec<(String, HeaderValue)>, key: &str, sub: &str) -> (r: bool)
    ensures
        r == doc_nested_null(Some(doc_entries(es@)), key@, sub@),
{
    match find_doc_entry(es, key) {
        Some(i) => match &es[i].1 {
            HeaderValue::Object(m) => match find_meta_entry(m, sub) {
                Some(j) => match &m[j].1 {
                    MetaValue::Null => true,
                    _ => false,
                },
                None => true,
            },
            _ => true,
        },
        None => true,
    }
}

// ---------------------------------------------------------------------------
// Sidecar metadata files
// ---------------------------------------------------------------------------

/// The sidecar metadata files a model's base model is read from.
#[derive(Debug, Clone, Copy, PartialEq, Eq, Structural)]
pub enum SidecarKind {
    /// ComfyUI LoRA Manager's `.metadata.json`.
    LoraManager,
    /// Forge's `.civitai.info`.
    Forge,
    /// Stability Matrix's `.cm-info.json`.
    StabilityMatrix,
}

/// The base model a sidecar's text names. LoRA Manager: its `base_model`,
/// else its `civitai.baseModel`, `unknown` counting as none; Forge: its
/// `baseModel`; Stability Matrix: its `BaseModel`, `other` counting as
/// none. Values are trimmed and blank ones are none. A text that is not
/// JSON gives the parse error.
pub open spec fn sidecar_base_model_spec(
    kind: SidecarKind,
    parsed: Result<Option<Seq<(Seq<char>, (bool, Seq<(Seq<char>, (int, Seq<char>))>, (int, Seq<char>)))>>, Seq<char>>,
) -> Result<Option<Seq<char>>, Seq<char>> {
    match parsed {
        Err(e) => Err(e),
        Ok(doc) => Ok(match kind {
            SidecarKind::LoraManager => match sidecar_text_spec(doc_str(doc, "base_model"@), Some("unknown"@)) {
                Some(t) => Some(t),
                None => sidecar_text_spec(doc_nested_str(doc, "civitai"@, "baseModel"@), Some("unknown"@)),
            },
            SidecarKind::Forge => sidecar_text_spec(doc_str(doc, "baseModel"@), None),
            SidecarKind::StabilityMatrix => sidecar_text_spec(doc_str(doc, "BaseModel"@), Some("other"@)),
        }),
    }
}

fn text_ref(o: &Option<String>) -> (r: Option<&str>)
    ensures
        match r {
            Some(v) => o matches Some(s) && v@ == s@,
            None => o is None,
        },
{
    match o {
        Some(s) => Some(s.as_str()),
        None => None,
    }
}

/// The base model named by a sidecar file's text, or why it is no JSON.
pub fn sidecar_base_model(kind: SidecarKind, text: &[u8]) -> (r: Result<Option<String>, String>)
    ensures
        match r {
            Ok(o) => sidecar_base_model_spec(kind, json_header_doc(text@)) == Ok::<Option<Seq<char>>, Seq<char>>(opt_text(o)),
            Err(e) => sidecar_base_model_spec(kind, json_header_doc(text@)) == Err::<Option<Seq<char>>, Seq<char>>(e@),
        },
{
    let doc = match json_header(text) {
        Ok(d) => d,
        Err(e) => return Err(e),
    };
    let es = match doc {
        HeaderDoc::Object(es) => es,
        HeaderDoc::NotObject => return Ok(None),
    };
    let r = match kind {
        SidecarKind::LoraManager => {
            let own = doc_str_of(&es, "base_model");
            match sidecar_text(text_ref(&own), Some("unknown")) {
                Some(t) => Some(t),
                None => {
                    let nested = doc_nested_str_of(&es, "civitai", "baseModel");
                    sidecar_text(text_ref(&nested), Some("unknown"))
                },
            }
        },
        SidecarKind::Forge => {
            let v = doc_str_of(&es, "baseModel");
            sidecar_text(text_ref(&v), None)
        },
        SidecarKind::StabilityMatrix => {
            let v = doc_str_of(&es, "BaseModel");
            sidecar_text(text_ref(&v), Some("other"))
        },
    };
    Ok(r)
}

/// The text a metadata value is displayed with: `null` has none.
pub open spec fn meta_text(v: MetaValue) -> Option<Seq<char>> {
    match v {
        MetaValue::Null => None,
        MetaValue::Text(s) => Some(s@),
        MetaValue::Other(s) => Some(s@),
    }
}

pub open spec fn meta_entry_views(v: Seq<(String, MetaValue)>) -> Seq<(Seq<char>, Option<Seq<char>>)> {
    v.map_values(|e: (String, MetaValue)| (e.0@, meta_text(e.1)))
}

/// One `__metadata__` entry read: `modelspec.*` fields under their bare
/// name (unless longer than 4 MiB), recorded as declared; a plain
/// `prediction_type` when none is set yet; null values skipped.
pub open spec fn meta_step(
    st: (Map<Seq<char>, Seq<char>>, Seq<Seq<char>>),
    e: (Seq<char>, Option<Seq<char>>),
) -> (Map<Seq<char>, Seq<char>>, Seq<Seq<char>>) {
    match e.1 {
        None => st,
        Some(text) => if starts_with(e.0, "modelspec."@) {
            if vstd::utf8::encode_utf8(text).len() > MAX_METADATA_VALUE_BYTES {
                st
            } else {
                (st.0.insert(e.0.skip(10), text), st.1.push(e.0.skip(10)))
            }
        } else if e.0 == "prediction_type"@ && !st.0.dom().contains("prediction_type"@) {
            (st.0.insert("prediction_type"@, text), st.1)
        } else {
            st
        },
    }
}

pub open spec fn meta_fold(es: Seq<(Seq<char>, Option<Seq<char>>)>) -> (Map<Seq<char>, Seq<char>>, Seq<Seq<char>>)
    decreases es.len(),
{
    if es.len() == 0 {
        (Map::<Seq<char>, Seq<char>>::empty(), Seq::<Seq<char>>::empty())
    } else {
        meta_step(meta_fold(es.drop_last()), es.last())
    }
}

/// Texts in sorted order, joined with commas.
pub open spec fn sorted_joined(d: Seq<Seq<char>>) -> Seq<char> {
    join_with(sort_order(d).map_values(|i: int| d[i]), ","@)
}

/// The display fields of a safetensors header: the ModelSpec fields and the
/// sorted list of their names, whether the header flags v-prediction, and,
/// from the tensor names, an architecture (when none is declared) and the
/// kind of weights.
pub open spec fn display_fields_spec(
    metadata: Seq<(Seq<char>, Option<Seq<char>>)>,
    has_v_pred: bool,
    header_keys: Option<Seq<Seq<char>>>,
) -> Map<Seq<char>, Seq<char>> {
    let st = meta_fold(metadata);
    let m1 = if st.1.len() > 0 { st.0.insert("modelspec_keys"@, sorted_joined(st.1)) } else { st.0 };
    let m2 = if has_v_pred { m1.insert("header_v_pred"@, "true"@) } else { m1 };
    match header_keys {
        None => m2,
        Some(names) => {
            let m3 = if !m2.dom().contains("architecture"@) {
                match architecture_spec(names) {
                    Some(a) => m2.insert("architecture"@, a).insert("architecture_inferred"@, "true"@),
                    None => m2,
                }
            } else {
                m2
            };
            match model_kind_spec(names) {
                Some(k) => m3.insert("model_kind"@, k).insert("model_kind_source"@, "tensor_keys"@),
                None => m3,
            }
        },
    }
}

fn owned(s: &str) -> (r: String)
    ensures
        r@ == s@,
{
    string_of(&chars_of(s))
}

/// The display fields of a parsed safetensors header, from its
/// `__metadata__` entries in map order,
/// whether it has a `v_pred` key, and its top-level key names (`None` when
/// the header is not a JSON object). `None` when nothing was found.
pub fn safetensors_display_fields(
    metadata: &Vec<(String, MetaValue)>,
    has_v_pred: bool,
    header_keys: Option<&[&str]>,
) -> (r: Option<Vec<(String, String)>>)
    ensures
        match r {
            Some(v) => {
                &&& keys_unique(pair_views(v@))
                &&& text_map(v@) == display_fields_spec(
                    meta_entry_views(metadata@),
                    has_v_pred,
                    match header_keys { Some(k) => Some(crate::text::str_views(k@)), None => None },
                )
                &&& text_map(v@).dom() != Set::<Seq<char>>::empty()
            },
            None => display_fields_spec(
                meta_entry_views(metadata@),
                has_v_pred,
                match header_keys { Some(k) => Some(crate::text::str_views(k@)), None => None },
            ).dom() == Set::<Seq<char>>::empty(),
        },
{
    let ghost ev = meta_entry_views(metadata@);
    let mut m: Vec<(String, String)> = Vec::new();
    let mut declared: Vec<Vec<char>> = Vec::new();
    let mut i: usize = 0;
    assert(pair_views(m@) =~= Seq::<(Seq<char>, Seq<char>)>::empty());
    while i < metadata.len()
        invariant
            i <= metadata.len(),
            ev == meta_entry_views(metadata@),
            keys_unique(pair_views(m@)),
            text_map(m@) == meta_fold(ev.take(i as int)).0,
            views(declared@) == meta_fold(ev.take(i as int)).1,
        decreases metadata.len() - i,
    {
        assert(ev.take(i + 1).drop_last() =~= ev.take(i as int));
        assert(ev[i as int] == (metadata@[i as int].0@, meta_text(metadata@[i as int].1)));
        let key = chars_of(metadata[i].0.as_str());
        let value: Option<&String> = match &metadata[i].1 {
            MetaValue::Null => None,
            MetaValue::Text(t) => Some(t),
            MetaValue::Other(t) => Some(t),
        };
        match value {
            None => {},
            Some(text) => {
                if starts(&key, "modelspec.") {
                    proof { reveal_strlit("modelspec."); }
                    if text.as_str().as_bytes().len() <= MAX_METADATA_VALUE_BYTES {
                        let field = copy_range(&key, 10, key.len());
                        let ghost before = declared@;
                        declared.push(copy_range(&key, 10, key.len()));
                        assert(views(declared@) =~= views(before).push(field@));
                        text_map_insert(&mut m, string_of(&field), text.clone());
                    }
                } else if spells(&key, "prediction_type") && !text_map_contains(&m, "prediction_type") {
                    text_map_insert(&mut m, owned("prediction_type"), text.clone());
                }
            },
        }
        i += 1;
    }
    assert(ev.take(metadata.len() as int) =~= ev);
    if declared.len() > 0 {
        let order = stable_sort_order(&declared);
        let ghost dv = views(declared@);
        let mut sorted: Vec<Vec<char>> = Vec::new();
        let mut k: usize = 0;
        proof {
            crate::sorting::lemma_sort_order_sorted(dv, dv.len() as int);
        }
        while k < order.len()
            invariant
                k <= order.len(),
                dv == views(declared@),
                order@.map_values(|x: usize| x as int) == sort_order(dv),
                order.len() == dv.len(),
                forall|a: int| 0 <= a < sort_order(dv).len() ==> 0 <= #[trigger] sort_order(dv)[a] < dv.len(),
                views(sorted@) == sort_order(dv).take(k as int).map_values(|j: int| dv[j]),
            decreases order.len() - k,
        {
            let idx = order[k];
            assert(sort_order(dv)[k as int] == idx as int);
            let ghost before = sorted@;
            let piece = copy_range(&declared[idx], 0, declared[idx].len());
            assert(piece@ =~= dv[idx as int]);
            sorted.push(piece);
            assert(views(sorted@) =~= views(before).push(piece@));
            assert(views(sorted@) =~= sort_order(dv).take(k + 1).map_values(|j: int| dv[j]));
            k += 1;
        }
        assert(sort_order(dv).take(order.len() as int) =~= sort_order(dv));
        let sep = chars_of(",");
        let joined = join_chars(&sorted, &sep);
        text_map_insert(&mut m, owned("modelspec_keys"), string_of(&joined));
    }
    if has_v_pred {
        text_map_insert(&mut m, owned("header_v_pred"), owned("true"));
    }
    match header_keys {
        None => {},
        Some(names) => {
            if !text_map_contains(&m, "architecture") {
                match infer_architecture_from_key_names(names) {
                    Some(a) => {
                        text_map_insert(&mut m, owned("architecture"), a);
                        text_map_insert(&mut m, owned("architecture_inferred"), owned("true"));
                    },
                    None => {},
                }
            }
            match infer_model_kind_from_key_names(names) {
                Some(kind) => {
                    text_map_insert(&mut m, owned("model_kind"), owned(kind));
                    text_map_insert(&mut m, owned("model_kind_source"), owned("tensor_keys"));
                },
                None => {},
            }
        },
    }
    if m.len() == 0 {
        assert(pair_views(m@) =~= Seq::<(Seq<char>, Seq<char>)>::empty());
        assert(text_map(m@) =~= Map::<Seq<char>, Seq<char>>::empty());
        None
    } else {
        proof {
            crate::text_map::lemma_assoc_value(pair_views(m@), 0);
            assert(text_map(m@).dom().contains(m@[0].0@));
            assert(!Set::<Seq<char>>::empty().contains(m@[0].0@));
        }
        Some(m)
    }
}

/// The first string value stored under `key`, if any.
pub open spec fn meta_string(v: Seq<(String, MetaValue)>, key: Seq<char>) -> Option<Seq<char>>
    decreases v.len(),
{
    if v.len() == 0 {
        None
    } else if v[0].0@ == key {
        match v[0].1 {
            MetaValue::Text(s) => Some(s@),
            _ => None,
        }
    } else {
        meta_string(v.drop_first(), key)
    }
}

/// The string stored under `key`.
fn find_meta_string(v: &Vec<(String, MetaValue)>, key: &str) -> (r: Option<String>)
    ensures
        match r {
            Some(s) => meta_string(v@, key@) == Some(s@),
            None => meta_string(v@, key@) is None,
        },
{
    let k = chars_of(key);
    let mut i: usize = 0;
    assert(v@.skip(0) =~= v@);
    while i < v.len()
        invariant
            i <= v.len(),
            k@ == key@,
            meta_string(v@, key@) == meta_string(v@.skip(i as int), key@),
        decreases v.len() - i,
    {
        assert(v@.skip(i as int).drop_first() =~= v@.skip(i + 1));
        assert(v@.skip(i as int)[0] == v@[i as int]);
        if same_text(&v[i].0, &k) {
            return match &v[i].1 {
                MetaValue::Text(s) => Some(s.clone()),
                _ => None,
            };
        }
        i += 1;
    }
    None
}

fn same_text(s: &String, k: &Vec<char>) -> (r: bool)
    ensures
        r == (s@ == k@),
{
    crate::text::same_chars(&chars_of(s.as_str()), k)
}

/// The fields the generator needs from a safetensors header: the declared
/// prediction type and predict key (string values only), and whether the
/// header flags v-prediction.
pub open spec fn runtime_fields_spec(metadata: Seq<(String, MetaValue)>, has_v_pred: bool) -> Map<Seq<char>, Seq<char>> {
    let m0 = Map::<Seq<char>, Seq<char>>::empty();
    let m1 = match meta_string(metadata, "modelspec.prediction_type"@) {
        Some(t) => m0.insert("prediction_type"@, t),
        None => m0,
    };
    let m2 = match meta_string(metadata, "modelspec.predict_key"@) {
        Some(t) => m1.insert("predict_key"@, t),
        None => m1,
    };
    if has_v_pred { m2.insert("header_v_pred"@, "true"@) } else { m2 }
}

/// The runtime fields of a parsed safetensors header; `None` when there are
/// none.
pub fn safetensors_runtime_fields(metadata: &Vec<(String, MetaValue)>, has_v_pred: bool) -> (r: Option<Vec<(String, String)>>)
    ensures
        match r {
            Some(v) => {
                &&& keys_unique(pair_views(v@))
                &&& text_map(v@) == runtime_fields_spec(metadata@, has_v_pred)
                &&& text_map(v@).dom() != Set::<Seq<char>>::empty()
            },
            None => runtime_fields_spec(metadata@, has_v_pred).dom() == Set::<Seq<char>>::empty(),
        },
{
    let mut m: Vec<(String, String)> = Vec::new();
    assert(pair_views(m@) =~= Seq::<(Seq<char>, Seq<char>)>::empty());
    match find_meta_string(metadata, "modelspec.prediction_type") {
        Some(t) => text_map_insert(&mut m, owned("prediction_type"), t),
        None => {},
    }
    match find_meta_string(metadata, "modelspec.predict_key") {
        Some(t) => text_map_insert(&mut m, owned("predict_key"), t),
        None => {},
    }
    if has_v_pred {
        text_map_insert(&mut m, owned("header_v_pred"), owned("true"));
    }
    if m.len() == 0 {
        assert(pair_views(m@) =~= Seq::<(Seq<char>, Seq<char>)>::empty());
        assert(text_map(m@) =~= Map::<Seq<char>, Seq<char>>::empty());
        None
    } else {
        proof {
            crate::text_map::lemma_assoc_value(pair_views(m@), 0);
            assert(!Set::<Seq<char>>::empty().contains(m@[0].0@));
        }
        Some(m)
    }
}

} // verus!
