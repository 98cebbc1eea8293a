//! Model families: which family a checkpoint belongs to, judged from its
//! CivitAI base model or its file name, and which VAE and text encoder suit
//! a bare diffusion model of that family.
use vstd::prelude::*;
use crate::text::{
    chars_of, has, is_alnum, lowercase_chars, occurs_at, seq_contains, spells, starts,
    starts_with, str_views, string_views, trim, trim_chars, unicode_lower,
};

verus! {

// ---------------------------------------------------------------------------
// Anima fine-tunes
// ---------------------------------------------------------------------------

/// `idx` is the start of the text or follows a non-alphanumeric character.
pub open spec fn boundary_before(text: Seq<char>, idx: int) -> bool {
    idx == 0 || !is_alnum(text[idx - 1])
}

/// `end` is the end of the text or precedes a non-alphanumeric character.
pub open spec fn boundary_after(text: Seq<char>, end: int) -> bool {
    end == text.len() || !is_alnum(text[end])
}

/// Whether, among the non-overlapping occurrences of `marker` found scanning
/// from index `i` (`str::match_indices`), one stands as a whole word. An
/// empty marker occurs at every position, the end included.
pub open spec fn token_scan(text: Seq<char>, marker: Seq<char>, i: int) -> bool
    decreases text.len() + 1 - i,
{
    if i < 0 || i + marker.len() > text.len() {
        false
    } else if occurs_at(text, marker, i) {
        (boundary_before(text, i) && boundary_after(text, i + marker.len()))
            || token_scan(text, marker, i + if marker.len() == 0 { 1 } else { marker.len() as int })
    } else {
        token_scan(text, marker, i + 1)
    }
}

fn marker_token_in(text: &[char], marker: &[char]) -> (r: bool)
    ensures
        r == token_scan(text@, marker@, 0),
{
    let n = text.len();
    let m = marker.len();
    let mut i: usize = 0;
    while i <= n && m <= n - i
        invariant
            n == text.len(),
            m == marker.len(),
            i <= n,
            token_scan(text@, marker@, 0) == token_scan(text@, marker@, i as int),
        decreases n + 1 - i,
    {
        if crate::text::matches_at(text, marker, i) {
            let before = i == 0 || !crate::text::char_is_alnum(text[i - 1]);
            let after = i + m == n || !crate::text::char_is_alnum(text[i + m]);
            if before && after {
                return true;
            }
            if m > 0 {
                i = i + m;
            } else if i == n {
                assert(!token_scan(text@, marker@, i + 1));
                return false;
            } else {
                i = i + 1;
            }
        } else if i == n {
            assert(!token_scan(text@, marker@, i + 1));
            return false;
        } else {
            i = i + 1;
        }
    }
    false
}

/// Whether `marker` occurs in `text` as a whole word (not inside a longer
/// run of ASCII letters and digits).
pub fn text_has_marker_token(text: &str, marker: &str) -> (r: bool)
    ensures
        r == token_scan(text@, marker@, 0),
{
    let t = chars_of(text);
    let m = chars_of(marker);
    marker_token_in(&t, &m)
}

/// Anima / Wan2.1 fine-tunes (such as animayume): `animayume`, or `anima` or
/// `yume` as a word, in the lowercased trimmed text, unless it names a
/// Nanosaur or Mugen model.
pub open spec fn text_indicates_anima_spec(text: Seq<char>) -> bool {
    let name = unicode_lower(trim(text));
    if seq_contains(name, "nanosaur"@) || seq_contains(name, "mugen"@) {
        false
    } else {
        seq_contains(name, "animayume"@) || token_scan(name, "anima"@, 0) || token_scan(name, "yume"@, 0)
    }
}

fn text_indicates_anima_chars(text: &[char]) -> (r: bool)
    ensures
        r == text_indicates_anima_spec(text@),
{
    proof {
        reveal_strlit("anima");
        reveal_strlit("yume");
    }
    let t = trim_chars(text);
    let name = lowercase_chars(&t);
    if has(&name, "nanosaur") || has(&name, "mugen") {
        return false;
    }
    let anima = chars_of("anima");
    let yume = chars_of("yume");
    has(&name, "animayume") || marker_token_in(&name, &anima) || marker_token_in(&name, &yume)
}

pub fn text_indicates_anima(text: &str) -> (r: bool)
    ensures
        r == text_indicates_anima_spec(text@),
{
    let t = chars_of(text);
    text_indicates_anima_chars(&t)
}

pub fn filename_indicates_anima(filename: &str) -> (r: bool)
    ensures
        r == text_indicates_anima_spec(filename@),
{
    text_indicates_anima(filename)
}

// ---------------------------------------------------------------------------
// Families
// ---------------------------------------------------------------------------

/// The family a CivitAI base model name stands for, matched on its trimmed
/// lowercase form; the first rule that applies decides.
pub open spec fn family_from_base_model_spec(base_model: Seq<char>) -> Seq<char> {
    family_from_lowered_base_model_spec(unicode_lower(trim(base_model)))
}

/// The family a trimmed, lowercased CivitAI base model names.
pub open spec fn family_from_lowered_base_model_spec(bm: Seq<char>) -> Seq<char> {
    if bm.len() == 0 {
        "unknown"@
    } else {
        if seq_contains(bm, "nanosaur"@) {
            "nanosaur"@
        } else if bm == "flux.2 klein 9b-base"@ {
            "flux2klein9bbase"@
        } else if bm == "flux.2 klein 9b"@ {
            "flux2klein9b"@
        } else if bm == "flux.2 klein 4b-base"@ {
            "flux2klein4bbase"@
        } else if bm == "flux.2 klein 4b"@ {
            "flux2klein4b"@
        } else if bm == "flux.2 d"@ {
            "flux2d"@
        } else if bm == "flux.1 krea"@ {
            "flux1krea"@
        } else if bm == "flux.1 s"@ {
            "flux1s"@
        } else if bm == "flux.1 d"@ {
            "flux1d"@
        } else if bm == "zimageturbo"@ {
            "zit"@
        } else if bm == "zimagebase"@ {
            "zib"@
        } else if (seq_contains(bm, "qwen"@) && (seq_contains(bm, "edit plus"@) || seq_contains(bm, "edit-plus"@) || seq_contains(bm, "edit_plus"@) || seq_contains(bm, "editplus"@) || seq_contains(bm, "2509"@) || seq_contains(bm, "2511"@))) {
            "qwen_edit_plus"@
        } else if (seq_contains(bm, "qwen"@) && seq_contains(bm, "edit"@)) {
            "qwen_edit"@
        } else if seq_contains(bm, "qwen"@) {
            "qwen"@
        } else if bm == "ideogram 4.0"@ {
            "ideogram4"@
        } else if bm == "krea 2"@ {
            "krea2"@
        } else if (seq_contains(bm, "wan video"@) || seq_contains(bm, "wan 2"@) || seq_contains(bm, "wan2"@) || bm == "wan"@) {
            "anima"@
        } else if text_indicates_anima_spec(bm) {
            "anima"@
        } else if (seq_contains(bm, "illustrious"@) || seq_contains(bm, "noobai"@)) {
            "illustrious"@
        } else if seq_contains(bm, "pony"@) {
            "pony"@
        } else if (seq_contains(bm, "stable diffusion 3"@) || seq_contains(bm, "stable-diffusion-3"@) || seq_contains(bm, "stable_diffusion_3"@) || seq_contains(bm, "sd3"@) || seq_contains(bm, "sd 3"@)) {
            "sd3"@
        } else if seq_contains(bm, "chroma"@) {
            "chroma"@
        } else if seq_contains(bm, "kontext"@) {
            "flux1kontext"@
        } else if seq_contains(bm, "flux"@) {
            "flux"@
        } else if (seq_contains(bm, "auraflow"@) || seq_contains(bm, "aura flow"@)) {
            "auraflow"@
        } else if seq_contains(bm, "pixart"@) {
            "pixart"@
        } else if seq_contains(bm, "hunyuan"@) {
            "hunyuandit"@
        } else if seq_contains(bm, "cascade"@) {
            "cascade"@
        } else if seq_contains(bm, "kolors"@) {
            "kolors"@
        } else if seq_contains(bm, "mugen"@) {
            "mugen"@
        } else if (seq_contains(bm, "stable diffusion xl"@) || seq_contains(bm, "sdxl"@) || seq_contains(bm, "xl 1.0"@)) {
            "sdxl"@
        } else if (seq_contains(bm, "stable diffusion 1.5"@) || seq_contains(bm, "sd 1.5"@) || seq_contains(bm, "sd15"@) || seq_contains(bm, "sd_15"@) || seq_contains(bm, "1.5"@)) {
            "sd15"@
        } else {
            "unknown"@
        }
    }
}

pub fn model_family_from_base_model(base_model: &str) -> (r: &'static str)
    ensures
        r@ == family_from_base_model_spec(base_model@),
{
    let raw = chars_of(base_model);
    let t = trim_chars(&raw);
    family_from_lowered_base_model_chars(&lowercase_chars(&t))
}

/// The family a trimmed, lowercased CivitAI base model names.
pub fn family_from_lowered_base_model(bm: &str) -> (r: &'static str)
    ensures
        r@ == family_from_lowered_base_model_spec(bm@),
{
    family_from_lowered_base_model_chars(&chars_of(bm))
}

fn family_from_lowered_base_model_chars(bm: &Vec<char>) -> (r: &'static str)
    ensures
        r@ == family_from_lowered_base_model_spec(bm@),
{
    if bm.len() == 0 {
        return "unknown";
    }
    if has(&bm, "nanosaur") {
        return "nanosaur";
    }
    if spells(&bm, "flux.2 klein 9b-base") {
        return "flux2klein9bbase";
    }
    if spells(&bm, "flux.2 klein 9b") {
        return "flux2klein9b";
    }
    if spells(&bm, "flux.2 klein 4b-base") {
        return "flux2klein4bbase";
    }
    if spells(&bm, "flux.2 klein 4b") {
        return "flux2klein4b";
    }
    if spells(&bm, "flux.2 d") {
        return "flux2d";
    }
    if spells(&bm, "flux.1 krea") {
        return "flux1krea";
    }
    if spells(&bm, "flux.1 s") {
        return "flux1s";
    }
    if spells(&bm, "flux.1 d") {
        return "flux1d";
    }
    if spells(&bm, "zimageturbo") {
        return "zit";
    }
    if spells(&bm, "zimagebase") {
        return "zib";
    }
    if (has(&bm, "qwen") && (has(&bm, "edit plus") || has(&bm, "edit-plus") || has(&bm, "edit_plus") || has(&bm, "editplus") || has(&bm, "2509") || has(&bm, "2511"))) {
        return "qwen_edit_plus";
    }
    if (has(&bm, "qwen") && has(&bm, "edit")) {
        return "qwen_edit";
    }
    if has(&bm, "qwen") {
        return "qwen";
    }
    if spells(&bm, "ideogram 4.0") {
        return "ideogram4";
    }
    if spells(&bm, "krea 2") {
        return "krea2";
    }
    if (has(&bm, "wan video") || has(&bm, "wan 2") || has(&bm, "wan2") || spells(&bm, "wan")) {
        return "anima";
    }
    if text_indicates_anima_chars(&bm) {
        return "anima";
    }
    if (has(&bm, "illustrious") || has(&bm, "noobai")) {
        return "illustrious";
    }
    if has(&bm, "pony") {
        return "pony";
    }
    if (has(&bm, "stable diffusion 3") || has(&bm, "stable-diffusion-3") || has(&bm, "stable_diffusion_3") || has(&bm, "sd3") || has(&bm, "sd 3")) {
        return "sd3";
    }
    if has(&bm, "chroma") {
        return "chroma";
    }
    if has(&bm, "kontext") {
        return "flux1kontext";
    }
    if has(&bm, "flux") {
        return "flux";
    }
    if (has(&bm, "auraflow") || has(&bm, "aura flow")) {
        return "auraflow";
    }
    if has(&bm, "pixart") {
        return "pixart";
    }
    if has(&bm, "hunyuan") {
        return "hunyuandit";
    }
    if has(&bm, "cascade") {
        return "cascade";
    }
    if has(&bm, "kolors") {
        return "kolors";
    }
    if has(&bm, "mugen") {
        return "mugen";
    }
    if (has(&bm, "stable diffusion xl") || has(&bm, "sdxl") || has(&bm, "xl 1.0")) {
        return "sdxl";
    }
    if (has(&bm, "stable diffusion 1.5") || has(&bm, "sd 1.5") || has(&bm, "sd15") || has(&bm, "sd_15") || has(&bm, "1.5")) {
        return "sd15";
    }
    "unknown"
}

/// The family a model file name suggests, matched on its trimmed lowercase
/// form; the first rule that applies decides, and an empty or unrecognised
/// name suggests none.
pub open spec fn family_from_filename_spec(filename: Seq<char>) -> Option<Seq<char>> {
    family_from_lowered_spec(unicode_lower(trim(filename)))
}

/// The family a trimmed, lowercased file name suggests.
pub open spec fn family_from_lowered_spec(name: Seq<char>) -> Option<Seq<char>> {
    if name.len() == 0 {
        None
    } else {
        if seq_contains(name, "nanosaur"@) {
            Some("nanosaur"@)
        } else if (seq_contains(name, "flux.2 klein 9b-base"@) || seq_contains(name, "flux2klein9bbase"@) || (seq_contains(name, "flux"@) && seq_contains(name, "klein"@) && seq_contains(name, "9b"@) && seq_contains(name, "base"@))) {
            Some("flux2klein9bbase"@)
        } else if (seq_contains(name, "flux.2 klein 9b"@) || seq_contains(name, "flux2klein9b"@) || (seq_contains(name, "flux"@) && seq_contains(name, "klein"@) && seq_contains(name, "9b"@))) {
            Some("flux2klein9b"@)
        } else if (seq_contains(name, "flux.2 klein 4b-base"@) || seq_contains(name, "flux2klein4bbase"@) || (seq_contains(name, "flux"@) && seq_contains(name, "klein"@) && seq_contains(name, "4b"@) && seq_contains(name, "base"@))) {
            Some("flux2klein4bbase"@)
        } else if (seq_contains(name, "flux.2 klein 4b"@) || seq_contains(name, "flux2klein4b"@) || (seq_contains(name, "flux"@) && seq_contains(name, "klein"@) && seq_contains(name, "4b"@))) {
            Some("flux2klein4b"@)
        } else if (seq_contains(name, "flux.2 d"@) || seq_contains(name, "flux2d"@) || (seq_contains(name, "flux"@) && seq_contains(name, "2"@) && seq_contains(name, "d"@))) {
            Some("flux2d"@)
        } else if seq_contains(name, "kontext"@) {
            Some("flux1kontext"@)
        } else if (seq_contains(name, "flux.1 krea"@) || seq_contains(name, "flux1krea"@) || (seq_contains(name, "flux"@) && seq_contains(name, "krea"@))) {
            Some("flux1krea"@)
        } else if (seq_contains(name, "flux.1 s"@) || seq_contains(name, "flux1s"@) || seq_contains(name, "schnell"@) || (seq_contains(name, "flux"@) && seq_contains(name, "1"@) && seq_contains(name, "s"@))) {
            Some("flux1s"@)
        } else if (seq_contains(name, "flux.1 d"@) || seq_contains(name, "flux1d"@) || (seq_contains(name, "flux"@) && seq_contains(name, "1"@) && seq_contains(name, "d"@))) {
            Some("flux1d"@)
        } else if (seq_contains(name, "zimageturbo"@) || seq_contains(name, "zimage_turbo"@) || seq_contains(name, "/zit/"@) || seq_contains(name, "\\zit\\"@) || seq_contains(name, "_zit"@) || seq_contains(name, "-zit"@) || seq_contains(name, " zit"@) || starts_with(name, "zit"@)) {
            Some("zit"@)
        } else if (seq_contains(name, "zimagebase"@) || seq_contains(name, "zimage_base"@) || seq_contains(name, "/zib/"@) || seq_contains(name, "\\zib\\"@) || seq_contains(name, "_zib"@) || seq_contains(name, "-zib"@) || seq_contains(name, " zib"@) || starts_with(name, "zib"@) || (seq_contains(name, "zimage"@) && seq_contains(name, "base"@))) {
            Some("zib"@)
        } else if (seq_contains(name, "qwen"@) && (seq_contains(name, "edit_plus"@) || seq_contains(name, "edit-plus"@) || seq_contains(name, "editplus"@) || seq_contains(name, "2509"@) || seq_contains(name, "2511"@))) {
            Some("qwen_edit_plus"@)
        } else if (seq_contains(name, "qwen"@) && seq_contains(name, "edit"@)) {
            Some("qwen_edit"@)
        } else if seq_contains(name, "qwen"@) {
            Some("qwen"@)
        } else if seq_contains(name, "ideogram4"@) {
            Some("ideogram4"@)
        } else if (seq_contains(name, "krea2"@) || seq_contains(name, "krea-2"@) || seq_contains(name, "krea_2"@) || seq_contains(name, "krea 2"@)) {
            Some("krea2"@)
        } else if (name == "wan"@ || seq_contains(name, "wan video"@) || seq_contains(name, "wan 2"@) || seq_contains(name, "wan2"@)) {
            Some("wan"@)
        } else if text_indicates_anima_spec(name) {
            Some("anima"@)
        } else if (seq_contains(name, "noobai"@) || seq_contains(name, "illustrious"@)) {
            Some("illustrious"@)
        } else if seq_contains(name, "pony"@) {
            Some("pony"@)
        } else if (seq_contains(name, "stable diffusion 3"@) || seq_contains(name, "stable-diffusion-3"@) || seq_contains(name, "stable_diffusion_3"@) || seq_contains(name, "sd3"@) || seq_contains(name, "sd 3"@)) {
            Some("sd3"@)
        } else if seq_contains(name, "chroma"@) {
            Some("chroma"@)
        } else if seq_contains(name, "flux"@) {
            Some("flux"@)
        } else if (seq_contains(name, "auraflow"@) || seq_contains(name, "aura flow"@)) {
            Some("auraflow"@)
        } else if seq_contains(name, "pixart"@) {
            Some("pixart"@)
        } else if seq_contains(name, "hunyuan"@) {
            Some("hunyuandit"@)
        } else if seq_contains(name, "cascade"@) {
            Some("cascade"@)
        } else if seq_contains(name, "kolors"@) {
            Some("kolors"@)
        } else if seq_contains(name, "mugen"@) {
            Some("mugen"@)
        } else if (seq_contains(name, "stable diffusion xl"@) || seq_contains(name, "sdxl"@) || seq_contains(name, "xl 1.0"@)) {
            Some("sdxl"@)
        } else if (seq_contains(name, "stable diffusion 1.5"@) || seq_contains(name, "sd 1.5"@) || seq_contains(name, "sd15"@) || seq_contains(name, "sd_15"@) || seq_contains(name, "1.5"@)) {
            Some("sd15"@)
        } else {
            None
        }
    }
}

pub fn model_family_from_filename(filename: &str) -> (r: Option<&'static str>)
    ensures
        match r {
            Some(f) => family_from_filename_spec(filename@) == Some(f@),
            None => family_from_filename_spec(filename@) is None,
        },
{
    let raw = chars_of(filename);
    let t = trim_chars(&raw);
    family_from_lowered_chars(&lowercase_chars(&t))
}

/// The family a trimmed, lowercased file name suggests.
pub fn family_from_lowered(name: &str) -> (r: Option<&'static str>)
    ensures
        match r {
            Some(f) => family_from_lowered_spec(name@) == Some(f@),
            None => family_from_lowered_spec(name@) is None,
        },
{
    family_from_lowered_chars(&chars_of(name))
}

fn family_from_lowered_chars(name: &Vec<char>) -> (r: Option<&'static str>)
    ensures
        match r {
            Some(f) => family_from_lowered_spec(name@) == Some(f@),
            None => family_from_lowered_spec(name@) is None,
        },
{
    if name.len() == 0 {
        return None;
    }
    if has(&name, "nanosaur") {
        return Some("nanosaur");
    }
    if (has(&name, "flux.2 klein 9b-base") || has(&name, "flux2klein9bbase") || (has(&name, "flux") && has(&name, "klein") && has(&name, "9b") && has(&name, "base"))) {
        return Some("flux2klein9bbase");
    }
    if (has(&name, "flux.2 klein 9b") || has(&name, "flux2klein9b") || (has(&name, "flux") && has(&name, "klein") && has(&name, "9b"))) {
        return Some("flux2klein9b");
    }
    if (has(&name, "flux.2 klein 4b-base") || has(&name, "flux2klein4bbase") || (has(&name, "flux") && has(&name, "klein") && has(&name, "4b") && has(&name, "base"))) {
        return Some("flux2klein4bbase");
    }
    if (has(&name, "flux.2 klein 4b") || has(&name, "flux2klein4b") || (has(&name, "flux") && has(&name, "klein") && has(&name, "4b"))) {
        return Some("flux2klein4b");
    }
    if (has(&name, "flux.2 d") || has(&name, "flux2d") || (has(&name, "flux") && has(&name, "2") && has(&name, "d"))) {
        return Some("flux2d");
    }
    if has(&name, "kontext") {
        return Some("flux1kontext");
    }
    if (has(&name, "flux.1 krea") || has(&name, "flux1krea") || (has(&name, "flux") && has(&name, "krea"))) {
        return Some("flux1krea");
    }
    if (has(&name, "flux.1 s") || has(&name, "flux1s") || has(&name, "schnell") || (has(&name, "flux") && has(&name, "1") && has(&name, "s"))) {
        return Some("flux1s");
    }
    if (has(&name, "flux.1 d") || has(&name, "flux1d") || (has(&name, "flux") && has(&name, "1") && has(&name, "d"))) {
        return Some("flux1d");
    }
    if (has(&name, "zimageturbo") || has(&name, "zimage_turbo") || has(&name, "/zit/") || has(&name, "\\zit\\") || has(&name, "_zit") || has(&name, "-zit") || has(&name, " zit") || starts(&name, "zit")) {
        return Some("zit");
    }
    if (has(&name, "zimagebase") || has(&name, "zimage_base") || has(&name, "/zib/") || has(&name, "\\zib\\") || has(&name, "_zib") || has(&name, "-zib") || has(&name, " zib") || starts(&name, "zib") || (has(&name, "zimage") && has(&name, "base"))) {
        return Some("zib");
    }
    if (has(&name, "qwen") && (has(&name, "edit_plus") || has(&name, "edit-plus") || has(&name, "editplus") || has(&name, "2509") || has(&name, "2511"))) {
        return Some("qwen_edit_plus");
    }
    if (has(&name, "qwen") && has(&name, "edit")) {
        return Some("qwen_edit");
    }
    if has(&name, "qwen") {
        return Some("qwen");
    }
    if has(&name, "ideogram4") {
        return Some("ideogram4");
    }
    if (has(&name, "krea2") || has(&name, "krea-2") || has(&name, "krea_2") || has(&name, "krea 2")) {
        return Some("krea2");
    }
    if (spells(&name, "wan") || has(&name, "wan video") || has(&name, "wan 2") || has(&name, "wan2")) {
        return Some("wan");
    }
    if text_indicates_anima_chars(&name) {
        return Some("anima");
    }
    if (has(&name, "noobai") || has(&name, "illustrious")) {
        return Some("illustrious");
    }
    if has(&name, "pony") {
        return Some("pony");
    }
    if (has(&name, "stable diffusion 3") || has(&name, "stable-diffusion-3") || has(&name, "stable_diffusion_3") || has(&name, "sd3") || has(&name, "sd 3")) {
        return Some("sd3");
    }
    if has(&name, "chroma") {
        return Some("chroma");
    }
    if has(&name, "flux") {
        return Some("flux");
    }
    if (has(&name, "auraflow") || has(&name, "aura flow")) {
        return Some("auraflow");
    }
    if has(&name, "pixart") {
        return Some("pixart");
    }
    if has(&name, "hunyuan") {
        return Some("hunyuandit");
    }
    if has(&name, "cascade") {
        return Some("cascade");
    }
    if has(&name, "kolors") {
        return Some("kolors");
    }
    if has(&name, "mugen") {
        return Some("mugen");
    }
    if (has(&name, "stable diffusion xl") || has(&name, "sdxl") || has(&name, "xl 1.0")) {
        return Some("sdxl");
    }
    if (has(&name, "stable diffusion 1.5") || has(&name, "sd 1.5") || has(&name, "sd15") || has(&name, "sd_15") || has(&name, "1.5")) {
        return Some("sd15");
    }
    None
}

/// The distilled-sampling variant a model file name suggests.
pub open spec fn turbo_variant_spec(filename: Seq<char>) -> Seq<char> {
    let name = unicode_lower(trim(filename));
    if name.len() == 0 {
        "none"@
    } else {
        if (seq_contains(name, "zimageturbo"@) || seq_contains(name, "z-image-turbo"@) || seq_contains(name, "/zit/"@) || seq_contains(name, "\\zit\\"@) || seq_contains(name, "_zit"@) || seq_contains(name, "-zit"@) || seq_contains(name, " zit"@) || starts_with(name, "zit"@)) {
            "turbo"@
        } else if seq_contains(name, "dmd2"@) {
            "dmd2"@
        } else if seq_contains(name, "dmd"@) {
            "dmd"@
        } else if seq_contains(name, "turbo"@) {
            "turbo"@
        } else if seq_contains(name, "lightning"@) {
            "lightning"@
        } else if seq_contains(name, "lcm"@) {
            "lcm"@
        } else if seq_contains(name, "hyper"@) {
            "hyper"@
        } else {
            "none"@
        }
    }
}

pub fn turbo_model_variant_from_filename(filename: &str) -> (r: &'static str)
    ensures
        r@ == turbo_variant_spec(filename@),
{
    let raw = chars_of(filename);
    let t = trim_chars(&raw);
    let name = lowercase_chars(&t);
    if name.len() == 0 {
        return "none";
    }
    if (has(&name, "zimageturbo") || has(&name, "z-image-turbo") || has(&name, "/zit/") || has(&name, "\\zit\\") || has(&name, "_zit") || has(&name, "-zit") || has(&name, " zit") || starts(&name, "zit")) {
        return "turbo";
    }
    if has(&name, "dmd2") {
        return "dmd2";
    }
    if has(&name, "dmd") {
        return "dmd";
    }
    if has(&name, "turbo") {
        return "turbo";
    }
    if has(&name, "lightning") {
        return "lightning";
    }
    if has(&name, "lcm") {
        return "lcm";
    }
    if has(&name, "hyper") {
        return "hyper";
    }
    "none"
}

// ---------------------------------------------------------------------------
// Families that need companion files
// ---------------------------------------------------------------------------

pub open spec fn sdxl_like_family(family: Seq<char>) -> bool {
    family == "sdxl"@ || family == "illustrious"@ || family == "pony"@
}

pub fn is_sdxl_like_family(family: &str) -> (r: bool)
    ensures
        r == sdxl_like_family(family@),
{
    let f = chars_of(family);
    spells(&f, "sdxl") || spells(&f, "illustrious") || spells(&f, "pony")
}

/// Families never distributed as a full single-file checkpoint: their text
/// encoder always ships separately.
pub open spec fn separate_clip_family(family: Seq<char>) -> bool {
    ||| family == "anima"@ || family == "wan"@
    ||| family == "qwen"@ || family == "qwen_edit"@ || family == "qwen_edit_plus"@
    ||| family == "flux"@ || family == "flux1d"@ || family == "flux1s"@ || family == "flux1krea"@
        || family == "flux1kontext"@
    ||| family == "flux2d"@ || family == "flux2klein9b"@ || family == "flux2klein9bbase"@
        || family == "flux2klein4b"@ || family == "flux2klein4bbase"@
    ||| family == "chroma"@ || family == "ideogram4"@ || family == "krea2"@
}

pub fn family_requires_separate_clip(family: &str) -> (r: bool)
    ensures
        r == separate_clip_family(family@),
{
    let f = chars_of(family);
    spells(&f, "anima") || spells(&f, "wan") || spells(&f, "qwen") || spells(&f, "qwen_edit")
        || spells(&f, "qwen_edit_plus") || spells(&f, "flux") || spells(&f, "flux1d")
        || spells(&f, "flux1s") || spells(&f, "flux1krea") || spells(&f, "flux1kontext")
        || spells(&f, "flux2d") || spells(&f, "flux2klein9b") || spells(&f, "flux2klein9bbase")
        || spells(&f, "flux2klein4b") || spells(&f, "flux2klein4bbase") || spells(&f, "chroma")
        || spells(&f, "ideogram4") || spells(&f, "krea2")
}

/// The lowercase form of `name` holds one of `markers`.
pub open spec fn names_a_marker(name: Seq<char>, markers: Seq<Seq<char>>) -> bool {
    exists|j: int| 0 <= j < markers.len() && seq_contains(unicode_lower(name), #[trigger] markers[j])
}

/// A text encoder file (`.safetensors`, in any case) whose name holds one of
/// `markers`.
pub open spec fn encoder_names_a_marker(name: Seq<char>, markers: Seq<Seq<char>>) -> bool {
    crate::text::ends_with(unicode_lower(name), ".safetensors"@) && names_a_marker(name, markers)
}

/// The first of `names` that holds one of `markers`.
pub open spec fn first_vae_spec(names: Seq<Seq<char>>, markers: Seq<Seq<char>>) -> Option<Seq<char>>
    decreases names.len(),
{
    if names.len() == 0 {
        None
    } else if names_a_marker(names[0], markers) {
        Some(names[0])
    } else {
        first_vae_spec(names.skip(1), markers)
    }
}

/// The first of `names` that is a text encoder file holding one of `markers`.
pub open spec fn first_encoder_spec(names: Seq<Seq<char>>, markers: Seq<Seq<char>>) -> Option<Seq<char>>
    decreases names.len(),
{
    if names.len() == 0 {
        None
    } else if encoder_names_a_marker(names[0], markers) {
        Some(names[0])
    } else {
        first_encoder_spec(names.skip(1), markers)
    }
}

fn holds_a_marker(lower: &[char], markers: &[&str]) -> (r: bool)
    ensures
        r == exists|j: int| 0 <= j < markers@.len() && seq_contains(lower@, #[trigger] str_views(markers@)[j]),
{
    let mut j: usize = 0;
    while j < markers.len()
        invariant
            j <= markers.len(),
            forall|k: int| 0 <= k < j ==> !seq_contains(lower@, #[trigger] str_views(markers@)[k]),
        decreases markers.len() - j,
    {
        let m = chars_of(markers[j]);
        assert(str_views(markers@)[j as int] == markers@[j as int]@);
        if crate::text::contains(lower, &m) {
            return true;
        }
        j += 1;
    }
    false
}

pub fn find_first_vae_matching(vaes: &[String], markers: &[&str]) -> (r: Option<String>)
    ensures
        match r {
            Some(v) => first_vae_spec(string_views(vaes@), str_views(markers@)) == Some(v@),
            None => first_vae_spec(string_views(vaes@), str_views(markers@)) is None,
        },
{
    let ghost names = string_views(vaes@);
    let ghost ms = str_views(markers@);
    let mut i: usize = 0;
    assert(names.skip(0) =~= names);
    while i < vaes.len()
        invariant
            i <= vaes.len(),
            names == string_views(vaes@),
            ms == str_views(markers@),
            first_vae_spec(names, ms) == first_vae_spec(names.skip(i as int), ms),
        decreases vaes.len() - i,
    {
        let ghost rest = names.skip(i as int);
        assert(rest[0] == vaes@[i as int]@);
        assert(rest.skip(1) =~= names.skip(i + 1));
        let c = chars_of(vaes[i].as_str());
        let lower = lowercase_chars(&c);
        if holds_a_marker(&lower, markers) {
            return Some(vaes[i].clone());
        }
        i += 1;
    }
    assert(names.skip(vaes.len() as int) =~= Seq::<Seq<char>>::empty());
    None
}

pub fn find_first_text_encoder_matching(encoders: &[String], markers: &[&str]) -> (r: Option<String>)
    ensures
        match r {
            Some(v) => first_encoder_spec(string_views(encoders@), str_views(markers@)) == Some(v@),
            None => first_encoder_spec(string_views(encoders@), str_views(markers@)) is None,
        },
{
    let ghost names = string_views(encoders@);
    let ghost ms = str_views(markers@);
    let mut i: usize = 0;
    assert(names.skip(0) =~= names);
    while i < encoders.len()
        invariant
            i <= encoders.len(),
            names == string_views(encoders@),
            ms == str_views(markers@),
            first_encoder_spec(names, ms) == first_encoder_spec(names.skip(i as int), ms),
        decreases encoders.len() - i,
    {
        let ghost rest = names.skip(i as int);
        assert(rest[0] == encoders@[i as int]@);
        assert(rest.skip(1) =~= names.skip(i + 1));
        let c = chars_of(encoders[i].as_str());
        let lower = lowercase_chars(&c);
        if crate::text::ends(&lower, ".safetensors") && holds_a_marker(&lower, markers) {
            return Some(encoders[i].clone());
        }
        i += 1;
    }
    assert(names.skip(encoders.len() as int) =~= Seq::<Seq<char>>::empty());
    None
}

/// The found name, else the first of `names`.
pub open spec fn or_first(found: Option<Seq<char>>, names: Seq<Seq<char>>) -> Option<Seq<char>> {
    match found {
        Some(v) => Some(v),
        None => if names.len() > 0 { Some(names[0]) } else { None },
    }
}

pub open spec fn flux2_family(family: Seq<char>) -> bool {
    family == "flux2d"@ || family == "flux2klein9b"@ || family == "flux2klein9bbase"@
        || family == "flux2klein4b"@ || family == "flux2klein4bbase"@
}

pub open spec fn flux1_family(family: Seq<char>) -> bool {
    family == "flux"@ || family == "flux1d"@ || family == "flux1s"@ || family == "flux1krea"@
        || family == "flux1kontext"@ || family == "chroma"@
}

pub open spec fn qwen_vae_family(family: Seq<char>) -> bool {
    family == "anima"@ || family == "qwen"@ || family == "qwen_edit"@ || family == "qwen_edit_plus"@
        || family == "wan"@
}

/// The VAE to pair with a bare diffusion model of `family`: the first one
/// named for the family's VAE, else the first available; none outside
/// `diffusion_models` or when no VAE is installed.
pub open spec fn recommended_vae_spec(category: Seq<char>, family: Seq<char>, vaes: Seq<Seq<char>>) -> Option<Seq<char>> {
    if category != "diffusion_models"@ || vaes.len() == 0 {
        None
    } else if qwen_vae_family(family) || family == "krea2"@ {
        or_first(first_vae_spec(vaes, seq!["qwen"@]), vaes)
    } else if family == "ideogram4"@ || flux2_family(family) {
        or_first(first_vae_spec(vaes, seq!["flux2-vae"@, "flux2_vae"@]), vaes)
    } else if flux1_family(family) || family == "zib"@ || family == "zit"@ {
        or_first(first_vae_spec(vaes, seq!["flux"@]), vaes)
    } else {
        or_first(first_vae_spec(vaes, seq!["sdxl"@]), vaes)
    }
}

fn found_or_first(found: Option<String>, names: &[String]) -> (r: Option<String>)
    ensures
        match r {
            Some(v) => or_first(match found {
                Some(f) => Some(f@),
                None => None,
            }, string_views(names@)) == Some(v@),
            None => or_first(match found {
                Some(f) => Some(f@),
                None => None,
            }, string_views(names@)) is None,
        },
{
    match found {
        Some(v) => Some(v),
        None => if names.len() > 0 {
            Some(names[0].clone())
        } else {
            None
        },
    }
}

pub fn recommended_vae_from_available(category: &str, family: &str, vaes: &[String]) -> (r: Option<String>)
    ensures
        match r {
            Some(v) => recommended_vae_spec(category@, family@, string_views(vaes@)) == Some(v@),
            None => recommended_vae_spec(category@, family@, string_views(vaes@)) is None,
        },
{
    let c = chars_of(category);
    let f = chars_of(family);
    if !spells(&c, "diffusion_models") || vaes.len() == 0 {
        return None;
    }
    let qwen_family = spells(&f, "anima") || spells(&f, "qwen") || spells(&f, "qwen_edit")
        || spells(&f, "qwen_edit_plus") || spells(&f, "wan");
    let flux2 = spells(&f, "flux2d") || spells(&f, "flux2klein9b") || spells(&f, "flux2klein9bbase")
        || spells(&f, "flux2klein4b") || spells(&f, "flux2klein4bbase");
    let flux1 = spells(&f, "flux") || spells(&f, "flux1d") || spells(&f, "flux1s")
        || spells(&f, "flux1krea") || spells(&f, "flux1kontext") || spells(&f, "chroma");
    let found = if qwen_family || spells(&f, "krea2") {
        let ms = ["qwen"];
        assert(str_views(ms@) =~= seq!["qwen"@]);
        find_first_vae_matching(vaes, &ms)
    } else if spells(&f, "ideogram4") || flux2 {
        let ms = ["flux2-vae", "flux2_vae"];
        assert(str_views(ms@) =~= seq!["flux2-vae"@, "flux2_vae"@]);
        find_first_vae_matching(vaes, &ms)
    } else if flux1 || spells(&f, "zib") || spells(&f, "zit") {
        let ms = ["flux"];
        assert(str_views(ms@) =~= seq!["flux"@]);
        find_first_vae_matching(vaes, &ms)
    } else {
        let ms = ["sdxl"];
        assert(str_views(ms@) =~= seq!["sdxl"@]);
        find_first_vae_matching(vaes, &ms)
    };
    found_or_first(found, vaes)
}

/// Text encoder markers of the families whose encoder is never substituted:
/// any other encoder fails deep inside sampling instead of with an error.
pub open spec fn strict_encoder_markers(family: Seq<char>) -> Seq<Seq<char>> {
    if family == "anima"@ {
        seq!["qwen_3_06b_base"@, "qwen_3_06b"@]
    } else if family == "ideogram4"@ {
        seq!["qwen3vl-8b"@, "qwen3vl_8b"@, "qwen3-vl-8b"@, "qwen3_vl_8b"@, "qwen3vl8b"@]
    } else {
        seq!["qwen3vl-4b"@, "qwen3vl_4b"@, "qwen3-vl-4b"@, "qwen3_vl_4b"@, "qwen3vl4b"@]
    }
}

/// The text encoder to pair with a bare diffusion model of `family`, with
/// the CLIP type it loads as. A `None` encoder with a type means that the
/// family's type is known but no installed encoder fits it.
pub open spec fn recommended_clip_spec(
    category: Seq<char>,
    family: Seq<char>,
    encoders: Seq<Seq<char>>,
) -> Option<(Option<Seq<char>>, Seq<char>)> {
    if category != "diffusion_models"@ || encoders.len() == 0 {
        None
    } else if family == "anima"@ {
        Some((first_encoder_spec(encoders, strict_encoder_markers(family)), "wan"@))
    } else if family == "qwen"@ || family == "qwen_edit"@ || family == "qwen_edit_plus"@ || family == "wan"@ {
        Some((or_first(first_encoder_spec(encoders, seq!["qwen2.5-vl"@, "qwen_2.5_vl"@]), encoders), "qwen_image"@))
    } else if family == "flux2d"@ {
        Some((or_first(first_vae_spec(encoders, seq!["cow-mistral3-small"@]), encoders), "flux2"@))
    } else if family == "flux2klein9b"@ || family == "flux2klein9bbase"@ {
        Some((or_first(first_encoder_spec(encoders, seq!["qwen3_8b"@, "qwen_3_8b"@]), encoders), "flux2"@))
    } else if family == "flux2klein4b"@ || family == "flux2klein4bbase"@ {
        Some((or_first(first_encoder_spec(encoders, seq!["zimage"@, "qwen3-4b"@, "qwen34b"@]), encoders), "flux2"@))
    } else if family == "zib"@ || family == "zit"@ {
        Some((or_first(first_encoder_spec(encoders, seq!["zimage"@, "qwen3-4b"@, "qwen34b"@]), encoders), "lumina2"@))
    } else if flux1_family(family) {
        Some((or_first(first_encoder_spec(encoders, seq!["flan_t5_xxl"@, "t5_xxl"@]), encoders), "chroma"@))
    } else if family == "ideogram4"@ {
        Some((first_encoder_spec(encoders, strict_encoder_markers(family)), "ideogram4"@))
    } else if family == "krea2"@ {
        Some((first_encoder_spec(encoders, strict_encoder_markers(family)), "krea2"@))
    } else {
        Some((Some(encoders[0]), "wan"@))
    }
}

pub open spec fn clip_choice_view(r: Option<(Option<String>, &str)>) -> Option<(Option<Seq<char>>, Seq<char>)> {
    match r {
        Some((e, t)) => Some((match e {
            Some(v) => Some(v@),
            None => None,
        }, t@)),
        None => None,
    }
}

pub fn recommended_clip_from_available(
    category: &str,
    family: &str,
    encoders: &[String],
) -> (r: Option<(Option<String>, &'static str)>)
    ensures
        clip_choice_view(r) == recommended_clip_spec(category@, family@, string_views(encoders@)),
{
    let c = chars_of(category);
    let f = chars_of(family);
    if !spells(&c, "diffusion_models") || encoders.len() == 0 {
        return None;
    }
    if spells(&f, "anima") {
        let ms = ["qwen_3_06b_base", "qwen_3_06b"];
        assert(str_views(ms@) =~= strict_encoder_markers(f@));
        return Some((find_first_text_encoder_matching(encoders, &ms), "wan"));
    }
    if spells(&f, "qwen") || spells(&f, "qwen_edit") || spells(&f, "qwen_edit_plus") || spells(&f, "wan") {
        let ms = ["qwen2.5-vl", "qwen_2.5_vl"];
        assert(str_views(ms@) =~= seq!["qwen2.5-vl"@, "qwen_2.5_vl"@]);
        let found = find_first_text_encoder_matching(encoders, &ms);
        return Some((found_or_first(found, encoders), "qwen_image"));
    }
    if spells(&f, "flux2d") {
        let ms = ["cow-mistral3-small"];
        assert(str_views(ms@) =~= seq!["cow-mistral3-small"@]);
        let found = find_first_vae_matching(encoders, &ms);
        return Some((found_or_first(found, encoders), "flux2"));
    }
    if spells(&f, "flux2klein9b") || spells(&f, "flux2klein9bbase") {
        let ms = ["qwen3_8b", "qwen_3_8b"];
        assert(str_views(ms@) =~= seq!["qwen3_8b"@, "qwen_3_8b"@]);
        let found = find_first_text_encoder_matching(encoders, &ms);
        return Some((found_or_first(found, encoders), "flux2"));
    }
    if spells(&f, "flux2klein4b") || spells(&f, "flux2klein4bbase") {
        let ms = ["zimage", "qwen3-4b", "qwen34b"];
        assert(str_views(ms@) =~= seq!["zimage"@, "qwen3-4b"@, "qwen34b"@]);
        let found = find_first_text_encoder_matching(encoders, &ms);
        return Some((found_or_first(found, encoders), "flux2"));
    }
    if spells(&f, "zib") || spells(&f, "zit") {
        let ms = ["zimage", "qwen3-4b", "qwen34b"];
        assert(str_views(ms@) =~= seq!["zimage"@, "qwen3-4b"@, "qwen34b"@]);
        let found = find_first_text_encoder_matching(encoders, &ms);
        return Some((found_or_first(found, encoders), "lumina2"));
    }
    if spells(&f, "flux") || spells(&f, "flux1d") || spells(&f, "flux1s") || spells(&f, "flux1krea")
        || spells(&f, "flux1kontext") || spells(&f, "chroma") {
        let ms = ["flan_t5_xxl", "t5_xxl"];
        assert(str_views(ms@) =~= seq!["flan_t5_xxl"@, "t5_xxl"@]);
        let found = find_first_text_encoder_matching(encoders, &ms);
        return Some((found_or_first(found, encoders), "chroma"));
    }
    if spells(&f, "ideogram4") {
        let ms = ["qwen3vl-8b", "qwen3vl_8b", "qwen3-vl-8b", "qwen3_vl_8b", "qwen3vl8b"];
        assert(str_views(ms@) =~= strict_encoder_markers(f@));
        return Some((find_first_text_encoder_matching(encoders, &ms), "ideogram4"));
    }
    if spells(&f, "krea2") {
        let ms = ["qwen3vl-4b", "qwen3vl_4b", "qwen3-vl-4b", "qwen3_vl_4b", "qwen3vl4b"];
        assert(str_views(ms@) =~= strict_encoder_markers(f@));
        return Some((find_first_text_encoder_matching(encoders, &ms), "krea2"));
    }
    Some((Some(encoders[0].clone()), "wan"))
}

proof fn lemma_first_encoder_matches(names: Seq<Seq<char>>, ms: Seq<Seq<char>>)
    ensures
        first_encoder_spec(names, ms) matches Some(e) ==> encoder_names_a_marker(e, ms),
    decreases names.len(),
{
    if names.len() > 0 && !encoder_names_a_marker(names[0], ms) {
        lemma_first_encoder_matches(names.skip(1), ms);
    }
}

/// For Anima, Ideogram 4 and Krea 2 the recommended text encoder, when there
/// is one, is always one named for the family: never an arbitrary
/// substitute.
pub proof fn strict_families_never_substitute_an_encoder(
    category: Seq<char>,
    family: Seq<char>,
    encoders: Seq<Seq<char>>,
)
    requires
        family == "anima"@ || family == "ideogram4"@ || family == "krea2"@,
    ensures
        recommended_clip_spec(category, family, encoders) matches Some((Some(e), _))
            ==> encoder_names_a_marker(e, strict_encoder_markers(family)),
{
    reveal_strlit("anima");
    reveal_strlit("ideogram4");
    reveal_strlit("krea2");
    reveal_strlit("qwen");
    reveal_strlit("qwen_edit");
    reveal_strlit("qwen_edit_plus");
    reveal_strlit("wan");
    reveal_strlit("flux2d");
    reveal_strlit("flux2klein9b");
    reveal_strlit("flux2klein9bbase");
    reveal_strlit("flux2klein4b");
    reveal_strlit("flux2klein4bbase");
    reveal_strlit("zib");
    reveal_strlit("zit");
    reveal_strlit("flux");
    reveal_strlit("flux1d");
    reveal_strlit("flux1s");
    reveal_strlit("flux1krea");
    reveal_strlit("flux1kontext");
    reveal_strlit("chroma");
    reveal_strlit("diffusion_models");
    let ms = strict_encoder_markers(family);
    lemma_first_encoder_matches(encoders, ms);
    if category == "diffusion_models"@ && encoders.len() > 0 {
        if family == "anima"@ {
            assert(recommended_clip_spec(category, family, encoders) == Some((first_encoder_spec(encoders, ms), "wan"@)));
        } else if family == "ideogram4"@ {
            assert(family.len() == 9);
            assert(family[0] == 'i');
            assert(!flux1_family(family));
            assert(recommended_clip_spec(category, family, encoders) == Some((first_encoder_spec(encoders, ms), "ideogram4"@)));
        } else {
            assert(family.len() == 5);
            assert(family[0] == 'k');
            assert(!flux1_family(family));
            assert(recommended_clip_spec(category, family, encoders) == Some((first_encoder_spec(encoders, ms), "krea2"@)));
        }
    }
}


// ---------------------------------------------------------------------------
// Laws of the family tables
// ---------------------------------------------------------------------------

proof fn lemma_not_within(s: Seq<char>, p: Seq<char>)
    requires
        s.len() <= p.len(),
        s != p,
    ensures
        !seq_contains(s, p),
{
    if seq_contains(s, p) {
        let i = choose|i: int| occurs_at(s, p, i);
        assert(i == 0 && p.len() == s.len());
        assert(s.subrange(0, s.len() as int) =~= s);
    }
}

/// The Flux.1 base names CivitAI uses each stand for their own family:
/// `Flux.1 S` (schnell) is `flux1s` and `Flux.1 D` (dev) is `flux1d`, in any
/// case once trimmed, so the two never share a family.
pub proof fn flux1_base_names_keep_their_variant(schnell: Seq<char>, dev: Seq<char>)
    ensures
        unicode_lower(trim(schnell)) == "flux.1 s"@ ==> family_from_base_model_spec(schnell) == "flux1s"@,
        unicode_lower(trim(dev)) == "flux.1 d"@ ==> family_from_base_model_spec(dev) == "flux1d"@,
        unicode_lower(trim(schnell)) == "flux.1 s"@ && unicode_lower(trim(dev)) == "flux.1 d"@
            ==> family_from_base_model_spec(schnell) != family_from_base_model_spec(dev),
{
    reveal_strlit("flux.1 s");
    reveal_strlit("flux.1 d");
    reveal_strlit("flux1s");
    reveal_strlit("flux1d");
    reveal_strlit("nanosaur");
    reveal_strlit("flux.2 klein 9b-base");
    reveal_strlit("flux.2 klein 9b");
    reveal_strlit("flux.2 klein 4b-base");
    reveal_strlit("flux.2 klein 4b");
    reveal_strlit("flux.2 d");
    reveal_strlit("flux.1 krea");
    let s = "flux.1 s"@;
    let d = "flux.1 d"@;
    assert(s[7] != d[7]);
    lemma_not_within(s, "nanosaur"@);
    lemma_not_within(d, "nanosaur"@);
    assert(s != "flux.2 klein 9b-base"@ && d != "flux.2 klein 9b-base"@);
    assert(s != "flux.2 klein 9b"@ && d != "flux.2 klein 9b"@);
    assert(s != "flux.2 klein 4b-base"@ && d != "flux.2 klein 4b-base"@);
    assert(s != "flux.2 klein 4b"@ && d != "flux.2 klein 4b"@);
    assert(s[5] != "flux.2 d"@[5] && d[5] != "flux.2 d"@[5]);
    assert(s != "flux.1 krea"@ && d != "flux.1 krea"@);
    assert("flux1s"@[5] != "flux1d"@[5]);
}

proof fn lemma_first_vae_at(names: Seq<Seq<char>>, markers: Seq<Seq<char>>, k: int)
    requires
        0 <= k < names.len(),
        names_a_marker(names[k], markers),
        forall|j: int| 0 <= j < k ==> !names_a_marker(#[trigger] names[j], markers),
    ensures
        first_vae_spec(names, markers) == Some(names[k]),
    decreases k,
{
    if k > 0 {
        let rest = names.skip(1);
        assert(!names_a_marker(names[0], markers));
        assert forall|j: int| 0 <= j < k - 1 implies !names_a_marker(#[trigger] rest[j], markers) by {
            assert(rest[j] == names[j + 1]);
        }
        assert(rest[k - 1] == names[k]);
        lemma_first_vae_at(rest, markers, k - 1);
    }
}

/// Whether a file name, lowercased, holds one of two marker texts.
pub open spec fn holds_either(name: Seq<char>, a: Seq<char>, b: Seq<char>) -> bool {
    seq_contains(unicode_lower(name), a) || seq_contains(unicode_lower(name), b)
}

proof fn lemma_two_markers(name: Seq<char>, a: Seq<char>, b: Seq<char>)
    ensures
        names_a_marker(name, seq![a, b]) == holds_either(name, a, b),
{
    let m = seq![a, b];
    if holds_either(name, a, b) {
        if seq_contains(unicode_lower(name), a) {
            assert(seq_contains(unicode_lower(name), m[0]));
        } else {
            assert(seq_contains(unicode_lower(name), m[1]));
        }
    }
}

proof fn lemma_one_marker(name: Seq<char>, a: Seq<char>)
    ensures
        names_a_marker(name, seq![a]) == seq_contains(unicode_lower(name), a),
{
    let m = seq![a];
    if seq_contains(unicode_lower(name), a) {
        assert(seq_contains(unicode_lower(name), m[0]));
    }
}

/// A Flux.2 diffusion model (dev or Klein, base or distilled), or an
/// Ideogram 4 one, is paired with the first installed VAE whose name holds
/// `flux2-vae` or `flux2_vae`, whatever other VAEs come before it.
pub proof fn flux2_models_get_the_flux2_vae(family: Seq<char>, vaes: Seq<Seq<char>>, k: int)
    requires
        family == "flux2d"@ || family == "flux2klein9b"@ || family == "flux2klein9bbase"@
            || family == "flux2klein4b"@ || family == "flux2klein4bbase"@ || family == "ideogram4"@,
        0 <= k < vaes.len(),
        holds_either(vaes[k], "flux2-vae"@, "flux2_vae"@),
        forall|j: int| 0 <= j < k ==> !holds_either(#[trigger] vaes[j], "flux2-vae"@, "flux2_vae"@),
    ensures
        recommended_vae_spec("diffusion_models"@, family, vaes) == Some(vaes[k]),
{
    reveal_strlit("flux2d");
    reveal_strlit("flux2klein9b");
    reveal_strlit("flux2klein9bbase");
    reveal_strlit("flux2klein4b");
    reveal_strlit("flux2klein4bbase");
    reveal_strlit("anima");
    reveal_strlit("qwen");
    reveal_strlit("qwen_edit");
    reveal_strlit("qwen_edit_plus");
    reveal_strlit("wan");
    reveal_strlit("krea2");
    reveal_strlit("ideogram4");
    assert(family[0] == 'f' || family[0] == 'i');
    assert(!qwen_vae_family(family) && family != "krea2"@);
    let ms = seq!["flux2-vae"@, "flux2_vae"@];
    assert forall|j: int| 0 <= j < vaes.len() implies names_a_marker(#[trigger] vaes[j], ms) == holds_either(vaes[j], "flux2-vae"@, "flux2_vae"@) by {
        lemma_two_markers(vaes[j], "flux2-vae"@, "flux2_vae"@);
    }
    lemma_first_vae_at(vaes, ms, k);
}

/// An Anima, Wan or Qwen Image diffusion model, or a Krea 2 one, is paired
/// with the first installed VAE whose name holds `qwen`.
pub proof fn qwen_vae_models_get_the_qwen_vae(family: Seq<char>, vaes: Seq<Seq<char>>, k: int)
    requires
        family == "anima"@ || family == "qwen"@ || family == "qwen_edit"@ || family == "qwen_edit_plus"@
            || family == "wan"@ || family == "krea2"@,
        0 <= k < vaes.len(),
        seq_contains(unicode_lower(vaes[k]), "qwen"@),
        forall|j: int| 0 <= j < k ==> !seq_contains(unicode_lower(#[trigger] vaes[j]), "qwen"@),
    ensures
        recommended_vae_spec("diffusion_models"@, family, vaes) == Some(vaes[k]),
{
    let ms = seq!["qwen"@];
    assert forall|j: int| 0 <= j < vaes.len() implies names_a_marker(#[trigger] vaes[j], ms) == seq_contains(unicode_lower(vaes[j]), "qwen"@) by {
        lemma_one_marker(vaes[j], "qwen"@);
    }
    lemma_first_vae_at(vaes, ms, k);
}

/// A Flux.1 (or Chroma) diffusion model, or a Z-Image one, is paired with
/// the first installed VAE whose name holds `flux`.
pub proof fn flux1_models_get_the_flux_vae(family: Seq<char>, vaes: Seq<Seq<char>>, k: int)
    requires
        family == "flux"@ || family == "flux1d"@ || family == "flux1s"@ || family == "flux1krea"@
            || family == "flux1kontext"@ || family == "chroma"@ || family == "zib"@ || family == "zit"@,
        0 <= k < vaes.len(),
        seq_contains(unicode_lower(vaes[k]), "flux"@),
        forall|j: int| 0 <= j < k ==> !seq_contains(unicode_lower(#[trigger] vaes[j]), "flux"@),
    ensures
        recommended_vae_spec("diffusion_models"@, family, vaes) == Some(vaes[k]),
{
    reveal_strlit("flux");
    reveal_strlit("flux1d");
    reveal_strlit("flux1s");
    reveal_strlit("flux1krea");
    reveal_strlit("flux1kontext");
    reveal_strlit("chroma");
    reveal_strlit("zib");
    reveal_strlit("zit");
    reveal_strlit("flux2d");
    reveal_strlit("flux2klein9b");
    reveal_strlit("flux2klein9bbase");
    reveal_strlit("flux2klein4b");
    reveal_strlit("flux2klein4bbase");
    reveal_strlit("anima");
    reveal_strlit("qwen");
    reveal_strlit("qwen_edit");
    reveal_strlit("qwen_edit_plus");
    reveal_strlit("wan");
    reveal_strlit("krea2");
    reveal_strlit("ideogram4");
    assert(family[0] == 'f' || family[0] == 'c' || family[0] == 'z') by {
        if family == "chroma"@ {
        } else if family == "zib"@ {
        } else if family == "zit"@ {
        } else {
            assert(family[0] == 'f');
        }
    }
    assert(!qwen_vae_family(family) && family != "krea2"@);
    assert(family != "ideogram4"@);
    assert(family.len() < 5 || family[4] != '2') by {
        if family == "chroma"@ {
        } else if family == "flux1d"@ {
        } else if family == "flux1s"@ {
        } else if family == "flux1krea"@ {
        } else if family == "flux1kontext"@ {
        }
    }
    assert(!flux2_family(family));
    let ms = seq!["flux"@];
    assert forall|j: int| 0 <= j < vaes.len() implies names_a_marker(#[trigger] vaes[j], ms) == seq_contains(unicode_lower(vaes[j]), "flux"@) by {
        lemma_one_marker(vaes[j], "flux"@);
    }
    lemma_first_vae_at(vaes, ms, k);
}

proof fn lemma_lacks_char(s: Seq<char>, p: Seq<char>, k: int)
    requires
        0 <= k < p.len(),
        forall|i: int| 0 <= i < s.len() ==> s[i] != p[k],
    ensures
        !seq_contains(s, p),
{
    if seq_contains(s, p) {
        let i = choose|i: int| occurs_at(s, p, i);
        assert(s.subrange(i, i + p.len())[k] == s[i + k]);
    }
}

/// The exact CivitAI base names of the Flux models each stand for their own
/// family, in any case once trimmed: the Flux.2 Klein sizes and their base
/// variants, Flux.2 dev, and Flux.1 Krea, schnell and dev.
pub proof fn flux_base_names_name_their_family(b: Seq<char>)
    ensures
        unicode_lower(trim(b)) == "flux.2 klein 9b-base"@ ==> family_from_base_model_spec(b) == "flux2klein9bbase"@,
        unicode_lower(trim(b)) == "flux.2 klein 9b"@ ==> family_from_base_model_spec(b) == "flux2klein9b"@,
        unicode_lower(trim(b)) == "flux.2 klein 4b-base"@ ==> family_from_base_model_spec(b) == "flux2klein4bbase"@,
        unicode_lower(trim(b)) == "flux.2 klein 4b"@ ==> family_from_base_model_spec(b) == "flux2klein4b"@,
        unicode_lower(trim(b)) == "flux.2 d"@ ==> family_from_base_model_spec(b) == "flux2d"@,
        unicode_lower(trim(b)) == "flux.1 krea"@ ==> family_from_base_model_spec(b) == "flux1krea"@,
        unicode_lower(trim(b)) == "flux.1 s"@ ==> family_from_base_model_spec(b) == "flux1s"@,
        unicode_lower(trim(b)) == "flux.1 d"@ ==> family_from_base_model_spec(b) == "flux1d"@,
{
    reveal_strlit("flux.2 klein 9b-base");
    reveal_strlit("flux.2 klein 9b");
    reveal_strlit("flux.2 klein 4b-base");
    reveal_strlit("flux.2 klein 4b");
    reveal_strlit("flux.2 d");
    reveal_strlit("flux.1 krea");
    reveal_strlit("flux.1 s");
    reveal_strlit("flux.1 d");
    reveal_strlit("nanosaur");
    let bm = unicode_lower(trim(b));
    let n = "nanosaur"@;
    assert(n[3] == 'o');
    if bm == "flux.2 klein 9b-base"@ || bm == "flux.2 klein 9b"@ || bm == "flux.2 klein 4b-base"@
        || bm == "flux.2 klein 4b"@ || bm == "flux.2 d"@ || bm == "flux.1 krea"@ || bm == "flux.1 s"@
        || bm == "flux.1 d"@ {
        assert forall|i: int| 0 <= i < bm.len() implies bm[i] != n[3] by {}
        lemma_lacks_char(bm, n, 3);
        assert(bm.len() > 0);
    }
    assert("flux.2 klein 9b-base"@[13] != "flux.2 klein 4b-base"@[13]);
    assert("flux.2 klein 9b"@[13] != "flux.2 klein 4b"@[13]);
    assert("flux.2 d"@[5] != "flux.1 s"@[5]);
    assert("flux.2 d"@[5] != "flux.1 d"@[5]);
    assert("flux.1 s"@[7] != "flux.1 d"@[7]);
}

/// Whatever the family, the VAE recommended for a bare diffusion model is
/// one of the installed VAEs, and there is one exactly when the model is a
/// diffusion model and some VAE is installed.
pub proof fn recommended_vae_is_installed(category: Seq<char>, family: Seq<char>, vaes: Seq<Seq<char>>)
    ensures
        recommended_vae_spec(category, family, vaes) is Some <==> (category == "diffusion_models"@ && vaes.len() > 0),
        recommended_vae_spec(category, family, vaes) matches Some(v) ==> vaes.contains(v),
{
    if category == "diffusion_models"@ && vaes.len() > 0 {
        lemma_first_vae_member(vaes, seq!["qwen"@]);
        lemma_first_vae_member(vaes, seq!["flux2-vae"@, "flux2_vae"@]);
        lemma_first_vae_member(vaes, seq!["flux"@]);
        lemma_first_vae_member(vaes, seq!["sdxl"@]);
        assert(vaes[0] == vaes[0]);
    }
}

proof fn lemma_first_vae_member(names: Seq<Seq<char>>, markers: Seq<Seq<char>>)
    ensures
        first_vae_spec(names, markers) matches Some(v) ==> names.contains(v),
    decreases names.len(),
{
    if names.len() > 0 {
        if names_a_marker(names[0], markers) {
            assert(names[0] == names[0]);
        } else {
            lemma_first_vae_member(names.skip(1), markers);
            match first_vae_spec(names.skip(1), markers) {
                Some(v) => {
                    let i = choose|i: int| 0 <= i < names.skip(1).len() && names.skip(1)[i] == v;
                    assert(names[i + 1] == v);
                },
                None => {},
            }
        }
    }
}

/// An SDXL, Pony, Illustrious or SD 1.5 diffusion model is paired with the
/// first installed VAE whose name holds `sdxl`.
pub proof fn sdxl_family_models_get_the_sdxl_vae(family: Seq<char>, vaes: Seq<Seq<char>>, k: int)
    requires
        family == "sdxl"@ || family == "pony"@ || family == "illustrious"@ || family == "sd15"@,
        0 <= k < vaes.len(),
        seq_contains(unicode_lower(vaes[k]), "sdxl"@),
        forall|j: int| 0 <= j < k ==> !seq_contains(unicode_lower(#[trigger] vaes[j]), "sdxl"@),
    ensures
        recommended_vae_spec("diffusion_models"@, family, vaes) == Some(vaes[k]),
{
    reveal_strlit("sdxl");
    reveal_strlit("pony");
    reveal_strlit("illustrious");
    reveal_strlit("sd15");
    reveal_strlit("flux");
    reveal_strlit("flux1d");
    reveal_strlit("flux1s");
    reveal_strlit("flux1krea");
    reveal_strlit("flux1kontext");
    reveal_strlit("chroma");
    reveal_strlit("zib");
    reveal_strlit("zit");
    reveal_strlit("flux2d");
    reveal_strlit("flux2klein9b");
    reveal_strlit("flux2klein9bbase");
    reveal_strlit("flux2klein4b");
    reveal_strlit("flux2klein4bbase");
    reveal_strlit("anima");
    reveal_strlit("qwen");
    reveal_strlit("qwen_edit");
    reveal_strlit("qwen_edit_plus");
    reveal_strlit("wan");
    reveal_strlit("krea2");
    reveal_strlit("ideogram4");
    assert(family[0] == 's' || family[0] == 'p' || family[0] == 'i') by {
        if family == "pony"@ {
        } else if family == "illustrious"@ {
        } else if family == "sd15"@ {
        } else {
            assert(family[0] == 's');
        }
    }
    assert(family != "ideogram4"@) by {
        if family[0] == 'i' {
            assert(family == "illustrious"@);
            assert(family.len() != "ideogram4"@.len());
        }
    }
    assert(!qwen_vae_family(family) && family != "krea2"@);
    assert(!flux2_family(family) && !flux1_family(family) && family != "zib"@ && family != "zit"@);
    let ms = seq!["sdxl"@];
    assert forall|j: int| 0 <= j < vaes.len() implies names_a_marker(#[trigger] vaes[j], ms) == seq_contains(unicode_lower(vaes[j]), "sdxl"@) by {
        lemma_one_marker(vaes[j], "sdxl"@);
    }
    lemma_first_vae_at(vaes, ms, k);
}

} // verus!
