//! CivitAI references: image ids typed or pasted by the user, and the
//! image URLs the backend may fetch with the user's CivitAI token (HTTPS on
//! civitai.com or a subdomain of it, nothing else).
use vstd::prelude::*;
use crate::text::{
    chars_of, copy_range, ends_with, find, find_spec, lower_chars, lower_seq, parse_u64,
    parse_unsigned, push_all, push_str, spells, string_of, trim, trim_chars,
};

verus! {

/// What `url::Url::parse` makes of a text: the parsed URL's serialization,
/// scheme and host (`as_str()`, `scheme()`, `host_str()`), or the message of
/// the parse error.
pub uninterp spec fn url_parse_outcome(s: Seq<char>) -> Result<(Seq<char>, Seq<char>, Option<Seq<char>>), Seq<char>>;

/// `url::Url::parse`, with the parsed URL's `as_str()`, `scheme()` and
/// `host_str()`, or the parse error's message. The contract claims only that
/// the outcome is the name above applied to the text.
#[verifier::external_body]
fn parse_url(s: &str) -> (r: Result<(String, String, Option<String>), String>)
    ensures
        match r {
            Ok((text, scheme, host)) => url_parse_outcome(s@) == Ok::<(Seq<char>, Seq<char>, Option<Seq<char>>), Seq<char>>(
                (text@, scheme@, match host { Some(h) => Some(h@), None => None }),
            ),
            Err(e) => url_parse_outcome(s@) == Err::<(Seq<char>, Seq<char>, Option<Seq<char>>), Seq<char>>(e@),
        },
{
    match url::Url::parse(s) {
        Ok(u) => {
            let scheme = u.scheme().to_string();
            let host = u.host_str().map(|h| h.to_string());
            Ok((u.as_str().to_string(), scheme, host))
        },
        Err(e) => Err(e.to_string()),
    }
}

/// What `format!("{:?}", s)` writes for a string: Rust's quoted, escaped
/// debug form.
pub uninterp spec fn debug_quoted(s: Seq<char>) -> Seq<char>;

/// `<str as Debug>::fmt`. The contract claims only that the result is the
/// name above applied to the text.
#[verifier::external_body]
fn debug_str(s: &str) -> (r: String)
    ensures
        r@ == debug_quoted(s@),
{
    format!("{:?}", s)
}

// ---------------------------------------------------------------------------
// Image ids
// ---------------------------------------------------------------------------

/// Whether `c` ends an image id inside a URL path.
pub open spec fn id_terminator(c: char) -> bool {
    c == '/' || c == '?' || c == '#'
}

/// The text up to the first `/`, `?` or `#`.
pub open spec fn until_terminator(s: Seq<char>) -> Seq<char>
    decreases s.len(),
{
    if s.len() == 0 {
        s
    } else if id_terminator(s[0]) {
        Seq::<char>::empty()
    } else {
        seq![s[0]] + until_terminator(s.skip(1))
    }
}

/// The CivitAI image id a reference names: the whole trimmed reference as a
/// number, or the number after `/images/` (up to `/`, `?` or `#`, trimmed)
/// in an image page URL.
pub open spec fn civitai_image_id_spec(image_ref: Seq<char>) -> Option<nat> {
    let t = trim(image_ref);
    match parse_unsigned(t, u64::MAX as nat) {
        Some(id) => Some(id),
        None => match find_spec(t, "/images/"@) {
            Some(pos) => parse_unsigned(trim(until_terminator(t.skip(pos + 8))), u64::MAX as nat),
            None => None,
        },
    }
}

/// `Could not parse CivitAI image id from "{image_ref}"`.
pub open spec fn bad_image_ref_message(image_ref: Seq<char>) -> Seq<char> {
    "Could not parse CivitAI image id from "@ + debug_quoted(image_ref)
}

fn until_terminator_of(s: &[char]) -> (r: Vec<char>)
    ensures
        r@ == until_terminator(s@),
{
    let n = s.len();
    let mut k: usize = 0;
    assert(s@.take(0) + s@.skip(0) =~= s@.skip(0));
    assert(s@.skip(0) =~= s@);
    while k < n && !(s[k] == '/' || s[k] == '?' || s[k] == '#')
        invariant
            k <= n == s.len(),
            until_terminator(s@) == s@.take(k as int) + until_terminator(s@.skip(k as int)),
        decreases n - k,
    {
        assert(s@.skip(k as int).skip(1) =~= s@.skip(k + 1));
        assert(s@.take(k + 1) =~= s@.take(k as int) + seq![s@[k as int]]);
        k += 1;
    }
    proof {
        if k < n {
            assert(until_terminator(s@.skip(k as int)) == Seq::<char>::empty());
        } else {
            assert(s@.skip(k as int) =~= Seq::<char>::empty());
        }
    }
    let r = copy_range(s, 0, k);
    assert(r@ =~= until_terminator(s@));
    r
}

/// Parse a CivitAI image id from a numeric string or an
/// `https://civitai.com/images/{id}` URL.
pub fn parse_civitai_image_id(image_ref: &str) -> (r: Result<u64, String>)
    ensures
        match r {
            Ok(id) => civitai_image_id_spec(image_ref@) == Some(id as nat),
            Err(e) => civitai_image_id_spec(image_ref@) is None && e@ == bad_image_ref_message(image_ref@),
        },
{
    proof {
        reveal_strlit("/images/");
    }
    let raw = chars_of(image_ref);
    let t = trim_chars(&raw);
    match parse_u64(&t) {
        Some(id) => return Ok(id),
        None => {},
    }
    let marker = chars_of("/images/");
    match find(&t, &marker) {
        Some(pos) => {
            assert(crate::text::occurs_at(t@, marker@, pos as int));
            let tn = t.len();
            let rest = copy_range(&t, pos + 8, tn);
            assert(rest@ =~= t@.skip(pos + 8));
            let head = until_terminator_of(&rest);
            let id_text = trim_chars(&head);
            match parse_u64(&id_text) {
                Some(id) => return Ok(id),
                None => {},
            }
        },
        None => {},
    }
    let mut msg: Vec<char> = Vec::new();
    push_str(&mut msg, "Could not parse CivitAI image id from ");
    let quoted = debug_str(image_ref);
    push_all(&mut msg, &chars_of(quoted.as_str()));
    Err(string_of(&msg))
}

/// Public accessor for `parse_civitai_image_id`.
pub fn parse_civitai_image_id_pub(image_ref: &str) -> (r: Result<u64, String>)
    ensures
        match r {
            Ok(id) => civitai_image_id_spec(image_ref@) == Some(id as nat),
            Err(e) => civitai_image_id_spec(image_ref@) is None && e@ == bad_image_ref_message(image_ref@),
        },
{
    parse_civitai_image_id(image_ref)
}

// ---------------------------------------------------------------------------
// Image URLs
// ---------------------------------------------------------------------------

/// civitai.com or any subdomain of it, in any ASCII case. The leading dot
/// keeps look-alikes such as `civitai.com.evil.test` out.
pub open spec fn allowed_civitai_host(host: Seq<char>) -> bool {
    let h = lower_seq(host);
    h == "civitai.com"@ || ends_with(h, ".civitai.com"@)
}

pub fn is_allowed_civitai_image_host(host: &str) -> (r: bool)
    ensures
        r == allowed_civitai_host(host@),
{
    let h = lower_chars(&chars_of(host));
    spells(&h, "civitai.com") || crate::text::ends(&h, ".civitai.com")
}

/// Why an image URL is refused, or what is fetched when it is accepted: it
/// must parse (after trimming), use HTTPS, and name an allowed CivitAI host;
/// the accepted URL is the parsed one as `url` serializes it, with its host.
pub open spec fn civitai_url_spec(url: Seq<char>) -> Result<(Seq<char>, Seq<char>), Seq<char>> {
    match url_parse_outcome(trim(url)) {
        Err(e) => Err("Invalid CivitAI image URL: "@ + e),
        Ok((text, scheme, host)) => if scheme != "https"@ {
            Err("CivitAI image URL must use HTTPS"@)
        } else {
            match host {
                None => Err("CivitAI image URL is missing a host"@),
                Some(h) => if allowed_civitai_host(h) {
                    Ok((text, h))
                } else {
                    Err("Only CivitAI image URLs can be used as sidecar thumbnails"@)
                },
            }
        },
    }
}

fn text(lit: &str) -> (r: String)
    ensures
        r@ == lit@,
{
    string_of(&chars_of(lit))
}

/// Parse an image URL the backend may fetch with the user's CivitAI token:
/// the URL to fetch, as `url` serializes it, and its host.
pub fn parse_civitai_image_url(url: &str) -> (r: Result<(String, String), String>)
    ensures
        match r {
            Ok((u, h)) => civitai_url_spec(url@) == Ok::<(Seq<char>, Seq<char>), Seq<char>>((u@, h@)),
            Err(e) => civitai_url_spec(url@) == Err::<(Seq<char>, Seq<char>), Seq<char>>(e@),
        },
{
    let t = string_of(&trim_chars(&chars_of(url)));
    let (parsed, scheme, host) = match parse_url(t.as_str()) {
        Ok(x) => x,
        Err(e) => {
            let mut msg: Vec<char> = Vec::new();
            push_str(&mut msg, "Invalid CivitAI image URL: ");
            push_all(&mut msg, &chars_of(e.as_str()));
            return Err(string_of(&msg));
        },
    };
    let sc = chars_of(scheme.as_str());
    if !spells(&sc, "https") {
        return Err(text("CivitAI image URL must use HTTPS"));
    }
    let h = match host {
        Some(h) => h,
        None => return Err(text("CivitAI image URL is missing a host")),
    };
    if !is_allowed_civitai_image_host(h.as_str()) {
        return Err(text("Only CivitAI image URLs can be used as sidecar thumbnails"));
    }
    Ok((parsed, h))
}

/// An accepted image URL always uses HTTPS and names civitai.com or one of
/// its subdomains: the backend never sends the token anywhere else.
pub proof fn accepted_urls_stay_on_civitai(url: Seq<char>)
    ensures
        civitai_url_spec(url) is Ok ==> (url_parse_outcome(trim(url)) matches Ok((_, scheme, Some(h)))
            && scheme == "https"@
            && (lower_seq(h) == "civitai.com"@ || ends_with(lower_seq(h), ".civitai.com"@))),
{
}

// ---------------------------------------------------------------------------
// Fetching an image with the user's token
// ---------------------------------------------------------------------------

/// The CivitAI token goes only to an allowed CivitAI host, and only when the
/// user configured one (it is sent as configured).
pub open spec fn request_token_spec(host: Option<Seq<char>>, api_key: Option<Seq<char>>) -> Option<Seq<char>> {
    match (host, api_key) {
        (Some(h), Some(k)) => if allowed_civitai_host(h) && trim(k).len() > 0 { Some(k) } else { None },
        _ => None,
    }
}

/// The bearer token to send with one request of an image fetch, given the
/// host the request goes to.
pub fn image_request_token(host: Option<&str>, api_key: Option<&str>) -> (r: Option<String>)
    ensures
        match r {
            Some(k) => request_token_spec(match host { Some(h) => Some(h@), None => None }, match api_key { Some(k) => Some(k@), None => None }) == Some(k@),
            None => request_token_spec(match host { Some(h) => Some(h@), None => None }, match api_key { Some(k) => Some(k@), None => None }) is None,
        },
{
    match (host, api_key) {
        (Some(h), Some(k)) => {
            if is_allowed_civitai_image_host(h) && trim_chars(&chars_of(k)).len() > 0 {
                Some(text(k))
            } else {
                None
            }
        },
        _ => None,
    }
}

/// The token never leaves CivitAI: whenever one is sent, the request's host
/// is civitai.com or one of its subdomains.
pub proof fn token_goes_only_to_civitai(host: Option<Seq<char>>, api_key: Option<Seq<char>>)
    ensures
        request_token_spec(host, api_key) is Some ==> (host matches Some(h)
            && (lower_seq(h) == "civitai.com"@ || ends_with(lower_seq(h), ".civitai.com"@))),
{
}

/// What `url::Url::join` makes of a location against a base URL text (the
/// base parsed first): the joined URL's text, scheme and host, or the error's
/// message.
pub uninterp spec fn url_join_outcome(base: Seq<char>, location: Seq<char>) -> Result<(Seq<char>, Seq<char>, Option<Seq<char>>), Seq<char>>;

/// `url::Url::parse(base)` then `Url::join(location)`, with the result's
/// `as_str()`, `scheme()` and `host_str()`, or the error's message. The
/// contract claims only that the outcome is the name above applied to the
/// two texts.
#[verifier::external_body]
fn join_url(base: &str, location: &str) -> (r: Result<(String, String, Option<String>), String>)
    ensures
        match r {
            Ok((u, scheme, host)) => url_join_outcome(base@, location@) == Ok::<(Seq<char>, Seq<char>, Option<Seq<char>>), Seq<char>>(
                (u@, scheme@, match host { Some(h) => Some(h@), None => None }),
            ),
            Err(e) => url_join_outcome(base@, location@) == Err::<(Seq<char>, Seq<char>, Option<Seq<char>>), Seq<char>>(e@),
        },
{
    match url::Url::parse(base).and_then(|b| b.join(location)) {
        Ok(u) => {
            let scheme = u.scheme().to_string();
            let host = u.host_str().map(|h| h.to_string());
            Ok((u.as_str().to_string(), scheme, host))
        },
        Err(e) => Err(e.to_string()),
    }
}

/// Where an image fetch goes after a redirect: the location joined to the
/// current URL, which must still use HTTPS.
pub open spec fn redirect_spec(current: Seq<char>, location: Seq<char>) -> Result<(Seq<char>, Option<Seq<char>>), Seq<char>> {
    match url_join_outcome(current, location) {
        Err(e) => Err("Image fetch redirect invalid: "@ + e),
        Ok((u, scheme, host)) => if scheme != "https"@ {
            Err("CivitAI image redirect must use HTTPS"@)
        } else {
            Ok((u, host))
        },
    }
}

/// Follow a redirect of an image fetch: the next URL and its host.
pub fn follow_image_redirect(current: &str, location: &str) -> (r: Result<(String, Option<String>), String>)
    ensures
        match r {
            Ok((u, h)) => redirect_spec(current@, location@) == Ok::<(Seq<char>, Option<Seq<char>>), Seq<char>>(
                (u@, match h { Some(x) => Some(x@), None => None }),
            ),
            Err(e) => redirect_spec(current@, location@) == Err::<(Seq<char>, Option<Seq<char>>), Seq<char>>(e@),
        },
{
    match join_url(current, location) {
        Err(e) => {
            let mut v = chars_of("Image fetch redirect invalid: ");
            push_str(&mut v, e.as_str());
            Err(string_of(&v))
        },
        Ok((u, scheme, host)) => {
            if !spells(&chars_of(scheme.as_str()), "https") {
                return Err(text("CivitAI image redirect must use HTTPS"));
            }
            Ok((u, host))
        },
    }
}

/// Redirects never leave HTTPS: every URL an image fetch follows uses it.
pub proof fn redirects_stay_on_https(current: Seq<char>, location: Seq<char>)
    ensures
        redirect_spec(current, location) is Ok ==> (url_join_outcome(current, location) matches Ok((_, scheme, _))
            && scheme == "https"@),
{
}

/// How long a cached image stays fresh: seven days.
pub const IMAGE_CACHE_TTL_SECS: u64 = 604800;

/// Whether a cached image of the given age (seconds since it was written;
/// `None` when unknown) may be served.
pub fn image_cache_fresh(age_secs: Option<u64>) -> (r: bool)
    ensures
        r == (age_secs matches Some(a) && a < IMAGE_CACHE_TTL_SECS),
{
    match age_secs {
        Some(a) => a < IMAGE_CACHE_TTL_SECS,
        None => false,
    }
}

/// The cache file name of an image URL: the lowercase hex SHA-256 of the
/// URL's UTF-8 text.
pub fn image_cache_key(url: &str) -> (r: String)
    ensures
        r@ == crate::text::hex_of(crate::digest::sha256_spec(vstd::utf8::encode_utf8(url@)), false),
{
    let digest = crate::digest::sha256(url.as_bytes());
    string_of(&crate::text::hex_chars(&digest, false))
}

// ---------------------------------------------------------------------------
// Sample images of a model version
// ---------------------------------------------------------------------------

/// A sample image CivitAI lists for a model version.
pub struct LoraCivitaiImage {
    pub url: String,
    pub width: Option<u32>,
    pub height: Option<u32>,
    /// The NSFW label (`None` for level 0 or 1, else `Level{n}`), when
    /// CivitAI gave a level.
    pub nsfw: Option<String>,
}

/// The label of an NSFW level.
pub open spec fn nsfw_label_spec(level: nat) -> Seq<char> {
    if level <= 1 { "None"@ } else { "Level"@ + crate::text::decimal(level) }
}

/// The label shown for an image's NSFW level.
pub fn nsfw_label(level: u64) -> (r: String)
    ensures
        r@ == nsfw_label_spec(level as nat),
{
    if level <= 1 {
        text("None")
    } else {
        let mut v = chars_of("Level");
        push_all(&mut v, &crate::text::decimal_of(level));
        string_of(&v)
    }
}

/// A sample image from the fields CivitAI gave for it (sizes are kept in
/// 32 bits, as the panel stores them).
pub fn civitai_image(url: String, width: Option<u64>, height: Option<u64>, nsfw_level: Option<u64>) -> (r: LoraCivitaiImage)
    ensures
        r.url@ == url@,
        r.width == (match width { Some(w) => Some(w as u32), None => None::<u32> }),
        r.height == (match height { Some(h) => Some(h as u32), None => None::<u32> }),
        match r.nsfw {
            Some(l) => nsfw_level matches Some(n) && l@ == nsfw_label_spec(n as nat),
            None => nsfw_level is None,
        },
{
    LoraCivitaiImage {
        url,
        width: match width { Some(w) => Some(w as u32), None => None },
        height: match height { Some(h) => Some(h as u32), None => None },
        nsfw: match nsfw_level { Some(n) => Some(nsfw_label(n)), None => None },
    }
}

/// What a listed sample image is shown as: its URL, sizes kept in 32 bits,
/// and its NSFW label.
pub open spec fn image_view(i: LoraCivitaiImage) -> (Seq<char>, Option<u32>, Option<u32>, Option<Seq<char>>) {
    (i.url@, i.width, i.height, match i.nsfw { Some(l) => Some(l@), None => None })
}

/// The sample images CivitAI listed, as `(url, width, height, nsfw level)`
/// where the URL is a string; entries without one are skipped.
pub open spec fn listed_images(items: Seq<(Option<String>, Option<u64>, Option<u64>, Option<u64>)>) -> Seq<(Seq<char>, Option<u32>, Option<u32>, Option<Seq<char>>)>
    decreases items.len(),
{
    if items.len() == 0 {
        Seq::empty()
    } else {
        let r = listed_images(items.drop_last());
        let it = items.last();
        match it.0 {
            Some(u) => r.push((
                u@,
                match it.1 { Some(w) => Some(w as u32), None => None },
                match it.2 { Some(h) => Some(h as u32), None => None },
                match it.3 { Some(n) => Some(nsfw_label_spec(n as nat)), None => None },
            )),
            None => r,
        }
    }
}

/// The sample images of CivitAI's answer, from each listed entry's `url`
/// (when it is a string), `width`, `height` and `nsfwLevel`.
pub fn civitai_images(items: Vec<(Option<String>, Option<u64>, Option<u64>, Option<u64>)>) -> (r: Vec<LoraCivitaiImage>)
    ensures
        r@.map_values(|i: LoraCivitaiImage| image_view(i)) == listed_images(items@),
{
    let ghost all = items@;
    let n = items.len();
    let mut out: Vec<LoraCivitaiImage> = Vec::new();
    let mut rest = items;
    let mut k: usize = 0;
    assert(all.take(0) =~= Seq::<(Option<String>, Option<u64>, Option<u64>, Option<u64>)>::empty());
    while rest.len() > 0
        invariant
            k + rest.len() == all.len(),
            all.len() == n,
            forall|j: int| 0 <= j < rest.len() ==> rest@[j] == #[trigger] all[k + j],
            out@.map_values(|i: LoraCivitaiImage| image_view(i)) == listed_images(all.take(k as int)),
        decreases rest.len(),
    {
        let ghost before = rest@;
        let ghost k0 = k as int;
        assert(forall|j: int| 0 <= j < before.len() ==> before[j] == #[trigger] all[k0 + j]);
        let (url, w, h, nl) = rest.remove(0);
        assert(forall|j: int| 0 <= j < rest.len() ==> rest@[j] == before[j + 1]);
        assert(all.take(k + 1).drop_last() =~= all.take(k as int));
        assert(all.take(k + 1).last() == all[k as int]);
        assert(before[0] == all[k0]);
        assert((url, w, h, nl) == all[k as int]);
        match url {
            Some(u) => {
                let ghost ob = out@;
                out.push(civitai_image(u, w, h, nl));
                assert(out@.map_values(|i: LoraCivitaiImage| image_view(i)) =~= ob.map_values(|i: LoraCivitaiImage| image_view(i)).push(image_view(out@[out@.len() - 1])));
            },
            None => {},
        }
        k += 1;
        proof {
            assert forall|j: int| 0 <= j < rest.len() implies rest@[j] == #[trigger] all[k + j] by {
                assert(rest@[j] == before[j + 1]);
                assert(before[j + 1] == all[k0 + (j + 1)]);
            }
        }
    }
    assert(all.take(k as int) =~= all);
    out
}

/// The creator CivitAI names for a model: its `creator.username`, else,
/// when that entry is absent, its `user.username`. Each argument is the
/// entry when present (`Some`), holding its text when it is a string.
pub open spec fn creator_spec(creator: Option<Option<Seq<char>>>, user: Option<Option<Seq<char>>>) -> Option<Seq<char>> {
    match creator {
        Some(v) => v,
        None => match user {
            Some(v) => v,
            None => None,
        },
    }
}

pub open spec fn opt_opt_text(o: Option<Option<String>>) -> Option<Option<Seq<char>>> {
    match o {
        Some(Some(s)) => Some(Some(s@)),
        Some(None) => Some(None),
        None => None,
    }
}

pub fn version_creator(creator: Option<Option<String>>, user: Option<Option<String>>) -> (r: Option<String>)
    ensures
        (match r { Some(s) => Some(s@), None => None }) == creator_spec(opt_opt_text(creator), opt_opt_text(user)),
{
    match creator {
        Some(v) => v,
        None => match user {
            Some(v) => v,
            None => None,
        },
    }
}

/// The thumbnail shown for a model: its sidecar image when it has one, else
/// CivitAI's first sample image.
pub fn choose_thumbnail(sidecar: Option<String>, images: &Vec<LoraCivitaiImage>) -> (r: Option<String>)
    ensures
        match sidecar {
            Some(s) => r matches Some(t) && t@ == s@,
            None => if images.len() > 0 { r matches Some(t) && t@ == images@[0].url@ } else { r is None },
        },
{
    match sidecar {
        Some(s) => Some(s),
        None => if images.len() > 0 { Some(images[0].url.clone()) } else { None },
    }
}


// ---------------------------------------------------------------------------
// Model info panels
// ---------------------------------------------------------------------------

/// The ModelSpec fields of a model file that the info panels show.
pub struct ModelspecFields {
    pub title: Option<String>,
    pub author: Option<String>,
    pub architecture: Option<String>,
    pub trigger_phrase: Option<String>,
    pub description: Option<String>,
    pub tags: Option<String>,
}

/// What CivitAI's lookup by hash said of a model version.
pub struct CivitaiVersionFacts {
    pub version_id: Option<u64>,
    pub model_id: Option<u64>,
    pub base_model: Option<String>,
    /// The parent model's name.
    pub model_name: Option<String>,
    /// The parent model's description, as CivitAI's HTML.
    pub description: Option<String>,
    /// The username of the model's creator (of its `user` when no creator
    /// is given).
    pub creator: Option<String>,
    pub download_count: Option<u64>,
    pub thumbs_up_count: Option<u64>,
    pub trained_words: Vec<String>,
    pub images: Vec<LoraCivitaiImage>,
}

/// LoRA information from its ModelSpec fields, its sidecar thumbnail and
/// CivitAI.
pub struct LoraCivitaiInfo {
    pub filename: String,
    pub hash: Option<String>,
    pub family: Option<String>,
    /// A `data:` URL of the local sidecar, else CivitAI's first image.
    pub thumbnail_url: Option<String>,
    pub civitai_name: Option<String>,
    pub civitai_description: Option<String>,
    pub civitai_model_id: Option<u64>,
    pub civitai_version_id: Option<u64>,
    pub civitai_base_model: Option<String>,
    pub civitai_images: Vec<LoraCivitaiImage>,
    pub civitai_trigger_words: Vec<String>,
    pub civitai_download_count: Option<u64>,
    pub civitai_thumbs_up_count: Option<u64>,
    pub civitai_creator: Option<String>,
    pub modelspec_title: Option<String>,
    pub modelspec_author: Option<String>,
    pub modelspec_architecture: Option<String>,
    pub modelspec_trigger_phrase: Option<String>,
    pub modelspec_description: Option<String>,
    pub modelspec_tags: Option<String>,
}

/// Checkpoint information from its ModelSpec fields, its sidecar thumbnail
/// and CivitAI.
pub struct CheckpointCivitaiInfo {
    pub filename: String,
    pub hash: Option<String>,
    pub display_name: Option<String>,
    pub base_model: Option<String>,
    pub family: Option<String>,
    /// A `data:` URL of the local sidecar, else CivitAI's first image.
    pub thumbnail_url: Option<String>,
    pub civitai_model_id: Option<u64>,
    pub civitai_version_id: Option<u64>,
    pub civitai_description: Option<String>,
    pub civitai_images: Vec<LoraCivitaiImage>,
    pub civitai_download_count: Option<u64>,
    pub civitai_thumbs_up_count: Option<u64>,
    pub civitai_creator: Option<String>,
    pub modelspec_title: Option<String>,
    pub modelspec_author: Option<String>,
    pub modelspec_architecture: Option<String>,
    pub modelspec_description: Option<String>,
    pub modelspec_tags: Option<String>,
}

/// A field of the ModelSpec metadata, when the file had any.
pub open spec fn ms_field(m: Option<ModelspecFields>, f: spec_fn(ModelspecFields) -> Option<String>) -> Option<String> {
    match m {
        Some(x) => f(x),
        None => None,
    }
}

/// A field of CivitAI's answer, when there was one.
pub open spec fn cv_field<T>(c: Option<CivitaiVersionFacts>, f: spec_fn(CivitaiVersionFacts) -> Option<T>) -> Option<T> {
    match c {
        Some(x) => f(x),
        None => None,
    }
}

/// The thumbnail: the sidecar, else CivitAI's first sample image.
pub open spec fn thumbnail_spec(sidecar: Option<String>, c: Option<CivitaiVersionFacts>) -> Option<Seq<char>> {
    match sidecar {
        Some(s) => Some(s@),
        None => match c {
            Some(x) => if x.images@.len() > 0 { Some(x.images@[0].url@) } else { None },
            None => None,
        },
    }
}

pub open spec fn opt_str_view(o: Option<String>) -> Option<Seq<char>> {
    match o {
        Some(s) => Some(s@),
        None => None,
    }
}

fn clone_opt(o: &Option<String>) -> (r: Option<String>)
    ensures
        r == *o,
{
    match o {
        Some(s) => Some(s.clone()),
        None => None,
    }
}

fn split_modelspec(m: Option<ModelspecFields>) -> (r: (Option<String>, Option<String>, Option<String>, Option<String>, Option<String>, Option<String>))
    ensures
        r.0 == ms_field(m, |x: ModelspecFields| x.title),
        r.1 == ms_field(m, |x: ModelspecFields| x.author),
        r.2 == ms_field(m, |x: ModelspecFields| x.architecture),
        r.3 == ms_field(m, |x: ModelspecFields| x.trigger_phrase),
        r.4 == ms_field(m, |x: ModelspecFields| x.description),
        r.5 == ms_field(m, |x: ModelspecFields| x.tags),
{
    match m {
        Some(x) => (x.title, x.author, x.architecture, x.trigger_phrase, x.description, x.tags),
        None => (None, None, None, None, None, None),
    }
}

/// The LoRA info panel: the ModelSpec fields as the file has them, and what
/// CivitAI said of the version (nothing of it when the lookup failed). Its
/// creator is not shown.
pub fn lora_civitai_info(
    filename: String,
    hash: String,
    family: Option<String>,
    sidecar: Option<String>,
    modelspec: Option<ModelspecFields>,
    civitai: Option<CivitaiVersionFacts>,
) -> (r: LoraCivitaiInfo)
    ensures
        r.filename == filename,
        r.hash == Some(hash),
        r.family == family,
        opt_str_view(r.thumbnail_url) == thumbnail_spec(sidecar, civitai),
        r.civitai_name == cv_field(civitai, |x: CivitaiVersionFacts| x.model_name),
        r.civitai_description == cv_field(civitai, |x: CivitaiVersionFacts| x.description),
        r.civitai_model_id == cv_field(civitai, |x: CivitaiVersionFacts| x.model_id),
        r.civitai_version_id == cv_field(civitai, |x: CivitaiVersionFacts| x.version_id),
        r.civitai_base_model == cv_field(civitai, |x: CivitaiVersionFacts| x.base_model),
        r.civitai_images@ == (match civitai { Some(x) => x.images@, None => Seq::<LoraCivitaiImage>::empty() }),
        r.civitai_trigger_words@ == (match civitai { Some(x) => x.trained_words@, None => Seq::<String>::empty() }),
        r.civitai_download_count == cv_field(civitai, |x: CivitaiVersionFacts| x.download_count),
        r.civitai_thumbs_up_count == cv_field(civitai, |x: CivitaiVersionFacts| x.thumbs_up_count),
        r.civitai_creator is None,
        r.modelspec_title == ms_field(modelspec, |x: ModelspecFields| x.title),
        r.modelspec_author == ms_field(modelspec, |x: ModelspecFields| x.author),
        r.modelspec_architecture == ms_field(modelspec, |x: ModelspecFields| x.architecture),
        r.modelspec_trigger_phrase == ms_field(modelspec, |x: ModelspecFields| x.trigger_phrase),
        r.modelspec_description == ms_field(modelspec, |x: ModelspecFields| x.description),
        r.modelspec_tags == ms_field(modelspec, |x: ModelspecFields| x.tags),
{
    let (title, author, architecture, trigger_phrase, description, tags) = split_modelspec(modelspec);
    match civitai {
        Some(c) => {
            let thumbnail_url = choose_thumbnail(sidecar, &c.images);
            LoraCivitaiInfo {
                filename,
                hash: Some(hash),
                family,
                thumbnail_url,
                civitai_name: c.model_name,
                civitai_description: c.description,
                civitai_model_id: c.model_id,
                civitai_version_id: c.version_id,
                civitai_base_model: c.base_model,
                civitai_images: c.images,
                civitai_trigger_words: c.trained_words,
                civitai_download_count: c.download_count,
                civitai_thumbs_up_count: c.thumbs_up_count,
                civitai_creator: None,
                modelspec_title: title,
                modelspec_author: author,
                modelspec_architecture: architecture,
                modelspec_trigger_phrase: trigger_phrase,
                modelspec_description: description,
                modelspec_tags: tags,
            }
        },
        None => LoraCivitaiInfo {
            filename,
            hash: Some(hash),
            family,
            thumbnail_url: sidecar,
            civitai_name: None,
            civitai_description: None,
            civitai_model_id: None,
            civitai_version_id: None,
            civitai_base_model: None,
            civitai_images: Vec::new(),
            civitai_trigger_words: Vec::new(),
            civitai_download_count: None,
            civitai_thumbs_up_count: None,
            civitai_creator: None,
            modelspec_title: title,
            modelspec_author: author,
            modelspec_architecture: architecture,
            modelspec_trigger_phrase: trigger_phrase,
            modelspec_description: description,
            modelspec_tags: tags,
        },
    }
}

/// The base model a checkpoint shows: CivitAI's when it gave one, else the
/// resolved ModelSpec's, else the file's declared architecture.
pub open spec fn checkpoint_base_model(
    resolved_base_model: Option<String>,
    modelspec: Option<ModelspecFields>,
    civitai: Option<CivitaiVersionFacts>,
) -> Option<String> {
    match cv_field(civitai, |x: CivitaiVersionFacts| x.base_model) {
        Some(b) => Some(b),
        None => match resolved_base_model {
            Some(b) => Some(b),
            None => ms_field(modelspec, |x: ModelspecFields| x.architecture),
        },
    }
}

/// The name a checkpoint shows: its ModelSpec title, else CivitAI's model
/// name.
pub open spec fn checkpoint_display_name(modelspec: Option<ModelspecFields>, civitai: Option<CivitaiVersionFacts>) -> Option<String> {
    match ms_field(modelspec, |x: ModelspecFields| x.title) {
        Some(t) => Some(t),
        None => cv_field(civitai, |x: CivitaiVersionFacts| x.model_name),
    }
}

/// The checkpoint info panel. `hash` is `None` when the file could not be
/// hashed, and then there is no CivitAI answer either.
pub fn checkpoint_civitai_info(
    filename: String,
    hash: Option<String>,
    resolved_base_model: Option<String>,
    family: Option<String>,
    sidecar: Option<String>,
    modelspec: Option<ModelspecFields>,
    civitai: Option<CivitaiVersionFacts>,
) -> (r: CheckpointCivitaiInfo)
    ensures
        r.filename == filename,
        r.hash == hash,
        r.display_name == checkpoint_display_name(modelspec, civitai),
        r.base_model == checkpoint_base_model(resolved_base_model, modelspec, civitai),
        r.family == family,
        opt_str_view(r.thumbnail_url) == thumbnail_spec(sidecar, civitai),
        r.civitai_model_id == cv_field(civitai, |x: CivitaiVersionFacts| x.model_id),
        r.civitai_version_id == cv_field(civitai, |x: CivitaiVersionFacts| x.version_id),
        r.civitai_description == cv_field(civitai, |x: CivitaiVersionFacts| x.description),
        r.civitai_images@ == (match civitai { Some(x) => x.images@, None => Seq::<LoraCivitaiImage>::empty() }),
        r.civitai_download_count == cv_field(civitai, |x: CivitaiVersionFacts| x.download_count),
        r.civitai_thumbs_up_count == cv_field(civitai, |x: CivitaiVersionFacts| x.thumbs_up_count),
        r.civitai_creator == cv_field(civitai, |x: CivitaiVersionFacts| x.creator),
        r.modelspec_title == ms_field(modelspec, |x: ModelspecFields| x.title),
        r.modelspec_author == ms_field(modelspec, |x: ModelspecFields| x.author),
        r.modelspec_architecture == ms_field(modelspec, |x: ModelspecFields| x.architecture),
        r.modelspec_description == ms_field(modelspec, |x: ModelspecFields| x.description),
        r.modelspec_tags == ms_field(modelspec, |x: ModelspecFields| x.tags),
{
    let (title, author, architecture, _trigger, description, tags) = split_modelspec(modelspec);
    let fallback_base = match resolved_base_model {
        Some(b) => Some(b),
        None => clone_opt(&architecture),
    };
    match civitai {
        Some(c) => {
            let thumbnail_url = choose_thumbnail(sidecar, &c.images);
            let display_name = match title {
                Some(_) => clone_opt(&title),
                None => c.model_name,
            };
            let base_model = match c.base_model {
                Some(b) => Some(b),
                None => fallback_base,
            };
            CheckpointCivitaiInfo {
                filename,
                hash,
                display_name,
                base_model,
                family,
                thumbnail_url,
                civitai_model_id: c.model_id,
                civitai_version_id: c.version_id,
                civitai_description: c.description,
                civitai_images: c.images,
                civitai_download_count: c.download_count,
                civitai_thumbs_up_count: c.thumbs_up_count,
                civitai_creator: c.creator,
                modelspec_title: title,
                modelspec_author: author,
                modelspec_architecture: architecture,
                modelspec_description: description,
                modelspec_tags: tags,
            }
        },
        None => CheckpointCivitaiInfo {
            filename,
            hash,
            display_name: clone_opt(&title),
            base_model: fallback_base,
            family,
            thumbnail_url: sidecar,
            civitai_model_id: None,
            civitai_version_id: None,
            civitai_description: None,
            civitai_images: Vec::new(),
            civitai_download_count: None,
            civitai_thumbs_up_count: None,
            civitai_creator: None,
            modelspec_title: title,
            modelspec_author: author,
            modelspec_architecture: architecture,
            modelspec_description: description,
            modelspec_tags: tags,
        },
    }
}

} // verus!
