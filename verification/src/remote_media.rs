//! Remote and embedded media: the URLs the desktop proxies may fetch, data
//! URLs for images, and the sidecar thumbnails that sit next to a model.
use vstd::prelude::*;
use crate::paths::{
    extension_of, file_stem_of, joined_path, parent_path, path_extension, path_file_stem,
    path_join, path_parent,
};
use crate::text::{
    chars_of, copy_range, push_all, push_str, starts, starts_with, strip_start_char, string_of,
};

verus! {

// ---------------------------------------------------------------------------
// Proxied fetches
// ---------------------------------------------------------------------------

/// `path` without its leading slashes.
fn without_leading_slashes(path: &str) -> (r: Vec<char>)
    ensures
        r@ == strip_start_char(path@, '/'),
{
    let c = chars_of(path);
    let mut a: usize = 0;
    assert(c@.skip(0) =~= c@);
    while a < c.len() && c[a] == '/'
        invariant
            a <= c.len(),
            c@ == path@,
            strip_start_char(path@, '/') == strip_start_char(c@.skip(a as int), '/'),
        decreases c.len() - a,
    {
        assert(c@.skip(a as int).drop_first() =~= c@.skip(a + 1));
        a += 1;
    }
    let r = copy_range(&c, a, c.len());
    assert(r@ =~= c@.skip(a as int));
    proof {
        if a < c.len() {
            assert(c@.skip(a as int)[0] == c@[a as int]);
        }
    }
    r
}

/// The CDN address of a path (leading slashes dropped).
pub open spec fn cdn_url_spec(path: Seq<char>) -> Seq<char> {
    "https://cdn.mooshieblob.com/"@ + strip_start_char(path, '/')
}

/// The CDN URL fetched for `path`.
pub fn cdn_url(path: &str) -> (r: String)
    ensures
        r@ == cdn_url_spec(path@),
{
    let mut v = chars_of("https://cdn.mooshieblob.com/");
    let clean = without_leading_slashes(path);
    push_all(&mut v, &clean);
    string_of(&v)
}

/// The animadex.net address of a path, refused unless the path (leading
/// slashes dropped) lies under the characters API: the proxy is no open one.
pub open spec fn animadex_url_spec(path: Seq<char>) -> Result<Seq<char>, Seq<char>> {
    let clean = strip_start_char(path, '/');
    if starts_with(clean, "api/characters/"@) {
        Ok("https://animadex.net/"@ + clean)
    } else {
        Err("animadex proxy: path must start with api/characters/"@)
    }
}

/// The animadex.net URL fetched for `path`.
pub fn animadex_url(path: &str) -> (r: Result<String, String>)
    ensures
        match r {
            Ok(u) => animadex_url_spec(path@) == Ok::<Seq<char>, Seq<char>>(u@),
            Err(e) => animadex_url_spec(path@) == Err::<Seq<char>, Seq<char>>(e@),
        },
{
    let clean = without_leading_slashes(path);
    if !starts(&clean, "api/characters/") {
        return Err(string_of(&chars_of("animadex proxy: path must start with api/characters/")));
    }
    let mut v = chars_of("https://animadex.net/");
    push_all(&mut v, &clean);
    Ok(string_of(&v))
}

/// The animadex proxy only ever reaches the characters API of animadex.net.
pub proof fn animadex_fetches_stay_in_the_characters_api(path: Seq<char>)
    ensures
        animadex_url_spec(path) matches Ok(u) ==> starts_with(u, "https://animadex.net/api/characters/"@),
{
    if animadex_url_spec(path) is Ok {
        let clean = strip_start_char(path, '/');
        let u = "https://animadex.net/"@ + clean;
        reveal_strlit("https://animadex.net/");
        reveal_strlit("api/characters/");
        reveal_strlit("https://animadex.net/api/characters/");
        assert(u.subrange(0, 36) =~= "https://animadex.net/api/characters/"@) by {
            assert(clean.subrange(0, 15) == "api/characters/"@);
            assert forall|k: int| 0 <= k < 36 implies u.subrange(0, 36)[k] == "https://animadex.net/api/characters/"@[k] by {
                if k >= 21 {
                    assert(u[k] == clean[k - 21]);
                    assert(clean[k - 21] == clean.subrange(0, 15)[k - 21]);
                }
            }
        }
    }
}

// ---------------------------------------------------------------------------
// Base64 and data URLs
// ---------------------------------------------------------------------------

/// The standard base64 alphabet (RFC 4648): `A`–`Z`, `a`–`z`, `0`–`9`, `+`, `/`.
pub open spec fn b64_char(n: nat) -> char {
    if n < 26 {
        ((n + 65) as u8) as char
    } else if n < 52 {
        ((n + 71) as u8) as char
    } else if n < 62 {
        ((n - 4) as u8) as char
    } else if n == 62 {
        '+'
    } else {
        '/'
    }
}

/// Standard padded base64 (RFC 4648, section 4): each three bytes become
/// four characters of six bits each; a final one or two bytes are padded
/// with `=`.
pub open spec fn base64_spec(b: Seq<u8>) -> Seq<char>
    decreases b.len(),
{
    if b.len() == 0 {
        Seq::<char>::empty()
    } else if b.len() == 1 {
        seq![b64_char((b[0] / 4) as nat), b64_char(((b[0] % 4) * 16) as nat), '=', '=']
    } else if b.len() == 2 {
        seq![
            b64_char((b[0] / 4) as nat),
            b64_char(((b[0] % 4) * 16 + b[1] / 16) as nat),
            b64_char(((b[1] % 16) * 4) as nat),
            '=',
        ]
    } else {
        seq![
            b64_char((b[0] / 4) as nat),
            b64_char(((b[0] % 4) * 16 + b[1] / 16) as nat),
            b64_char(((b[1] % 16) * 4 + b[2] / 64) as nat),
            b64_char((b[2] % 64) as nat),
        ] + base64_spec(b.skip(3))
    }
}

/// Whether the encoded length of `n` bytes fits in memory addresses, as the
/// `base64` crate demands before encoding.
pub open spec fn base64_len_fits(n: nat) -> bool {
    (n / 3) * 4 + (if n % 3 > 0 { 4nat } else { 0nat }) <= usize::MAX
}

/// `base64::engine::general_purpose::STANDARD.encode`. The contract states
/// the standard padded encoding the crate's source implements with the
/// standard alphabet; the crate panics when the encoded length overflows
/// `usize`, which the precondition rules out.
#[verifier::external_body]
fn base64_standard(data: &[u8]) -> (r: String)
    requires
        base64_len_fits(data@.len()),
    ensures
        r@ == base64_spec(data@),
{
    base64::Engine::encode(&base64::engine::general_purpose::STANDARD, data)
}

/// Bytes as standard base64 text.
pub fn encode_base64(data: &[u8]) -> (r: String)
    requires
        base64_len_fits(data@.len()),
    ensures
        r@ == base64_spec(data@),
{
    base64_standard(data)
}

/// A `data:` URL holding bytes of the given MIME type.
pub open spec fn data_url_spec(mime: Seq<char>, data: Seq<u8>) -> Seq<char> {
    "data:"@ + mime + ";base64,"@ + base64_spec(data)
}

/// The `data:` URL of bytes of the given MIME type.
pub fn data_url(mime: &str, data: &[u8]) -> (r: String)
    requires
        base64_len_fits(data@.len()),
    ensures
        r@ == data_url_spec(mime@, data@),
{
    let mut v = chars_of("data:");
    push_str(&mut v, mime);
    push_str(&mut v, ";base64,");
    let enc = base64_standard(data);
    push_str(&mut v, enc.as_str());
    string_of(&v)
}

// ---------------------------------------------------------------------------
// Sidecar thumbnails
// ---------------------------------------------------------------------------

/// The image names a model's sidecar thumbnail may have, in the order they
/// are tried.
pub open spec fn sidecar_names(stem: Seq<char>) -> Seq<Seq<char>> {
    seq![stem + ".png"@, stem + ".jpg"@, stem + ".jpeg"@, stem + ".preview.png"@, stem + ".preview.jpg"@]
}

/// The MIME type a sidecar image is served with, from its extension.
pub open spec fn sidecar_mime(path: Seq<char>) -> Seq<char> {
    match extension_of(path) {
        Some(e) => if e == "jpg"@ || e == "jpeg"@ { "image/jpeg"@ } else { "image/png"@ },
        None => "image/png"@,
    }
}

/// Where a model's sidecar thumbnail may be, each with its MIME type: the
/// model's folder joined with each sidecar name. None when the model path
/// has no folder or no stem.
pub open spec fn sidecar_candidates_spec(model_path: Seq<char>) -> Option<Seq<(Seq<char>, Seq<char>)>> {
    match (parent_path(model_path), file_stem_of(model_path)) {
        (Some(dir), Some(stem)) => Some(sidecar_names(stem).map_values(
            |n: Seq<char>| (joined_path(dir, n), sidecar_mime(joined_path(dir, n))),
        )),
        _ => None,
    }
}

/// The sidecar thumbnails to look for next to a model file, in order.
pub fn sidecar_thumbnail_candidates(model_path: &str) -> (r: Option<Vec<(String, &'static str)>>)
    ensures
        match r {
            Some(v) => sidecar_candidates_spec(model_path@)
                == Some(v@.map_values(|c: (String, &'static str)| (c.0@, c.1@))),
            None => sidecar_candidates_spec(model_path@) is None,
        },
{
    let dir = match path_parent(model_path) {
        Some(d) => d,
        None => return None,
    };
    let stem = match path_file_stem(model_path) {
        Some(s) => s,
        None => return None,
    };
    let suffixes = [".png", ".jpg", ".jpeg", ".preview.png", ".preview.jpg"];
    let ghost names = sidecar_names(stem@);
    let mut out: Vec<(String, &'static str)> = Vec::new();
    let mut i: usize = 0;
    while i < 5
        invariant
            i <= 5,
            names == sidecar_names(stem@),
            crate::text::str_views(suffixes@) == seq![".png"@, ".jpg"@, ".jpeg"@, ".preview.png"@, ".preview.jpg"@],
            out@.map_values(|c: (String, &'static str)| (c.0@, c.1@)) == names.take(i as int).map_values(
                |n: Seq<char>| (joined_path(dir@, n), sidecar_mime(joined_path(dir@, n))),
            ),
        decreases 5 - i,
    {
        let mut n = chars_of(stem.as_str());
        push_str(&mut n, suffixes[i]);
        assert(crate::text::str_views(suffixes@)[i as int] == suffixes@[i as int]@);
        assert(n@ == names[i as int]);
        let p = path_join(dir.as_str(), string_of(&n).as_str());
        let mime: &'static str = match path_extension(p.as_str()) {
            Some(e) => {
                let ec = chars_of(e.as_str());
                if crate::text::spells(&ec, "jpg") || crate::text::spells(&ec, "jpeg") { "image/jpeg" } else { "image/png" }
            },
            None => "image/png",
        };
        assert(p@ == joined_path(dir@, names[i as int]));
        assert(mime@ == sidecar_mime(p@));
        let ghost before = out@;
        let ghost pv = p@;
        out.push((p, mime));
        assert(out@.map_values(|c: (String, &'static str)| (c.0@, c.1@)) =~= before.map_values(|c: (String, &'static str)| (c.0@, c.1@)).push((pv, mime@)));
        assert(names.take(i + 1).map_values(
            |n: Seq<char>| (joined_path(dir@, n), sidecar_mime(joined_path(dir@, n))),
        ) =~= names.take(i as int).map_values(
            |n: Seq<char>| (joined_path(dir@, n), sidecar_mime(joined_path(dir@, n))),
        ).push((pv, mime@)));
        assert(out@.map_values(|c: (String, &'static str)| (c.0@, c.1@)) =~= names.take(i + 1).map_values(
            |n: Seq<char>| (joined_path(dir@, n), sidecar_mime(joined_path(dir@, n))),
        ));
        i += 1;
    }
    assert(names.take(5) =~= names);
    Some(out)
}

} // verus!
