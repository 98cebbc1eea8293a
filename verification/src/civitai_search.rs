//! CivitAI model search: the query URL built from the search form, and the
//! catalog of model architectures offered as a filter.
use vstd::prelude::*;
use crate::sorting::{lemma_lex_total, lemma_lex_transitive, lex_less, lex_lt};
use crate::text::{
    chars_of, decimal, decimal_of, hex_digit_upper, join_chars, join_with, push_all, push_str,
    same_chars, string_of, string_views, trim, trim_chars, views,
};

verus! {

// ---------------------------------------------------------------------------
// Form encoding
// ---------------------------------------------------------------------------

/// Bytes `application/x-www-form-urlencoded` leaves as they are.
pub open spec fn form_unchanged(b: u8) -> bool {
    b == 0x2A || b == 0x2D || b == 0x2E || (0x30 <= b && b <= 0x39) || (0x41 <= b && b <= 0x5A)
        || b == 0x5F || (0x61 <= b && b <= 0x7A)
}

/// The form encoding of bytes: unchanged bytes as themselves, a space as
/// `+`, anything else as `%` and two uppercase hex digits.
pub open spec fn form_encoded(bytes: Seq<u8>) -> Seq<char>
    decreases bytes.len(),
{
    if bytes.len() == 0 {
        Seq::<char>::empty()
    } else {
        let b = bytes.last();
        form_encoded(bytes.drop_last()) + if form_unchanged(b) {
            seq![b as char]
        } else if b == 0x20 {
            seq!['+']
        } else {
            seq!['%', hex_digit_upper((b / 16) as nat), hex_digit_upper((b % 16) as nat)]
        }
    }
}

/// The form encoding of a text's UTF-8 bytes.
pub open spec fn form_encoded_text(text: Seq<char>) -> Seq<char> {
    form_encoded(vstd::utf8::encode_utf8(text))
}

/// `url::form_urlencoded::byte_serialize` over the UTF-8 bytes of `text`,
/// collected. The contract states what the crate's source does: bytes
/// `*-._`, digits and ASCII letters pass unchanged, a space becomes `+`, and
/// every other byte becomes `%XX` with uppercase hex digits.
#[verifier::external_body]
fn form_encode(text: &str) -> (r: String)
    ensures
        r@ == form_encoded_text(text@),
{
    url::form_urlencoded::byte_serialize(text.as_bytes()).collect()
}

// ---------------------------------------------------------------------------
// Search URL
// ---------------------------------------------------------------------------

/// The search form as the frontend sends it. `status` is accepted but not
/// sent: the public API has no such filter.
pub struct CivitaiSearchParams {
    pub query: Option<String>,
    pub model_type: Option<String>,
    pub base_model: Option<String>,
    pub file_format: Option<String>,
    pub status: Option<String>,
    pub sort: Option<String>,
    pub period: Option<String>,
    pub nsfw: Option<bool>,
    pub page: Option<u32>,
    pub cursor: Option<String>,
    pub limit: Option<u32>,
    pub api_key: Option<String>,
}

pub open spec fn opt_view(o: Option<String>) -> Option<Seq<char>> {
    match o {
        Some(s) => Some(s@),
        None => None,
    }
}

/// A text field counts only when it holds more than white space.
pub open spec fn filled(o: Option<String>) -> Option<Seq<char>> {
    match o {
        Some(s) => if trim(s@).len() > 0 { Some(s@) } else { None },
        None => None,
    }
}

/// A `name=value` pair with the value form-encoded, when the field is filled.
pub open spec fn optional_pair(name: Seq<char>, o: Option<String>) -> Seq<Seq<char>> {
    match filled(o) {
        Some(v) => seq![name + form_encoded_text(v)],
        None => Seq::<Seq<char>>::empty(),
    }
}

pub open spec fn bool_text(b: bool) -> Seq<char> {
    if b { "true"@ } else { "false"@ }
}

/// The query pairs of a search, in order: sort (most downloaded by
/// default), period (all time), nsfw (false), limit (20), the page (1) when
/// there is no text query, then cursor, query, type, base model and file
/// format when filled. Array parameters keep their literal `[]`, which
/// CivitAI requires.
pub open spec fn search_pairs(p: CivitaiSearchParams) -> Seq<Seq<char>> {
    let sort = match opt_view(p.sort) { Some(s) => s, None => "Most Downloaded"@ };
    let period = match opt_view(p.period) { Some(s) => s, None => "AllTime"@ };
    let nsfw = match p.nsfw { Some(b) => b, None => false };
    let limit: nat = match p.limit { Some(l) => l as nat, None => 20 };
    let page: nat = match p.page { Some(n) => n as nat, None => 1 };
    seq![
        "sort="@ + form_encoded_text(sort),
        "period="@ + form_encoded_text(period),
        "nsfw="@ + bool_text(nsfw),
        "limit="@ + decimal(limit),
    ] + (if filled(p.query) is None { seq!["page="@ + decimal(page)] } else { Seq::<Seq<char>>::empty() })
        + optional_pair("cursor="@, p.cursor) + optional_pair("query="@, p.query)
        + optional_pair("types[]="@, p.model_type) + optional_pair("baseModels[]="@, p.base_model)
        + optional_pair("fileFormats[]="@, p.file_format)
}

/// The model search URL for a search form.
pub open spec fn search_url_spec(p: CivitaiSearchParams) -> Seq<char> {
    "https://civitai.com/api/v1/models?"@ + join_with(search_pairs(p), "&"@)
}

/// Whether an optional text field is filled.
fn is_filled(o: &Option<String>) -> (r: bool)
    ensures
        r == (filled(*o) is Some),
{
    match o {
        Some(s) => trim_chars(&chars_of(s.as_str())).len() > 0,
        None => false,
    }
}

/// Appends `name` and the encoded field when the field is filled.
fn push_optional_pair(parts: &mut Vec<Vec<char>>, name: &str, o: &Option<String>)
    ensures
        views(final(parts)@) == views(old(parts)@) + optional_pair(name@, *o),
{
    if is_filled(o) {
        match o {
            Some(s) => {
                let mut v = chars_of(name);
                let enc = form_encode(s.as_str());
                push_str(&mut v, enc.as_str());
                let ghost before = parts@;
                parts.push(v);
                assert(views(parts@) =~= views(before) + optional_pair(name@, *o));
            },
            None => {},
        }
    } else {
        assert(views(parts@) =~= views(parts@) + optional_pair(name@, *o));
    }
}

/// A pair whose value is an encoded text.
fn encoded_pair(name: &str, value: &str) -> (r: Vec<char>)
    ensures
        r@ == name@ + form_encoded_text(value@),
{
    let mut v = chars_of(name);
    let enc = form_encode(value);
    push_str(&mut v, enc.as_str());
    v
}

/// The CivitAI model search URL for a search form.
pub fn civitai_search_url(params: &CivitaiSearchParams) -> (r: String)
    ensures
        r@ == search_url_spec(*params),
{
    let mut parts: Vec<Vec<char>> = Vec::new();
    let sort = match &params.sort { Some(s) => encoded_pair("sort=", s.as_str()), None => encoded_pair("sort=", "Most Downloaded") };
    let period = match &params.period { Some(s) => encoded_pair("period=", s.as_str()), None => encoded_pair("period=", "AllTime") };
    let nsfw = match params.nsfw { Some(b) => b, None => false };
    let mut nsfw_pair = chars_of("nsfw=");
    if nsfw {
        push_str(&mut nsfw_pair, "true");
    } else {
        push_str(&mut nsfw_pair, "false");
    }
    let limit: u32 = match params.limit { Some(l) => l, None => 20 };
    let mut limit_pair = chars_of("limit=");
    push_all(&mut limit_pair, &decimal_of(limit as u64));
    parts.push(sort);
    parts.push(period);
    parts.push(nsfw_pair);
    parts.push(limit_pair);
    let ghost p = *params;
    let ghost sortv = match opt_view(p.sort) { Some(s) => s, None => "Most Downloaded"@ };
    let ghost periodv = match opt_view(p.period) { Some(s) => s, None => "AllTime"@ };
    assert(views(parts@) =~= seq![
        "sort="@ + form_encoded_text(sortv),
        "period="@ + form_encoded_text(periodv),
        "nsfw="@ + bool_text(nsfw),
        "limit="@ + decimal(limit as nat),
    ]);
    if !is_filled(&params.query) {
        let page: u32 = match params.page { Some(n) => n, None => 1 };
        let mut page_pair = chars_of("page=");
        push_all(&mut page_pair, &decimal_of(page as u64));
        let ghost before = parts@;
        parts.push(page_pair);
        assert(views(parts@) =~= views(before).push("page="@ + decimal(page as nat)));
    }
    push_optional_pair(&mut parts, "cursor=", &params.cursor);
    push_optional_pair(&mut parts, "query=", &params.query);
    push_optional_pair(&mut parts, "types[]=", &params.model_type);
    push_optional_pair(&mut parts, "baseModels[]=", &params.base_model);
    push_optional_pair(&mut parts, "fileFormats[]=", &params.file_format);
    assert(views(parts@) =~= search_pairs(p));
    let sep = chars_of("&");
    let joined = join_chars(&parts, &sep);
    let mut url = chars_of("https://civitai.com/api/v1/models?");
    push_all(&mut url, &joined);
    string_of(&url)
}

// ---------------------------------------------------------------------------
// Architecture catalog
// ---------------------------------------------------------------------------

/// The architectures always offered, whatever CivitAI reports.
pub open spec fn common_architectures_spec() -> Seq<Seq<char>> {
    seq!["SD 1.4"@, "SD 1.5"@, "SD 1.5 LCM"@, "SD 1.5 Hyper"@, "SD 2.0"@, "SD 2.0 768"@, "SD 2.1"@, "SD 2.1 768"@, "SD 2.1 Unclip"@, "SD 3"@, "SD 3.5"@, "SD 3.5 Large"@, "SD 3.5 Large Turbo"@, "SD 3.5 Medium"@, "SDXL 0.9"@, "SDXL 1.0"@, "SDXL 1.0 LCM"@, "SDXL Distilled"@, "SDXL Turbo"@, "SDXL Lightning"@, "SDXL Hyper"@, "Illustrious"@, "NoobAI"@, "Pony"@, "Flux.1 S"@, "Flux.1 D"@, "Flux.1 S Turbo"@, "AuraFlow"@, "Hunyuan 1"@, "HunyuanDiT"@, "Hunyuan Video"@, "Lumina"@, "Kolors"@, "PixArt-a"@, "PixArt-E"@, "Stable Cascade"@, "SVD"@, "SVD XT"@, "PlaygroundV2.5"@, "CogVideoX"@, "Illusion"@, "MoDi"@, "ODOR"@, "Other"@]
}

/// The architectures always offered, in their listed order.
pub fn common_architectures() -> (r: Vec<&'static str>)
    ensures
        crate::text::str_views(r@) == common_architectures_spec(),
{
    let v = vec!["SD 1.4", "SD 1.5", "SD 1.5 LCM", "SD 1.5 Hyper", "SD 2.0", "SD 2.0 768", "SD 2.1", "SD 2.1 768", "SD 2.1 Unclip", "SD 3", "SD 3.5", "SD 3.5 Large", "SD 3.5 Large Turbo", "SD 3.5 Medium", "SDXL 0.9", "SDXL 1.0", "SDXL 1.0 LCM", "SDXL Distilled", "SDXL Turbo", "SDXL Lightning", "SDXL Hyper", "Illustrious", "NoobAI", "Pony", "Flux.1 S", "Flux.1 D", "Flux.1 S Turbo", "AuraFlow", "Hunyuan 1", "HunyuanDiT", "Hunyuan Video", "Lumina", "Kolors", "PixArt-a", "PixArt-E", "Stable Cascade", "SVD", "SVD XT", "PlaygroundV2.5", "CogVideoX", "Illusion", "MoDi", "ODOR", "Other"];
    assert(crate::text::str_views(v@) =~= common_architectures_spec());
    v
}

/// Strictly increasing in text order, so free of repeats.
pub open spec fn strictly_sorted(s: Seq<Seq<char>>) -> bool {
    forall|i: int, j: int| 0 <= i < j < s.len() ==> lex_lt(#[trigger] s[i], #[trigger] s[j])
}

/// Adds `name` to a sorted list of distinct names, keeping it so.
pub fn insert_sorted_name(names: &mut Vec<String>, name: String)
    requires
        strictly_sorted(string_views(old(names)@)),
    ensures
        strictly_sorted(string_views(final(names)@)),
        string_views(final(names)@).to_set() == string_views(old(names)@).to_set().insert(name@),
{
    let ghost sv = string_views(names@);
    let key = chars_of(name.as_str());
    let mut j: usize = 0;
    while j < names.len() && lex_less(&chars_of(names[j].as_str()), &key)
        invariant
            j <= names.len(),
            sv == string_views(names@),
            key@ == name@,
            forall|k: int| 0 <= k < j ==> lex_lt(#[trigger] sv[k], name@),
        decreases names.len() - j,
    {
        assert(sv[j as int] == names@[j as int]@);
        j += 1;
    }
    if j < names.len() {
        assert(sv[j as int] == names@[j as int]@);
        if same_chars(&chars_of(names[j].as_str()), &key) {
            assert(sv.to_set().insert(name@) =~= sv.to_set());
            return;
        }
        proof {
            lemma_lex_total(sv[j as int], name@);
        }
    }
    let ghost nv = name@;
    names.insert(j, name);
    proof {
        assert(string_views(names@) =~= sv.insert(j as int, nv));
        sv.insert_ensures(j as int, nv);
        let s2 = sv.insert(j as int, nv);
        assert forall|a: int, b: int| 0 <= a < b < s2.len() implies lex_lt(#[trigger] s2[a], #[trigger] s2[b]) by {
            if a < j && b == j {
            } else if a < j && b > j {
                assert(s2[b] == sv[b - 1]);
                if b - 1 > a {
                }
            } else if a == j {
                assert(s2[b] == sv[b - 1]);
                if b - 1 > j {
                    lemma_lex_transitive(nv, sv[j as int], sv[b - 1]);
                }
            } else if a > j {
                assert(s2[a] == sv[a - 1]);
                assert(s2[b] == sv[b - 1]);
            }
        }
        assert forall|x: Seq<char>| s2.to_set().contains(x) <==> sv.to_set().insert(nv).contains(x) by {
            if s2.to_set().contains(x) {
                let k = choose|k: int| 0 <= k < s2.len() && s2[k] == x;
                if k < j {
                    assert(sv[k] == x);
                } else if k > j {
                    assert(sv[k - 1] == x);
                }
            }
            if sv.to_set().contains(x) {
                let k = choose|k: int| 0 <= k < sv.len() && sv[k] == x;
                if k < j {
                    assert(s2[k] == x);
                } else {
                    assert(s2[k + 1] == x);
                }
            }
            if x == nv {
                assert(s2[j as int] == x);
            }
        }
        assert(s2.to_set() =~= sv.to_set().insert(nv));
    }
}

/// The trimmed, non-blank names among `names`, as a set.
pub open spec fn reported_architectures(names: Seq<Seq<char>>) -> Set<Seq<char>> {
    Set::new(|t: Seq<char>| t.len() > 0 && exists|i: int| 0 <= i < names.len() && trim(#[trigger] names[i]) == t)
}

/// The architectures offered as a search filter: the common ones and every
/// base model CivitAI reported (trimmed, blanks skipped), each once, in text
/// order.
pub fn architecture_catalog(reported: &Vec<String>) -> (r: Vec<String>)
    ensures
        strictly_sorted(string_views(r@)),
        string_views(r@).to_set() == common_architectures_spec().to_set().union(
            reported_architectures(string_views(reported@)),
        ),
{
    let common = common_architectures();
    let mut names: Vec<String> = Vec::new();
    let mut i: usize = 0;
    assert(string_views(names@).to_set() =~= common_architectures_spec().take(0).to_set());
    while i < common.len()
        invariant
            i <= common.len(),
            crate::text::str_views(common@) == common_architectures_spec(),
            strictly_sorted(string_views(names@)),
            string_views(names@).to_set() == common_architectures_spec().take(i as int).to_set(),
        decreases common.len() - i,
    {
        let n = string_of(&chars_of(common[i]));
        assert(crate::text::str_views(common@)[i as int] == common@[i as int]@);
        assert(common_architectures_spec().take(i + 1) =~= common_architectures_spec().take(i as int).push(n@));
        proof {
            common_architectures_spec().take(i as int).lemma_push_to_set_commute(n@);
        }
        insert_sorted_name(&mut names, n);
        i += 1;
    }
    assert(common_architectures_spec().take(common.len() as int) =~= common_architectures_spec());
    let ghost rv = string_views(reported@);
    let mut k: usize = 0;
    while k < reported.len()
        invariant
            k <= reported.len(),
            rv == string_views(reported@),
            strictly_sorted(string_views(names@)),
            string_views(names@).to_set() == common_architectures_spec().to_set().union(
                reported_architectures(rv.take(k as int)),
            ),
        decreases reported.len() - k,
    {
        let t = trim_chars(&chars_of(reported[k].as_str()));
        assert(rv[k as int] == reported@[k as int]@);
        let ghost before = string_views(names@).to_set();
        if t.len() > 0 {
            insert_sorted_name(&mut names, string_of(&t));
        }
        proof {
            let r1 = reported_architectures(rv.take(k + 1));
            let r0 = reported_architectures(rv.take(k as int));
            assert forall|x: Seq<char>| r1.contains(x) <==> (r0.contains(x) || (x == t@ && t@.len() > 0)) by {
                if r1.contains(x) {
                    let m = choose|m: int| 0 <= m < rv.take(k + 1).len() && trim(#[trigger] rv.take(k + 1)[m]) == x;
                    if m < k {
                        assert(rv.take(k as int)[m] == rv.take(k + 1)[m]);
                    }
                }
                if r0.contains(x) {
                    let m = choose|m: int| 0 <= m < rv.take(k as int).len() && trim(#[trigger] rv.take(k as int)[m]) == x;
                    assert(rv.take(k + 1)[m] == rv.take(k as int)[m]);
                }
                if x == t@ && t@.len() > 0 {
                    assert(rv.take(k + 1)[k as int] == rv[k as int]);
                }
            }
            assert(string_views(names@).to_set() =~= common_architectures_spec().to_set().union(r1));
        }
        k += 1;
    }
    assert(rv.take(reported.len() as int) =~= rv);
    names
}

/// The cursor of the next page, when CivitAI reports one that is not blank.
pub fn next_cursor(raw: Option<&str>) -> (r: Option<String>)
    ensures
        match raw {
            Some(c) => if trim(c@).len() > 0 { r matches Some(n) && n@ == trim(c@) } else { r is None },
            None => r is None,
        },
{
    match raw {
        Some(c) => {
            let t = trim_chars(&chars_of(c));
            if t.len() > 0 { Some(string_of(&t)) } else { None }
        },
        None => None,
    }
}

} // verus!
