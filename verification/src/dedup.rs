//! Error signatures, so near-identical reports land on one issue.
use vstd::prelude::*;
use crate::digest::{sha256, sha256_spec};
use crate::text::{
    append_copy, char_is_hex, char_is_ws, chars_of, contains, hex_chars, hex_of, is_hex, is_ws,
    lemma_hex_len, lowercase_chars, push_all, push_str, seq_contains, string_of, trim,
    trim_chars, unicode_lower,
};

verus! {

/// The class a lowered character falls in: hex digits and path/colon
/// punctuation become `#`, whitespace becomes a space, the rest stays.
pub open spec fn volatile_class(c: char) -> char {
    if is_hex(c) || c == '/' || c == '\\' || c == ':' {
        '#'
    } else if is_ws(c) {
        ' '
    } else {
        c
    }
}

/// `m` with each run of spaces, and each run of `#`, squeezed to one.
pub open spec fn squeeze(m: Seq<char>) -> Seq<char>
    decreases m.len(),
{
    if m.len() == 0 {
        m
    } else {
        let r = squeeze(m.drop_last());
        let c = m.last();
        if (c == ' ' || c == '#') && m.len() >= 2 && m[m.len() - 2] == c {
            r
        } else {
            r.push(c)
        }
    }
}

/// The normal form of an already-lowered message.
pub open spec fn normalize_lowered(l: Seq<char>) -> Seq<char> {
    trim(squeeze(l.map_values(|c: char| volatile_class(c))))
}

/// The normal form of a raw message.
pub open spec fn normalize_spec(raw: Seq<char>) -> Seq<char> {
    normalize_lowered(unicode_lower(raw))
}

/// The short signature of an error: the first 16 lowercase hex digits of
/// SHA-256 over the UTF-8 of `code`, a newline and the normal form of `raw`.
pub open spec fn signature_spec(code: Seq<char>, raw: Seq<char>) -> Seq<char> {
    hex_of(
        sha256_spec(
            vstd::utf8::encode_utf8(code) + seq![10u8] + vstd::utf8::encode_utf8(normalize_spec(raw)),
        ),
        false,
    ).take(16)
}

pub open spec fn marker_spec(sig: Seq<char>) -> Seq<char> {
    "<!-- mooshie-sig: "@ + sig + " -->"@
}

/// Collapse volatile parts of a message so near-identical errors share a signature.
pub fn normalize(raw: &str) -> (r: String)
    ensures
        r@ == normalize_spec(raw@),
{
    let lower = string_of(&lowercase_chars(&chars_of(raw)));
    normalize_lowered_text(lower.as_str())
}

/// The normal form of an already-lowered message: volatile characters
/// classed, runs squeezed, the ends trimmed.
pub fn normalize_lowered_text(lower: &str) -> (r: String)
    ensures
        r@ == normalize_lowered(lower@),
{
    let lower = chars_of(lower);
    let ghost mapped = lower@.map_values(|c: char| volatile_class(c));
    let mut out: Vec<char> = Vec::new();
    let mut prev_space = false;
    let mut prev_hash = false;
    let mut i: usize = 0;
    while i < lower.len()
        invariant
            i <= lower.len(),
            mapped == lower@.map_values(|c: char| volatile_class(c)),
            out@ == squeeze(mapped.take(i as int)),
            prev_space == (i > 0 && mapped[i - 1] == ' '),
            prev_hash == (i > 0 && mapped[i - 1] == '#'),
        decreases lower.len() - i,
    {
        let ch = lower[i];
        let m = if char_is_hex(ch) || ch == '/' || ch == '\\' || ch == ':' {
            '#'
        } else if char_is_ws(ch) {
            ' '
        } else {
            ch
        };
        assert(m == mapped[i as int]);
        assert(mapped.take(i + 1).drop_last() =~= mapped.take(i as int));
        if m == ' ' {
            if !prev_space {
                out.push(' ');
            }
            prev_space = true;
            prev_hash = false;
        } else if m == '#' {
            if !prev_hash {
                out.push('#');
            }
            prev_hash = true;
            prev_space = false;
        } else {
            out.push(m);
            prev_space = false;
            prev_hash = false;
        }
        i += 1;
    }
    assert(mapped.take(lower.len() as int) =~= mapped);
    let t = trim_chars(&out);
    string_of(&t)
}

/// Stable short hex signature for an error, used for dedup markers.
pub fn signature(error_code: &str, raw_message: &str) -> (r: String)
    ensures
        r@ == signature_spec(error_code@, raw_message@),
        r@.len() == 16,
        forall|i: int| 0 <= i < 16 ==> is_hex(#[trigger] r@[i]) && !('A' <= r@[i] && r@[i] <= 'Z'),
{
    let norm = normalize(raw_message);
    let mut data: Vec<u8> = Vec::new();
    append_copy(&mut data, error_code.as_bytes());
    data.push(10u8);
    append_copy(&mut data, norm.as_str().as_bytes());
    let digest = sha256(&data);
    let hex = hex_chars(&digest, false);
    proof { lemma_hex_len(digest@, false); }
    let mut first: Vec<char> = Vec::new();
    let mut i: usize = 0;
    while i < 16
        invariant
            i <= 16,
            hex@.len() == 64,
            first@ == hex@.take(i as int),
        decreases 16 - i,
    {
        first.push(hex[i]);
        assert(hex@.take(i + 1) =~= hex@.take(i as int).push(hex@[i as int]));
        i += 1;
    }
    assert forall|i: int| 0 <= i < 16 implies is_hex(#[trigger] first@[i]) && !('A' <= first@[i]
        && first@[i] <= 'Z') by {
        lemma_hex_of_is_hex(digest@, i);
    }
    assert(data@ =~= vstd::utf8::encode_utf8(error_code@) + seq![10u8] + vstd::utf8::encode_utf8(normalize_spec(raw_message@)));
    string_of(&first)
}

pub fn marker(sig: &str) -> (r: String)
    ensures
        r@ == marker_spec(sig@),
{
    let mut v: Vec<char> = Vec::new();
    push_str(&mut v, "<!-- mooshie-sig: ");
    let s = chars_of(sig);
    push_all(&mut v, &s);
    push_str(&mut v, " -->");
    string_of(&v)
}

pub fn body_has_marker(body: &str, sig: &str) -> (r: bool)
    ensures
        r == seq_contains(body@, marker_spec(sig@)),
{
    let b = chars_of(body);
    let m = marker(sig);
    let mc = chars_of(m.as_str());
    contains(&b, &mc)
}

} // verus!

verus! {

proof fn lemma_hex_of_is_hex(bytes: Seq<u8>, i: int)
    requires
        0 <= i < hex_of(bytes, false).len(),
    ensures
        is_hex(hex_of(bytes, false)[i]),
        !('A' <= hex_of(bytes, false)[i] && hex_of(bytes, false)[i] <= 'Z'),
    decreases bytes.len(),
{
    lemma_hex_len(bytes, false);
    if bytes.len() > 0 {
        let prev = hex_of(bytes.drop_last(), false);
        lemma_hex_len(bytes.drop_last(), false);
        if i < prev.len() {
            lemma_hex_of_is_hex(bytes.drop_last(), i);
        } else {
            let b = bytes.last();
            assert(b / 16 < 16 && b % 16 < 16);
        }
    }
}

} // verus!

verus! {

/// The marker of a signature is found in any body that ends with it.
pub proof fn marker_is_found_after_any_body(body: Seq<char>, sig: Seq<char>)
    ensures
        seq_contains(body + marker_spec(sig), marker_spec(sig)),
{
    let m = marker_spec(sig);
    let whole = body + m;
    assert(whole.subrange(body.len() as int, (body.len() + m.len()) as int) =~= m);
    assert(crate::text::occurs_at(whole, m, body.len() as int));
}

/// Messages whose lowered forms differ only where both hold a volatile
/// character (a hex digit, `/`, `\` or `:`) share a signature.
pub proof fn signature_ignores_volatile_characters(code: Seq<char>, raw1: Seq<char>, raw2: Seq<char>)
    requires
        unicode_lower(raw1).len() == unicode_lower(raw2).len(),
        forall|i: int|
            0 <= i < unicode_lower(raw1).len() ==> (#[trigger] unicode_lower(raw1)[i]
                == unicode_lower(raw2)[i] || (volatile_class(unicode_lower(raw1)[i]) == '#'
                && volatile_class(unicode_lower(raw2)[i]) == '#')),
    ensures
        signature_spec(code, raw1) == signature_spec(code, raw2),
{
    let l1 = unicode_lower(raw1);
    let l2 = unicode_lower(raw2);
    assert(l1.map_values(|c: char| volatile_class(c)) =~= l2.map_values(|c: char| volatile_class(c)));
}

/// A character the classing leaves as it is.
pub open spec fn settled_char(c: char) -> bool {
    volatile_class(c) == c
}

/// No two neighbours are the same space or `#`.
pub open spec fn no_runs(s: Seq<char>) -> bool {
    forall|i: int| 1 <= i < s.len() ==> !((s[i] == ' ' || s[i] == '#') && #[trigger] s[i - 1] == s[i])
}

proof fn lemma_squeeze_shape(m: Seq<char>)
    requires
        forall|i: int| 0 <= i < m.len() ==> settled_char(#[trigger] m[i]),
    ensures
        no_runs(squeeze(m)),
        forall|i: int| 0 <= i < squeeze(m).len() ==> settled_char(#[trigger] squeeze(m)[i]),
        m.len() > 0 ==> squeeze(m).len() > 0 && squeeze(m).last() == m.last(),
    decreases m.len(),
{
    if m.len() > 0 {
        let d = m.drop_last();
        assert forall|i: int| 0 <= i < d.len() implies settled_char(#[trigger] d[i]) by {
            assert(d[i] == m[i]);
        }
        lemma_squeeze_shape(d);
        let r = squeeze(d);
        let c = m.last();
        if (c == ' ' || c == '#') && m.len() >= 2 && m[m.len() - 2] == c {
            assert(d.last() == m[m.len() - 2]);
        } else {
            let q = r.push(c);
            assert(squeeze(m) == q);
            assert forall|i: int| 1 <= i < q.len() implies !((q[i] == ' ' || q[i] == '#') && #[trigger] q[i - 1] == q[i]) by {
                if i == q.len() - 1 {
                    if d.len() > 0 {
                        assert(q[i - 1] == r.last());
                        assert(r.last() == d.last());
                        assert(d.last() == m[m.len() - 2]);
                    }
                } else {
                    assert(q[i] == r[i] && q[i - 1] == r[i - 1]);
                }
            }
            assert forall|i: int| 0 <= i < q.len() implies settled_char(#[trigger] q[i]) by {
                if i < r.len() {
                    assert(q[i] == r[i]);
                }
            }
        }
    }
}

proof fn lemma_squeeze_fixed(s: Seq<char>)
    requires
        no_runs(s),
    ensures
        squeeze(s) == s,
    decreases s.len(),
{
    if s.len() > 0 {
        let d = s.drop_last();
        assert forall|i: int| 1 <= i < d.len() implies !((d[i] == ' ' || d[i] == '#') && #[trigger] d[i - 1] == d[i]) by {
            assert(d[i] == s[i] && d[i - 1] == s[i - 1]);
        }
        lemma_squeeze_fixed(d);
        if s.len() >= 2 {
            assert(s[s.len() - 2] == s[(s.len() - 1) - 1]);
        }
        assert(d.push(s.last()) =~= s);
    }
}

/// The normal form of a lowered message has no runs, only settled
/// characters, no white space at its ends, and is its own normal form.
proof fn lemma_normal_shape(l: Seq<char>)
    ensures
        no_runs(normalize_lowered(l)),
        forall|i: int| 0 <= i < normalize_lowered(l).len() ==> settled_char(#[trigger] normalize_lowered(l)[i]),
        trim(normalize_lowered(l)) == normalize_lowered(l),
        normalize_lowered(normalize_lowered(l)) == normalize_lowered(l),
{
    let m = l.map_values(|c: char| volatile_class(c));
    assert forall|i: int| 0 <= i < m.len() implies settled_char(#[trigger] m[i]) by {
        let c = l[i];
        assert(m[i] == volatile_class(c));
    }
    lemma_squeeze_shape(m);
    let q = squeeze(m);
    let n = trim(q);
    crate::text::lemma_trim_is_subrange(q);
    let (a, b) = choose|a: int, b: int| 0 <= a <= b <= q.len() && #[trigger] q.subrange(a, b) == trim(q);
    assert forall|i: int| 0 <= i < n.len() implies settled_char(#[trigger] n[i]) by {
        assert(n[i] == q[a + i]);
    }
    assert forall|i: int| 1 <= i < n.len() implies !((n[i] == ' ' || n[i] == '#') && #[trigger] n[i - 1] == n[i]) by {
        assert(n[i] == q[a + i] && n[i - 1] == q[(a + i) - 1]);
    }
    assert(n.map_values(|c: char| volatile_class(c)) =~= n);
    lemma_squeeze_fixed(n);
    crate::text::lemma_trim_idempotent(q);
}

/// A message already in normal form is its own normal form: normalizing
/// twice gives what normalizing once gave.
pub proof fn normalizing_is_idempotent(l: Seq<char>)
    ensures
        normalize_lowered(normalize_lowered(l)) == normalize_lowered(l),
{
    lemma_normal_shape(l);
}

/// What `normalize` gives for any message: text with no white space at its
/// ends, no `##` and no two spaces in a row, and no hex digit, `/`, `\`
/// or `:`. Normalizing it again after lowercasing gives it back; so
/// normalizing it twice gives what normalizing once gave whenever
/// lowercasing leaves the normal form as it is. (That lowercasing a
/// lowercase text changes nothing is not stated of `str::to_lowercase`.)
pub proof fn normal_form_of_any_message(raw: Seq<char>)
    ensures
        trim(normalize_spec(raw)) == normalize_spec(raw),
        !seq_contains(normalize_spec(raw), "##"@),
        !seq_contains(normalize_spec(raw), "  "@),
        forall|i: int| 0 <= i < normalize_spec(raw).len() ==> {
            let c = #[trigger] normalize_spec(raw)[i];
            !is_hex(c) && c != '/' && c != '\\' && c != ':'
        },
        normalize_lowered(normalize_spec(raw)) == normalize_spec(raw),
        unicode_lower(normalize_spec(raw)) == normalize_spec(raw) ==> normalize_spec(normalize_spec(raw))
            == normalize_spec(raw),
{
    reveal_strlit("##");
    reveal_strlit("  ");
    let n = normalize_spec(raw);
    lemma_normal_shape(unicode_lower(raw));
    assert forall|i: int| 0 <= i < n.len() implies ({
        let c = #[trigger] n[i];
        !is_hex(c) && c != '/' && c != '\\' && c != ':'
    }) by {
        assert(settled_char(n[i]));
    }
    if seq_contains(n, "##"@) {
        let i = choose|i: int| crate::text::occurs_at(n, "##"@, i);
        assert(n.subrange(i, i + 2)[0] == n[i] && n.subrange(i, i + 2)[1] == n[i + 1]);
        assert(n[(i + 1) - 1] == n[i + 1]);
    }
    if seq_contains(n, "  "@) {
        let i = choose|i: int| crate::text::occurs_at(n, "  "@, i);
        assert(n.subrange(i, i + 2)[0] == n[i] && n.subrange(i, i + 2)[1] == n[i + 1]);
        assert(n[(i + 1) - 1] == n[i + 1]);
    }
}

} // verus!
