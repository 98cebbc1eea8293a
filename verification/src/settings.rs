//! Small settings rules: seeds as text across the JSON boundary, the
//! custom gallery folder, and how long an assistant answer may be.
use vstd::prelude::*;
use crate::text::{digit_char, is_ws, trim_end, trim_start, 
    all_digits, chars_of, copy_range, decimal, decimal_of, digits_value, parse_u64, parse_unsigned,
    push_all, spells, string_of, trim, trim_chars,
};

verus! {

// ---------------------------------------------------------------------------
// Seeds
// ---------------------------------------------------------------------------

/// A seed as decimal text (`i64::to_string`): a `-` before negative values.
pub open spec fn seed_text_spec(v: int) -> Seq<char> {
    if v < 0 { seq!['-'] + decimal((-v) as nat) } else { decimal(v as nat) }
}

/// Seeds are 63-bit and exceed JavaScript's safe integers, so they cross the
/// JSON boundary as text.
pub fn seed_to_text(v: i64) -> (r: String)
    ensures
        r@ == seed_text_spec(v as int),
{
    if v < 0 {
        let magnitude: u64 = (0i128 - (v as i128)) as u64;
        let mut c = chars_of("-");
        push_all(&mut c, &decimal_of(magnitude));
        proof { reveal_strlit("-"); }
        assert(c@ =~= seq!['-'] + decimal((-v) as nat));
        string_of(&c)
    } else {
        string_of(&decimal_of(v as u64))
    }
}

/// What `i64::from_str` makes of a text: an optional sign, then at least one
/// ASCII digit, within the range of `i64`.
pub open spec fn parse_i64_spec(s: Seq<char>) -> Option<int> {
    if s.len() > 0 && s[0] == '-' {
        let b = s.drop_first();
        if b.len() > 0 && all_digits(b) && digits_value(b) <= 9223372036854775808 {
            Some(-(digits_value(b) as int))
        } else {
            None
        }
    } else {
        match parse_unsigned(s, 9223372036854775807) {
            Some(n) => Some(n as int),
            None => None,
        }
    }
}

/// A seed read back from text (surrounding white space ignored), as the
/// settings loader accepts it; `None` when the text is no `i64`.
pub fn seed_from_text(s: &str) -> (r: Option<i64>)
    ensures
        match r {
            Some(v) => parse_i64_spec(trim(s@)) == Some(v as int),
            None => parse_i64_spec(trim(s@)) is None,
        },
{
    let t = trim_chars(&chars_of(s));
    if t.len() > 0 && t[0] == '-' {
        let body = copy_range(&t, 1, t.len());
        assert(body@ =~= t@.drop_first());
        if body.len() == 0 || body[0] == '+' {
            return None;
        }
        match parse_u64(&body) {
            Some(v) => {
                if v > 9223372036854775808 {
                    None
                } else if v == 9223372036854775808 {
                    Some(i64::MIN)
                } else {
                    Some(0 - (v as i64))
                }
            },
            None => {
                proof {
                    if all_digits(body@) && digits_value(body@) <= 9223372036854775808 {
                        assert(digits_value(body@) <= u64::MAX);
                    }
                }
                None
            },
        }
    } else {
        match parse_u64(&t) {
            Some(v) => if v > 9223372036854775807 { None } else { Some(v as i64) },
            None => None,
        }
    }
}

/// A seed sent as an unsigned number, reinterpreted as `i64` (two's
/// complement, as `u64 as i64` does).
pub fn seed_from_u64(v: u64) -> (r: i64)
    ensures
        r as int == (if v <= 9223372036854775807 { v as int } else { v as int - 18446744073709551616 }),
{
    if v <= 9223372036854775807 {
        v as i64
    } else {
        let below: u64 = v - 9223372036854775808;
        (below as i64) + i64::MIN
    }
}

/// A digit character reads back as its digit.
proof fn lemma_digit_roundtrip(k: nat)
    requires
        k < 10,
    ensures
        crate::text::digit_val(digit_char(k)) == k,
        crate::text::is_digit(digit_char(k)),
{
    let c = digit_char(k);
    assert(((k + 48) as u8) as int == k + 48);
    assert(c as int == k + 48);
}

/// Decimal text is all digits, never empty, and spells its number back.
pub(crate) proof fn lemma_decimal_spells(n: nat)
    ensures
        decimal(n).len() > 0,
        all_digits(decimal(n)),
        digits_value(decimal(n)) == n,
        decimal(n)[0] != '+' && decimal(n)[0] != '-',
    decreases n,
{
    lemma_digit_roundtrip(n % 10);
    if n >= 10 {
        lemma_decimal_spells(n / 10);
        let d = decimal(n);
        assert(d.drop_last() =~= decimal(n / 10));
        assert(d[0] == decimal(n / 10)[0]);
        assert(d.last() == digit_char(n % 10));
        assert(digits_value(d) == digits_value(d.drop_last()) * 10 + crate::text::digit_val(d.last()));
        assert(digits_value(d) == (n / 10) * 10 + n % 10);
        assert forall|i: int| 0 <= i < d.len() implies crate::text::is_digit(#[trigger] d[i]) by {
            if i < d.len() - 1 {
                assert(d[i] == decimal(n / 10)[i]);
            }
        }
    } else {
        let d = decimal(n);
        assert(n % 10 == n);
        assert(d.drop_last() =~= Seq::<char>::empty());
        assert(digits_value(d) == digits_value(d.drop_last()) * 10 + crate::text::digit_val(d.last()));
    }
}

/// Text of digits and signs is left alone by trimming.
proof fn lemma_trim_solid(s: Seq<char>)
    requires
        forall|i: int| 0 <= i < s.len() ==> !is_ws(#[trigger] s[i]),
    ensures
        trim(s) == s,
{
    assert(trim_start(s) == s);
    assert(trim_end(s) == s);
}

/// A seed read back from its text is the seed itself.
pub proof fn seed_text_round_trips(v: i64)
    ensures
        parse_i64_spec(trim(seed_text_spec(v as int))) == Some(v as int),
{
    if v < 0 {
        let m = (-v) as nat;
        lemma_decimal_spells(m);
        let t = seq!['-'] + decimal(m);
        assert forall|i: int| 0 <= i < t.len() implies !is_ws(#[trigger] t[i]) by {
            if i > 0 {
                assert(t[i] == decimal(m)[i - 1]);
                assert(crate::text::is_digit(decimal(m)[i - 1]));
            }
        }
        lemma_trim_solid(t);
        assert(t.drop_first() =~= decimal(m));
    } else {
        let m = v as nat;
        lemma_decimal_spells(m);
        let t = decimal(m);
        assert forall|i: int| 0 <= i < t.len() implies !is_ws(#[trigger] t[i]) by {
            assert(crate::text::is_digit(t[i]));
        }
        lemma_trim_solid(t);
    }
}

// ---------------------------------------------------------------------------
// Gallery folder
// ---------------------------------------------------------------------------

/// The custom gallery folder in effect: the configured one, trimmed, unless
/// it is blank (then the default folder under the app data directory is).
pub fn configured_gallery_path(custom: Option<&str>) -> (r: Option<String>)
    ensures
        match custom {
            Some(c) => if trim(c@).len() > 0 { r matches Some(p) && p@ == trim(c@) } else { r is None },
            None => r is None,
        },
{
    match custom {
        Some(c) => {
            let t = trim_chars(&chars_of(c));
            if t.len() > 0 { Some(string_of(&t)) } else { None }
        },
        None => None,
    }
}

// ---------------------------------------------------------------------------
// Prompt assistant
// ---------------------------------------------------------------------------

/// How the prompt assistant should answer.
pub struct PromptAssistantOpts {
    /// `short`, `medium` or `detailed`.
    pub length: Option<String>,
    pub include_artists: bool,
}

impl PromptAssistantOpts {
    /// No length chosen, no artists.
    pub fn new() -> (r: Self)
        ensures
            r.length is None,
            !r.include_artists,
    {
        PromptAssistantOpts { length: None, include_artists: false }
    }

    /// The token budget of an answer: 96 for short, 384 for detailed, 192
    /// otherwise.
    pub fn max_tokens(&self) -> (r: u32)
        ensures
            r == (match self.length {
                Some(l) => if l@ == "short"@ { 96u32 } else if l@ == "detailed"@ { 384u32 } else { 192u32 },
                None => 192u32,
            }),
    {
        match &self.length {
            Some(l) => {
                let c = chars_of(l.as_str());
                if spells(&c, "short") {
                    96
                } else if spells(&c, "detailed") {
                    384
                } else {
                    192
                }
            },
            None => 192,
        }
    }
}

} // verus!
