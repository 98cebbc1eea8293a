//! Log attachment for reports: long logs are split into bounded comments.
use vstd::prelude::*;
use crate::github::{MAX_LOG_IN_ISSUE, ReportPayload};
use crate::ratelimit::{check_step, RateLimiter};
use crate::text::{string_views, chars_of, copy_range, decimal, decimal_of, push_all, push_str, string_of, trim, trim_chars};

verus! {

/// Max characters per log comment; GitHub caps comment bodies near 65,536.
pub const MAX_LOG_COMMENT_CHARS: usize = 60000;

/// `c` cut into consecutive pieces of `max` characters, the last one shorter.
pub open spec fn chunks_of(c: Seq<char>, max: nat) -> Seq<Seq<char>>
    decreases c.len(),
{
    if c.len() == 0 || max == 0 {
        Seq::<Seq<char>>::empty()
    } else if c.len() <= max {
        seq![c]
    } else {
        seq![c.take(max as int)] + chunks_of(c.skip(max as int), max)
    }
}

/// What `chunk_chars` returns: the text whole when it fits, else its chunks.
pub open spec fn chunk_spec(c: Seq<char>, max: nat) -> Seq<Seq<char>> {
    if c.len() <= max {
        seq![c]
    } else {
        chunks_of(c, max)
    }
}

/// All pieces, one after the other.
pub open spec fn flatten(parts: Seq<Seq<char>>) -> Seq<char>
    decreases parts.len(),
{
    if parts.len() == 0 {
        Seq::<char>::empty()
    } else {
        parts[0] + flatten(parts.drop_first())
    }
}

proof fn lemma_flatten_push(parts: Seq<Seq<char>>, x: Seq<char>)
    ensures
        flatten(parts.push(x)) == flatten(parts) + x,
    decreases parts.len(),
{
    if parts.len() == 0 {
        assert(parts.push(x).drop_first() =~= Seq::<Seq<char>>::empty());
        assert(x + Seq::<char>::empty() =~= x);
        assert(parts.push(x)[0] == x);
        assert(flatten(Seq::<Seq<char>>::empty()) == Seq::<char>::empty());
        assert(flatten(parts.push(x)) =~= x);
    } else {
        assert(parts.push(x).drop_first() =~= parts.drop_first().push(x));
        lemma_flatten_push(parts.drop_first(), x);
        assert(flatten(parts.push(x)) =~= flatten(parts) + x);
    }
}


/// Split a string into chunks of at most `max` characters (char-safe).
pub fn chunk_chars(s: &str, max: usize) -> (r: Vec<String>)
    requires
        max > 0 || s@.len() == 0,
    ensures
        string_views(r@) == chunk_spec(s@, max as nat),
{
    let chars = chars_of(s);
    let mut out: Vec<String> = Vec::new();
    if chars.len() <= max {
        out.push(string_of(&chars));
        assert(string_views(out@) =~= seq![chars@]);
        return out;
    }
    let ghost c = chars@;
    let mut pos: usize = 0;
    assert(c.skip(0) =~= c);
    assert(string_views(out@) =~= Seq::<Seq<char>>::empty());
    while pos < chars.len()
        invariant
            c == chars@,
            max > 0,
            c.len() > max,
            pos <= c.len(),
            string_views(out@) + chunks_of(c.skip(pos as int), max as nat) =~= chunks_of(c, max as nat),
        decreases c.len() - pos,
    {
        let end = if chars.len() - pos > max { pos + max } else { chars.len() };
        let piece = copy_range(&chars, pos, end);
        let ghost rest = c.skip(pos as int);
        let ghost before = string_views(out@);
        out.push(string_of(&piece));
        assert(string_views(out@) =~= before.push(piece@));
        if end == chars.len() {
            assert(piece@ =~= rest);
            assert(c.skip(end as int) =~= Seq::<char>::empty());
            assert(chunks_of(rest, max as nat) =~= seq![rest]);
        } else {
            assert(piece@ =~= rest.take(max as int));
            assert(rest.skip(max as int) =~= c.skip(end as int));
            assert(chunks_of(rest, max as nat) =~= seq![piece@] + chunks_of(c.skip(end as int), max as nat));
        }
        pos = end;
    }
    assert(c.skip(pos as int) =~= Seq::<char>::empty());
    out
}

} // verus!

verus! {

proof fn lemma_flatten_cons(a: Seq<char>, rest: Seq<Seq<char>>)
    ensures
        flatten(seq![a] + rest) == a + flatten(rest),
{
    assert((seq![a] + rest)[0] == a);
    assert((seq![a] + rest).drop_first() =~= rest);
}

proof fn lemma_chunks_of_facts(c: Seq<char>, max: nat)
    requires
        max > 0,
    ensures
        flatten(chunks_of(c, max)) == c,
        forall|i: int|
            0 <= i < chunks_of(c, max).len() ==> (#[trigger] chunks_of(c, max)[i]).len() <= max
                && chunks_of(c, max)[i].len() > 0,
    decreases c.len(),
{
    if c.len() == 0 {
        assert(c =~= Seq::<char>::empty());
    } else if c.len() <= max {
        lemma_flatten_cons(c, Seq::<Seq<char>>::empty());
        assert(seq![c] + Seq::<Seq<char>>::empty() =~= seq![c]);
        assert(c + Seq::<char>::empty() =~= c);
    } else {
        let rest = c.skip(max as int);
        lemma_chunks_of_facts(rest, max);
        lemma_flatten_cons(c.take(max as int), chunks_of(rest, max));
        assert(c.take(max as int) + rest =~= c);
        let all = chunks_of(c, max);
        assert forall|i: int| 0 <= i < all.len() implies (#[trigger] all[i]).len() <= max && all[i].len() > 0 by {
            if i > 0 {
                assert(all[i] == chunks_of(rest, max)[i - 1]);
            }
        }
    }
}

/// The chunks of a log, read in order, give the log back, and none is
/// longer than the limit.
pub proof fn chunks_reassemble_and_respect_the_limit(c: Seq<char>, max: nat)
    requires
        max > 0 || c.len() == 0,
    ensures
        flatten(chunk_spec(c, max)) == c,
        forall|i: int|
            0 <= i < chunk_spec(c, max).len() ==> (#[trigger] chunk_spec(c, max)[i]).len() <= max,
{
    if c.len() <= max {
        lemma_flatten_cons(c, Seq::<Seq<char>>::empty());
        assert(seq![c] + Seq::<Seq<char>>::empty() =~= seq![c]);
        assert(c + Seq::<char>::empty() =~= c);
    } else {
        lemma_chunks_of_facts(c, max);
    }
}

} // verus!

verus! {

pub open spec fn comment_header(i: nat, total: nat) -> Seq<char> {
    if total > 1 {
        "Full diagnostics log (part "@ + decimal(i + 1) + "/"@ + decimal(total) + ")"@
    } else {
        "Full diagnostics log"@
    }
}

pub open spec fn comment_body(header: Seq<char>, chunk: Seq<char>) -> Seq<char> {
    "<details><summary>"@ + header + "</summary>\n\n````log\n"@ + chunk + "\n````\n\n</details>"@
}

/// The comments that carry a full log on issue `number`: none when there is
/// no issue number or the trimmed log already fits in the issue body.
pub open spec fn log_comments_spec(number: u64, log: Seq<char>) -> Seq<Seq<char>> {
    let t = trim(log);
    if number == 0 || t.len() <= MAX_LOG_IN_ISSUE {
        Seq::<Seq<char>>::empty()
    } else {
        let cs = chunk_spec(t, MAX_LOG_COMMENT_CHARS as nat);
        Seq::new(cs.len(), |i: int| comment_body(comment_header(i as nat, cs.len()), cs[i]))
    }
}

/// The collapsible comments that attach the full diagnostics log to an issue,
/// in posting order. A 4-backtick fence keeps stray triple-backticks inside
/// the log from breaking out of the code block.
pub fn log_comment_bodies(number: u64, log: &str) -> (r: Vec<String>)
    ensures
        string_views(r@) == log_comments_spec(number, log@),
{
    let raw = chars_of(log);
    let t = trim_chars(&raw);
    let mut out: Vec<String> = Vec::new();
    if number == 0 || t.len() <= MAX_LOG_IN_ISSUE {
        assert(string_views(out@) =~= Seq::<Seq<char>>::empty());
        return out;
    }
    let ts = string_of(&t);
    let chunks = chunk_chars(ts.as_str(), MAX_LOG_COMMENT_CHARS);
    let total = chunks.len();
    let ghost cs = chunk_spec(t@, MAX_LOG_COMMENT_CHARS as nat);
    let mut i: usize = 0;
    while i < total
        invariant
            total == chunks@.len() == cs.len(),
            string_views(chunks@) == cs,
            i <= total,
            string_views(out@) =~= Seq::new(i as nat, |k: int| comment_body(comment_header(k as nat, cs.len()), cs[k])),
        decreases total - i,
    {
        let mut v: Vec<char> = Vec::new();
        push_str(&mut v, "<details><summary>");
        if total > 1 {
            push_str(&mut v, "Full diagnostics log (part ");
            let a = decimal_of((i + 1) as u64);
            push_all(&mut v, &a);
            push_str(&mut v, "/");
            let b = decimal_of(total as u64);
            push_all(&mut v, &b);
            push_str(&mut v, ")");
        } else {
            push_str(&mut v, "Full diagnostics log");
        }
        push_str(&mut v, "</summary>\n\n````log\n");
        let c = chars_of(chunks[i].as_str());
        assert(c@ == cs[i as int]);
        push_all(&mut v, &c);
        push_str(&mut v, "\n````\n\n</details>");
        assert(v@ =~= comment_body(comment_header(i as nat, cs.len()), cs[i as int]));
        let ghost prev = string_views(out@);
        out.push(string_of(&v));
        assert(string_views(out@) =~= prev.push(v@));
        i += 1;
    }
    out
}

// ---------------------------------------------------------------------------
// Admitting a report
// ---------------------------------------------------------------------------

/// The client a report is rate-limited under: the address Cloudflare reports
/// (`cf-connecting-ip`), or `unknown` without one.
pub open spec fn client_ip_spec(cf_connecting_ip: Option<Seq<char>>) -> Seq<char> {
    match cf_connecting_ip {
        Some(ip) => ip,
        None => "unknown"@,
    }
}

pub fn client_ip(cf_connecting_ip: Option<&str>) -> (r: String)
    ensures
        r@ == client_ip_spec(match cf_connecting_ip {
            Some(ip) => Some(ip@),
            None => None,
        }),
{
    match cf_connecting_ip {
        Some(ip) => string_of(&chars_of(ip)),
        None => string_of(&chars_of("unknown")),
    }
}

/// A request that carries a `cf-connecting-ip` header is rate-limited under
/// that address itself (one without it under `unknown`), so requests from two different addresses are kept
/// under two different keys and never spend each other's budget.
pub proof fn each_address_has_its_own_budget(ip: Seq<char>, other: Seq<char>)
    ensures
        client_ip_spec(Some(ip)) == ip,
        client_ip_spec(None) == "unknown"@,
        ip != other ==> client_ip_spec(Some(ip)) != client_ip_spec(Some(other)),
{
}

/// Why a report is turned away before any issue is touched.
#[derive(Debug, Clone, Copy, PartialEq, Eq, Structural)]
pub enum ReportRejection {
    /// The request lacks the `x-mooshie-app: 1` header (403).
    Forbidden,
    /// The client is over its per-minute budget (429).
    RateLimited,
    /// The payload has a blank `errorCode` (400).
    MissingErrorCode,
}

impl ReportRejection {
    /// The HTTP status the rejection is answered with.
    pub fn status(&self) -> (r: u16)
        ensures
            r == match self {
                ReportRejection::Forbidden => 403u16,
                ReportRejection::RateLimited => 429u16,
                ReportRejection::MissingErrorCode => 400u16,
            },
    {
        match self {
            ReportRejection::Forbidden => 403,
            ReportRejection::RateLimited => 429,
            ReportRejection::MissingErrorCode => 400,
        }
    }

    /// The `error` text of the JSON answer.
    pub fn message(&self) -> (r: &'static str)
        ensures
            r@ == match self {
                ReportRejection::Forbidden => "forbidden"@,
                ReportRejection::RateLimited => "rate limited"@,
                ReportRejection::MissingErrorCode => "errorCode is required"@,
            },
    {
        match self {
            ReportRejection::Forbidden => "forbidden",
            ReportRejection::RateLimited => "rate limited",
            ReportRejection::MissingErrorCode => "errorCode is required",
        }
    }
}

/// The header gate, then the rate limit for the client: a request without
/// the app header is refused without touching the limiter; any other request
/// is counted against its client.
pub fn admit_report(
    limiter: &mut RateLimiter,
    app_header: Option<&str>,
    cf_connecting_ip: Option<&str>,
    now_secs: u64,
) -> (r: Result<(), ReportRejection>)
    ensures
        ({
            let key = client_ip_spec(match cf_connecting_ip {
                Some(ip) => Some(ip@),
                None => None,
            });
            let gate_ok = match app_header {
                Some(h) => h@ == "1"@,
                None => false,
            };
            &&& final(limiter).limit() == old(limiter).limit()
            &&& !gate_ok ==> r == Err::<(), ReportRejection>(ReportRejection::Forbidden)
                && forall|k: Seq<char>| final(limiter).entry(k) == old(limiter).entry(k)
            &&& gate_ok ==> {
                &&& final(limiter).entry(key) == Some(check_step(old(limiter).entry(key), old(limiter).limit(), now_secs).0)
                &&& forall|k: Seq<char>| k != key ==> final(limiter).entry(k) == old(limiter).entry(k)
                &&& (r is Ok <==> check_step(old(limiter).entry(key), old(limiter).limit(), now_secs).1)
                &&& r is Err ==> r == Err::<(), ReportRejection>(ReportRejection::RateLimited)
            }
        }),
{
    let gate_ok = match app_header {
        Some(h) => crate::text::spells(&chars_of(h), "1"),
        None => false,
    };
    if !gate_ok {
        return Err(ReportRejection::Forbidden);
    }
    let ip = client_ip(cf_connecting_ip);
    if !limiter.check(ip.as_str(), now_secs) {
        return Err(ReportRejection::RateLimited);
    }
    Ok(())
}

/// A payload must name its error.
pub fn validate_report(payload: &ReportPayload) -> (r: Result<(), ReportRejection>)
    ensures
        r is Ok <==> trim(payload.error_code@).len() > 0,
        r is Err ==> r == Err::<(), ReportRejection>(ReportRejection::MissingErrorCode),
{
    let t = trim_chars(&chars_of(payload.error_code.as_str()));
    if t.len() == 0 {
        Err(ReportRejection::MissingErrorCode)
    } else {
        Ok(())
    }
}

/// `Seen again from another user. App version `{v}`, OS `{os}`, arch `{arch}`.`
pub open spec fn seen_again_spec(p: ReportPayload) -> Seq<char> {
    "Seen again from another user. App version `"@ + p.app_version@ + "`, OS `"@ + p.os@
        + "`, arch `"@ + p.arch@ + "`."@
}

/// The comment left on an existing issue when its error is reported again.
pub fn seen_again_note(payload: &ReportPayload) -> (r: String)
    ensures
        r@ == seen_again_spec(*payload),
{
    let mut v: Vec<char> = Vec::new();
    push_str(&mut v, "Seen again from another user. App version `");
    push_str(&mut v, payload.app_version.as_str());
    push_str(&mut v, "`, OS `");
    push_str(&mut v, payload.os.as_str());
    push_str(&mut v, "`, arch `");
    push_str(&mut v, payload.arch.as_str());
    push_str(&mut v, "`.");
    string_of(&v)
}

} // verus!
