//! Issue text for in-app error reports, and the dedup lookup over open issues.
use vstd::prelude::*;
use crate::dedup::{body_has_marker, marker, marker_spec};
use crate::text::{
    chars_of, copy_range, join_chars, join_with, push_all, push_str, seq_contains, string_of,
    trim, trim_chars, views,
};

verus! {

/// Inline log kept in the issue body (a quick-glance tail). The full log is
/// attached separately as collapsible comments when it exceeds this.
pub const MAX_LOG_IN_ISSUE: usize = 60000;

/// An in-app error report as the app posts it.
#[derive(Debug, Clone)]
pub struct ReportPayload {
    pub error_code: String,
    pub raw_message: String,
    pub app_version: String,
    pub os: String,
    pub arch: String,
    pub mode: String,
    pub timestamp: String,
    pub user_note: Option<String>,
    pub logs_tail: Option<String>,
}

#[derive(Debug, Clone)]
pub struct ExistingIssue {
    pub number: u64,
    pub html_url: String,
}

/// What the issue listing says of one open issue.
#[derive(Debug, Clone)]
pub struct IssueSummary {
    pub number: u64,
    pub html_url: String,
    pub body: String,
}

/// The first `max` characters of `s`.
pub open spec fn truncate_spec(s: Seq<char>, max: nat) -> Seq<char> {
    if s.len() <= max {
        s
    } else {
        s.take(max as int)
    }
}

pub open spec fn issue_title_spec(code: Seq<char>, raw: Seq<char>) -> Seq<char> {
    "[in-app] "@ + code + ": "@ + truncate_spec(raw, 80)
}

/// The user's note, unless it is blank.
pub open spec fn note_text(note: Option<String>) -> Seq<char> {
    match note {
        Some(n) => if trim(n@).len() > 0 {
            n@
        } else {
            "(no description provided)"@
        },
        None => "(no description provided)"@,
    }
}

/// The diagnostics lines, present only when the log tail is not blank.
pub open spec fn diagnostics_lines(logs: Option<String>) -> Seq<Seq<char>> {
    match logs {
        Some(l) => if trim(l@).len() > 0 {
            seq!["### Diagnostics"@, "```"@, truncate_spec(l@, MAX_LOG_IN_ISSUE as nat), "```"@, Seq::<char>::empty()]
        } else {
            Seq::<Seq<char>>::empty()
        },
        None => Seq::<Seq<char>>::empty(),
    }
}

/// The lines of an issue body, in order.
pub open spec fn issue_lines(p: ReportPayload, sig: Seq<char>) -> Seq<Seq<char>> {
    seq![
        "### What happened"@,
        note_text(p.user_note),
        Seq::<char>::empty(),
        "### Error"@,
        "```"@,
        if p.raw_message@.len() == 0 { "(empty)"@ } else { p.raw_message@ },
        "```"@,
        Seq::<char>::empty(),
        "### Environment"@,
        "- App version: `"@ + p.app_version@ + "`"@,
        "- OS: `"@ + p.os@ + "`"@,
        "- Arch: `"@ + p.arch@ + "`"@,
        "- Mode: "@ + p.mode@,
        "- Error code: "@ + p.error_code@,
        "- When: "@ + p.timestamp@,
        Seq::<char>::empty(),
    ] + diagnostics_lines(p.logs_tail) + seq![marker_spec(sig)]
}

pub open spec fn issue_body_spec(p: ReportPayload, sig: Seq<char>) -> Seq<char> {
    join_with(issue_lines(p, sig), "\n"@)
}

/// The first `max` characters of `s`.
pub fn truncate_chars(s: &str, max: usize) -> (r: String)
    ensures
        r@ == truncate_spec(s@, max as nat),
{
    let c = chars_of(s);
    if c.len() <= max {
        string_of(&c)
    } else {
        let t = copy_range(&c, 0, max);
        string_of(&t)
    }
}

pub fn issue_title(error_code: &str, raw_message: &str) -> (r: String)
    ensures
        r@ == issue_title_spec(error_code@, raw_message@),
{
    let mut v: Vec<char> = Vec::new();
    push_str(&mut v, "[in-app] ");
    let code = chars_of(error_code);
    push_all(&mut v, &code);
    push_str(&mut v, ": ");
    let t = truncate_chars(raw_message, 80);
    let tc = chars_of(t.as_str());
    push_all(&mut v, &tc);
    string_of(&v)
}

/// `prefix`, the text of `s`, then `suffix`, as characters.
fn framed(prefix: &str, s: &String, suffix: &str) -> (r: Vec<char>)
    ensures
        r@ == prefix@ + s@ + suffix@,
{
    let mut v = chars_of(prefix);
    let c = chars_of(s.as_str());
    push_all(&mut v, &c);
    push_str(&mut v, suffix);
    v
}

/// Whether an optional text is present and not blank.
fn present(t: &Option<String>) -> (r: bool)
    ensures
        r == (t matches Some(s) && trim(s@).len() > 0),
{
    match t {
        Some(s) => {
            let c = chars_of(s.as_str());
            let tc = trim_chars(&c);
            tc.len() > 0
        },
        None => false,
    }
}

pub fn issue_body(payload: &ReportPayload, sig: &str) -> (r: String)
    ensures
        r@ == issue_body_spec(*payload, sig@),
{
    let ghost p = *payload;
    let mut lines: Vec<Vec<char>> = Vec::new();
    lines.push(chars_of("### What happened"));
    let note = if present(&payload.user_note) {
        match &payload.user_note {
            Some(n) => chars_of(n.as_str()),
            None => chars_of("(no description provided)"),
        }
    } else {
        chars_of("(no description provided)")
    };
    lines.push(note);
    lines.push(Vec::new());
    lines.push(chars_of("### Error"));
    lines.push(chars_of("```"));
    let raw = chars_of(payload.raw_message.as_str());
    if raw.len() == 0 {
        lines.push(chars_of("(empty)"));
    } else {
        lines.push(raw);
    }
    lines.push(chars_of("```"));
    lines.push(Vec::new());
    lines.push(chars_of("### Environment"));
    lines.push(framed("- App version: `", &payload.app_version, "`"));
    lines.push(framed("- OS: `", &payload.os, "`"));
    lines.push(framed("- Arch: `", &payload.arch, "`"));
    lines.push(framed("- Mode: ", &payload.mode, ""));
    lines.push(framed("- Error code: ", &payload.error_code, ""));
    lines.push(framed("- When: ", &payload.timestamp, ""));
    lines.push(Vec::new());
    let ghost head = views(lines@);
    proof { reveal_strlit(""); }
    assert(head =~= issue_lines(p, sig@).take(16));
    if present(&payload.logs_tail) {
        match &payload.logs_tail {
            Some(l) => {
                lines.push(chars_of("### Diagnostics"));
                lines.push(chars_of("```"));
                let t = truncate_chars(l.as_str(), MAX_LOG_IN_ISSUE);
                lines.push(chars_of(t.as_str()));
                lines.push(chars_of("```"));
                lines.push(Vec::new());
            },
            None => {},
        }
    }
    let m = marker(sig);
    lines.push(chars_of(m.as_str()));
    assert(views(lines@) =~= issue_lines(p, sig@));
    let nl = chars_of("\n");
    let body = join_chars(&lines, &nl);
    string_of(&body)
}

/// The open issue whose body carries the marker of `sig`: the first such
/// issue with a usable link.
pub open spec fn issue_matches(i: IssueSummary, sig: Seq<char>) -> bool {
    seq_contains(i.body@, marker_spec(sig)) && i.html_url@.len() > 0
}

/// Pick the open issue that already reports this signature. An issue with an
/// empty link is passed over, so a fresh issue gets created instead of
/// answering with an empty link.
pub fn find_issue_by_sig(issues: &[IssueSummary], sig: &str) -> (r: Option<ExistingIssue>)
    ensures
        match r {
            Some(e) => exists|k: int|
                0 <= k < issues@.len() && issue_matches(#[trigger] issues@[k], sig@)
                    && e.number == issues@[k].number && e.html_url@ == issues@[k].html_url@
                    && forall|j: int| 0 <= j < k ==> !issue_matches(#[trigger] issues@[j], sig@),
            None => forall|j: int| 0 <= j < issues@.len() ==> !issue_matches(#[trigger] issues@[j], sig@),
        },
{
    let mut i: usize = 0;
    while i < issues.len()
        invariant
            i <= issues.len(),
            forall|j: int| 0 <= j < i ==> !issue_matches(#[trigger] issues@[j], sig@),
        decreases issues.len() - i,
    {
        let issue = &issues[i];
        if body_has_marker(issue.body.as_str(), sig) {
            let url = chars_of(issue.html_url.as_str());
            if url.len() > 0 {
                let found = ExistingIssue { number: issue.number, html_url: issue.html_url.clone() };
                assert(issue_matches(issues@[i as int], sig@));
                return Some(found);
            }
        }
        i += 1;
    }
    None
}

/// A release of the app, as the release-notes panel shows it.
pub struct ReleaseNote {
    pub version: String,
    pub body: String,
    pub published_at: String,
}

/// The note for one release GitHub listed: none without a tag name; a
/// missing body or date reads as empty.
pub fn release_note(tag_name: Option<String>, body: Option<String>, published_at: Option<String>) -> (r: Option<ReleaseNote>)
    ensures
        match r {
            Some(n) => tag_name matches Some(t) && n.version@ == t@
                && n.body@ == (match body { Some(b) => b@, None => Seq::<char>::empty() })
                && n.published_at@ == (match published_at { Some(p) => p@, None => Seq::<char>::empty() }),
            None => tag_name is None,
        },
{
    match tag_name {
        Some(version) => Some(ReleaseNote {
            version,
            body: match body { Some(b) => b, None => string_of(&Vec::new()) },
            published_at: match published_at { Some(p) => p, None => string_of(&Vec::new()) },
        }),
        None => None,
    }
}

} // verus!
