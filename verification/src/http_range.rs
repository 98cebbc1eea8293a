//! Minimal single-range `Range: bytes=...` parsing for mp4 serving.
//! Multi-range requests and non-byte units return None (caller sends 200).
use vstd::prelude::*;
use crate::text::{split_once_spec, chars_of, contains, copy_range, find, parse_u64, parse_unsigned, seq_contains, starts, starts_with, trim, trim_chars};

verus! {

/// Cap for open-ended ranges (`bytes=N-`): a 15 s H3 mp4 can be hundreds of
/// MB, and players re-request as they play, so never slurp the remainder.
pub const OPEN_END_CHUNK: u64 = 8388608;

/// The inclusive byte range that a `Range` header selects in a resource of
/// `len` bytes (RFC 7233, one range only), or `None` when the header is not a
/// single satisfiable byte range.
pub open spec fn range_spec(header: Seq<char>, len: nat) -> Option<(nat, nat)> {
    let h = trim(header);
    if len == 0 || !starts_with(h, "bytes="@) {
        None
    } else {
        let spec = h.skip(6);
        if seq_contains(spec, seq![',']) {
            None
        } else {
            match split_once_spec(spec, '-') {
                None => None,
                Some((a, b)) => {
                    let start_s = trim(a);
                    let end_s = trim(b);
                    if start_s.len() == 0 {
                        match parse_unsigned(end_s, u64::MAX as nat) {
                            Some(n) => if n == 0 {
                                None
                            } else {
                                Some((if n >= len { 0 } else { (len - n) as nat }, (len - 1) as nat))
                            },
                            None => None,
                        }
                    } else {
                        match parse_unsigned(start_s, u64::MAX as nat) {
                            None => None,
                            Some(start) => if start >= len {
                                None
                            } else {
                                let end_opt: Option<nat> = if end_s.len() == 0 {
                                    let cap = start + OPEN_END_CHUNK - 1;
                                    Some(if cap < len - 1 { cap as nat } else { (len - 1) as nat })
                                } else {
                                    match parse_unsigned(end_s, u64::MAX as nat) {
                                        Some(e) => Some(if e < len - 1 { e } else { (len - 1) as nat }),
                                        None => None,
                                    }
                                };
                                match end_opt {
                                    Some(end) => if end < start { None } else { Some((start, end)) },
                                    None => None,
                                }
                            },
                        }
                    }
                },
            }
        }
    }
}

/// Parse a `Range` header against a resource of `len` bytes into an inclusive
/// `(start, end)` pair, per RFC 7233 (single range only).
pub fn parse(header: &str, len: u64) -> (r: Option<(u64, u64)>)
    ensures
        match r {
            Some((s, e)) => range_spec(header@, len as nat) == Some((s as nat, e as nat)),
            None => range_spec(header@, len as nat) is None,
        },
        r matches Some((s, e)) ==> s <= e < len,
{
    proof { reveal_strlit("bytes="); }
    if len == 0 {
        return None;
    }
    let raw = chars_of(header);
    let h = trim_chars(&raw);
    if !starts(&h, "bytes=") {
        return None;
    }
    let spec = copy_range(&h, 6, h.len());
    assert(spec@ =~= h@.skip(6));
    let comma = vec![','];
    assert(comma@ =~= seq![',']);
    if contains(&spec, &comma) {
        return None;
    }
    let dash = vec!['-'];
    assert(dash@ =~= seq!['-']);
    let k = match find(&spec, &dash) {
        Some(k) => k,
        None => return None,
    };
    let a = copy_range(&spec, 0, k);
    let b = copy_range(&spec, k + 1, spec.len());
    assert(a@ =~= spec@.take(k as int));
    assert(b@ =~= spec@.skip(k + 1));
    let start_s = trim_chars(&a);
    let end_s = trim_chars(&b);
    if start_s.len() == 0 {
        let n = match parse_u64(&end_s) {
            Some(n) => n,
            None => return None,
        };
        if n == 0 {
            return None;
        }
        let first = if n >= len { 0 } else { len - n };
        return Some((first, len - 1));
    }
    let start = match parse_u64(&start_s) {
        Some(v) => v,
        None => return None,
    };
    if start >= len {
        return None;
    }
    let end = if end_s.len() == 0 {
        if start < len - 1 && len - 1 - start >= OPEN_END_CHUNK - 1 {
            start + (OPEN_END_CHUNK - 1)
        } else {
            len - 1
        }
    } else {
        match parse_u64(&end_s) {
            Some(e) => if e < len - 1 { e } else { len - 1 },
            None => return None,
        }
    };
    if end < start {
        return None;
    }
    Some((start, end))
}

} // verus!
