//! ComfyUI-Manager `config.ini` policy: the keys MooshieUI owns inside the
//! `[default]` section, rewritten line by line while every other line of the
//! file is kept.
use vstd::prelude::*;
use crate::paths::{absolute_path, joined_path, path_is_absolute, path_join};
use crate::text::{
    chars_of, copy_range, find, find_spec, join_chars, join_with, lower_chars, lower_seq,
    push_str, same_chars, seq_contains, split_chars, split_on, string_of, trim, trim_bounds,
    trim_chars, trim_start, views, has, starts, starts_with, string_views, is_ws, trim_end,
    first_at, occurs_at, lemma_find_some,
};

verus! {

// ---------------------------------------------------------------------------
// The managed keys
// ---------------------------------------------------------------------------

/// Key `i` of the three keys MooshieUI owns inside Manager's `[default]`
/// section. The two install flags are what the Node Manager permission
/// switch controls.
pub open spec fn policy_key(i: int) -> Seq<char> {
    if i == 0 {
        "security_level"@
    } else if i == 1 {
        "allow_git_url_install"@
    } else {
        "allow_pip_install"@
    }
}

/// The value key `i` gets: `security_level` stays `normal` in both modes;
/// the install flags follow the switch.
pub open spec fn policy_value(relaxed: bool, i: int) -> Seq<char> {
    if i == 0 {
        "normal"@
    } else if relaxed {
        "true"@
    } else {
        "false"@
    }
}

/// `key = value`.
pub open spec fn assign_line(key: Seq<char>, value: Seq<char>) -> Seq<char> {
    key + " = "@ + value
}

pub open spec fn policy_line(relaxed: bool, i: int) -> Seq<char> {
    assign_line(policy_key(i), policy_value(relaxed, i))
}

/// The policy lines for the keys not seen yet, in key order.
pub open spec fn missing_policy(seen: (bool, bool, bool), relaxed: bool) -> Seq<Seq<char>> {
    (if seen.0 { Seq::<Seq<char>>::empty() } else { seq![policy_line(relaxed, 0)] })
        + (if seen.1 { Seq::<Seq<char>>::empty() } else { seq![policy_line(relaxed, 1)] })
        + (if seen.2 { Seq::<Seq<char>>::empty() } else { seq![policy_line(relaxed, 2)] })
}

fn policy_key_str(i: usize) -> (r: &'static str)
    requires
        i < 3,
    ensures
        r@ == policy_key(i as int),
{
    if i == 0 {
        "security_level"
    } else if i == 1 {
        "allow_git_url_install"
    } else {
        "allow_pip_install"
    }
}

/// The values the three managed keys get under the chosen policy.
pub fn policy_values(relaxed: bool) -> (r: [&'static str; 3])
    ensures
        forall|i: int| 0 <= i < 3 ==> (#[trigger] r@[i])@ == policy_value(relaxed, i),
{
    if relaxed {
        ["normal", "true", "true"]
    } else {
        ["normal", "false", "false"]
    }
}

// ---------------------------------------------------------------------------
// Reading one line
// ---------------------------------------------------------------------------

/// ASCII-case-insensitive equality (`str::eq_ignore_ascii_case`).
pub open spec fn same_ignoring_case(a: Seq<char>, b: Seq<char>) -> bool {
    lower_seq(a) == lower_seq(b)
}

/// The name of a `[section]` header line, trimmed inside the brackets.
pub open spec fn section_spec(line: Seq<char>) -> Option<Seq<char>> {
    let t = trim(line);
    if t.len() >= 2 && t[0] == '[' && t.last() == ']' {
        Some(trim(t.subrange(1, t.len() - 1)))
    } else {
        None
    }
}

/// The trimmed key and value of a `key = value` or `key: value` line,
/// split at whichever separator comes first; comments and blank lines have
/// none.
pub open spec fn assignment_spec(line: Seq<char>) -> Option<(Seq<char>, Seq<char>)> {
    let t = trim_start(line);
    if t.len() == 0 || t[0] == '#' || t[0] == ';' {
        None
    } else {
        let split: Option<int> = match (find_spec(t, seq!['=']), find_spec(t, seq![':'])) {
            (Some(a), Some(b)) => Some(if a < b { a } else { b }),
            (Some(a), None) => Some(a),
            (None, Some(b)) => Some(b),
            (None, None) => None,
        };
        match split {
            Some(k) => Some((trim(t.take(k)), trim(t.skip(k + 1)))),
            None => None,
        }
    }
}

/// Which managed key `key` names, ignoring ASCII case.
pub open spec fn policy_index(key: Seq<char>) -> Option<int> {
    if same_ignoring_case(key, policy_key(0)) {
        Some(0)
    } else if same_ignoring_case(key, policy_key(1)) {
        Some(1)
    } else if same_ignoring_case(key, policy_key(2)) {
        Some(2)
    } else {
        None
    }
}

/// The network modes Manager understands.
pub open spec fn valid_network_mode(v: Seq<char>) -> bool {
    same_ignoring_case(v, "public"@) || same_ignoring_case(v, "private"@)
        || same_ignoring_case(v, "offline"@)
}

fn same_ignoring_case_of(a: &[char], lit: &str) -> (r: bool)
    ensures
        r == same_ignoring_case(a@, lit@),
{
    let la = lower_chars(a);
    let b = chars_of(lit);
    let lb = lower_chars(&b);
    same_chars(&la, &lb)
}

/// The section a header line opens, if the line is one.
pub fn section_name(line: &[char]) -> (r: Option<Vec<char>>)
    ensures
        match r {
            Some(n) => section_spec(line@) == Some(n@),
            None => section_spec(line@) is None,
        },
{
    let t = trim_chars(line);
    let n = t.len();
    if n >= 2 && t[0] == '[' && t[n - 1] == ']' {
        let inner = copy_range(&t, 1, n - 1);
        Some(trim_chars(&inner))
    } else {
        None
    }
}

/// The key and value of an assignment line, if the line is one.
pub fn split_assignment(line: &[char]) -> (r: Option<(Vec<char>, Vec<char>)>)
    ensures
        match r {
            Some((k, v)) => assignment_spec(line@) == Some((k@, v@)),
            None => assignment_spec(line@) is None,
        },
{
    let (a, _) = trim_bounds(line);
    let n = line.len();
    let t = copy_range(line, a, n);
    if t.len() == 0 || t[0] == '#' || t[0] == ';' {
        return None;
    }
    let eq = vec!['='];
    let colon = vec![':'];
    assert(eq@ =~= seq!['=']);
    assert(colon@ =~= seq![':']);
    let split: usize = match (find(&t, &eq), find(&t, &colon)) {
        (Some(x), Some(y)) => if x < y { x } else { y },
        (Some(x), None) => x,
        (None, Some(y)) => y,
        (None, None) => return None,
    };
    proof {
        assert(crate::text::occurs_at(t@, seq!['='], split as int) || crate::text::occurs_at(t@, seq![':'], split as int));
    }
    let tn = t.len();
    let key = copy_range(&t, 0, split);
    let value = copy_range(&t, split + 1, tn);
    assert(key@ =~= t@.take(split as int));
    assert(value@ =~= t@.skip(split + 1));
    Some((trim_chars(&key), trim_chars(&value)))
}

fn policy_index_of(key: &[char]) -> (r: Option<usize>)
    ensures
        match r {
            Some(i) => i < 3 && policy_index(key@) == Some(i as int),
            None => policy_index(key@) is None,
        },
{
    if same_ignoring_case_of(key, "security_level") {
        Some(0)
    } else if same_ignoring_case_of(key, "allow_git_url_install") {
        Some(1)
    } else if same_ignoring_case_of(key, "allow_pip_install") {
        Some(2)
    } else {
        None
    }
}

// ---------------------------------------------------------------------------
// Rewriting the file
// ---------------------------------------------------------------------------

/// Where the rewrite stands after some lines: the lines written so far,
/// which managed keys were written, whether a `[default]` section was seen,
/// and whether the current line is inside one.
pub struct IniState {
    pub out: Seq<Seq<char>>,
    pub seen: (bool, bool, bool),
    pub found_default: bool,
    pub in_default: bool,
}

pub open spec fn mark_seen(seen: (bool, bool, bool), i: int) -> (bool, bool, bool) {
    if i == 0 {
        (true, seen.1, seen.2)
    } else if i == 1 {
        (seen.0, true, seen.2)
    } else {
        (seen.0, seen.1, true)
    }
}

pub open spec fn with_out(st: IniState, out: Seq<Seq<char>>) -> IniState {
    IniState { out, seen: st.seen, found_default: st.found_default, in_default: st.in_default }
}

/// One line of the rewrite. A section header closes the current `[default]`
/// section (writing the managed keys it lacked) and is kept. Inside
/// `[default]`, a managed key is rewritten to its policy value and an
/// unusable `network_mode` is repaired to `public`. Every other line is
/// kept as it is.
pub open spec fn ini_step(st: IniState, line: Seq<char>, relaxed: bool) -> IniState {
    match section_spec(line) {
        Some(sec) => {
            let is_default = same_ignoring_case(sec, "default"@);
            let closed = if st.in_default { st.out + missing_policy(st.seen, relaxed) } else { st.out };
            IniState {
                out: closed.push(line),
                seen: st.seen,
                found_default: st.found_default || is_default,
                in_default: is_default,
            }
        },
        None => {
            if !st.in_default {
                with_out(st, st.out.push(line))
            } else {
                match assignment_spec(line) {
                    None => with_out(st, st.out.push(line)),
                    Some((key, value)) => match policy_index(key) {
                        Some(i) => IniState {
                            out: st.out.push(policy_line(relaxed, i)),
                            seen: mark_seen(st.seen, i),
                            found_default: st.found_default,
                            in_default: st.in_default,
                        },
                        None => if same_ignoring_case(key, "network_mode"@) && !valid_network_mode(value) {
                            with_out(st, st.out.push(assign_line("network_mode"@, "public"@)))
                        } else {
                            with_out(st, st.out.push(line))
                        },
                    },
                }
            }
        },
    }
}

pub open spec fn ini_start() -> IniState {
    IniState {
        out: Seq::<Seq<char>>::empty(),
        seen: (false, false, false),
        found_default: false,
        in_default: false,
    }
}

/// The rewrite after the given lines.
pub open spec fn ini_fold(lines: Seq<Seq<char>>, relaxed: bool) -> IniState
    decreases lines.len(),
{
    if lines.len() == 0 {
        ini_start()
    } else {
        ini_step(ini_fold(lines.drop_last(), relaxed), lines.last(), relaxed)
    }
}

/// The lines written once the input is over: an open `[default]` section
/// gets the keys it lacked; a file without one gets a `[default]` section
/// (after a blank line when the file does not already end with one).
pub open spec fn ini_finish(st: IniState, relaxed: bool) -> Seq<Seq<char>> {
    if st.in_default {
        st.out + missing_policy(st.seen, relaxed)
    } else if !st.found_default {
        let o = if st.out.len() > 0 && st.out.last().len() > 0 {
            st.out.push(Seq::<char>::empty())
        } else {
            st.out
        };
        o.push("[default]"@) + missing_policy(st.seen, relaxed)
    } else {
        st.out
    }
}

/// `\r\n` and lone `\r` line endings turned into `\n`.
pub open spec fn unify_newlines(s: Seq<char>) -> Seq<char>
    decreases s.len(),
{
    if s.len() == 0 {
        s
    } else if s.last() == '\n' && s.len() >= 2 && s[s.len() - 2] == '\r' {
        unify_newlines(s.take(s.len() - 2)).push('\n')
    } else if s.last() == '\r' {
        unify_newlines(s.drop_last()).push('\n')
    } else {
        unify_newlines(s.drop_last()).push(s.last())
    }
}

/// The lines of a `\n`-separated text (`str::lines`): a final line ending
/// opens no further line.
pub open spec fn text_lines(s: Seq<char>) -> Seq<Seq<char>> {
    let p = split_on(s, '\n');
    if p.last().len() == 0 {
        p.drop_last()
    } else {
        p
    }
}

/// The file after the policy rewrite, with the line ending it used
/// (`\r\n` if it held one anywhere, else `\n`) and a final line ending.
pub open spec fn updated_ini_spec(existing: Seq<char>, relaxed: bool) -> Seq<char> {
    let nl = if seq_contains(existing, "\r\n"@) { "\r\n"@ } else { "\n"@ };
    let lines = text_lines(unify_newlines(existing));
    join_with(ini_finish(ini_fold(lines, relaxed), relaxed), nl) + nl
}

fn unify_newlines_of(s: &[char]) -> (r: Vec<char>)
    ensures
        r@ == unify_newlines(s@),
{
    let n = s.len();
    let mut r: Vec<char> = Vec::new();
    let mut i: usize = 0;
    assert(s@.take(0) =~= Seq::<char>::empty());
    while i < n
        invariant
            n == s.len(),
            i <= n,
            r@ == unify_newlines(s@.take(i as int)),
            0 < i < n && s@[i - 1] == '\r' ==> s@[i as int] != '\n',
        decreases n - i,
    {
        if s[i] == '\r' && i + 1 < n && s[i + 1] == '\n' {
            let ghost t = s@.take(i + 2);
            assert(t.take(t.len() - 2) =~= s@.take(i as int));
            r.push('\n');
            i += 2;
        } else {
            let ghost t = s@.take(i + 1);
            assert(t.drop_last() =~= s@.take(i as int));
            if s[i] == '\r' {
                r.push('\n');
            } else {
                r.push(s[i]);
            }
            i += 1;
        }
    }
    assert(s@.take(n as int) =~= s@);
    r
}

/// Appends the policy lines for the keys not seen yet.
pub fn append_missing_policy(output: &mut Vec<Vec<char>>, seen: (bool, bool, bool), relaxed: bool)
    ensures
        views(final(output)@) == views(old(output)@) + missing_policy(seen, relaxed),
{
    let values = policy_values(relaxed);
    let ghost start = views(output@);
    let mut i: usize = 0;
    while i < 3
        invariant
            i <= 3,
            forall|j: int| 0 <= j < 3 ==> (#[trigger] values@[j])@ == policy_value(relaxed, j),
            views(output@) == start + missing_policy_upto(seen, relaxed, i as int),
        decreases 3 - i,
    {
        let already = if i == 0 { seen.0 } else if i == 1 { seen.1 } else { seen.2 };
        if !already {
            let mut line: Vec<char> = Vec::new();
            push_str(&mut line, policy_key_str(i));
            push_str(&mut line, " = ");
            push_str(&mut line, values[i]);
            assert(line@ =~= policy_line(relaxed, i as int));
            let ghost before = output@;
            output.push(line);
            assert(views(output@) =~= views(before).push(policy_line(relaxed, i as int)));
        }
        i += 1;
    }
    assert(missing_policy_upto(seen, relaxed, 3) =~= missing_policy(seen, relaxed)) by {
        reveal_with_fuel(missing_policy_upto, 4);
    }
}

/// The first `n` terms of `missing_policy`.
pub open spec fn missing_policy_upto(seen: (bool, bool, bool), relaxed: bool, n: int) -> Seq<Seq<char>>
    decreases n,
{
    if n <= 0 {
        Seq::<Seq<char>>::empty()
    } else {
        let s = if n - 1 == 0 { seen.0 } else if n - 1 == 1 { seen.1 } else { seen.2 };
        missing_policy_upto(seen, relaxed, n - 1)
            + (if s { Seq::<Seq<char>>::empty() } else { seq![policy_line(relaxed, n - 1)] })
    }
}

pub open spec fn state_of(
    out: Seq<Vec<char>>,
    seen: (bool, bool, bool),
    found_default: bool,
    in_default: bool,
) -> IniState {
    IniState { out: views(out), seen, found_default, in_default }
}

fn copy_line(line: &[char]) -> (r: Vec<char>)
    ensures
        r@ == line@,
{
    let n = line.len();
    let r = copy_range(line, 0, n);
    assert(r@ =~= line@);
    r
}

fn push_line(out: &mut Vec<Vec<char>>, line: Vec<char>)
    ensures
        views(final(out)@) == views(old(out)@).push(line@),
{
    let ghost before = out@;
    out.push(line);
    assert(views(out@) =~= views(before).push(line@));
}

/// Applies one line of the input to the rewrite (`ini_step`).
fn rewrite_line(
    out: &mut Vec<Vec<char>>,
    seen: &mut (bool, bool, bool),
    found: &mut bool,
    in_def: &mut bool,
    line: &[char],
    relaxed: bool,
)
    ensures
        state_of(final(out)@, *final(seen), *final(found), *final(in_def))
            == ini_step(state_of(old(out)@, *old(seen), *old(found), *old(in_def)), line@, relaxed),
{
    proof { reveal_strlit("network_mode"); reveal_strlit("public"); reveal_strlit(" = "); }
    match section_name(line) {
        Some(sec) => {
            if *in_def {
                append_missing_policy(out, *seen, relaxed);
            }
            let is_default = same_ignoring_case_of(&sec, "default");
            *in_def = is_default;
            *found = *found || is_default;
            push_line(out, copy_line(line));
        },
        None => {
            if !*in_def {
                push_line(out, copy_line(line));
                return;
            }
            match split_assignment(line) {
                None => {
                    push_line(out, copy_line(line));
                },
                Some((key, value)) => {
                    match policy_index_of(&key) {
                        Some(i) => {
                            let values = policy_values(relaxed);
                            let mut l: Vec<char> = Vec::new();
                            push_str(&mut l, policy_key_str(i));
                            push_str(&mut l, " = ");
                            push_str(&mut l, values[i]);
                            assert(l@ =~= policy_line(relaxed, i as int));
                            push_line(out, l);
                            if i == 0 {
                                seen.0 = true;
                            } else if i == 1 {
                                seen.1 = true;
                            } else {
                                seen.2 = true;
                            }
                        },
                        None => {
                            let is_mode = same_ignoring_case_of(&key, "network_mode");
                            let valid = same_ignoring_case_of(&value, "public")
                                || same_ignoring_case_of(&value, "private")
                                || same_ignoring_case_of(&value, "offline");
                            if is_mode && !valid {
                                let mut l: Vec<char> = Vec::new();
                                push_str(&mut l, "network_mode = public");
                                assert(l@ =~= assign_line("network_mode"@, "public"@)) by {
                                    reveal_strlit("network_mode = public");
                                }
                                push_line(out, l);
                            } else {
                                push_line(out, copy_line(line));
                            }
                        },
                    }
                },
            }
        },
    }
}

/// Rewrite Manager's `config.ini` text so that the three managed keys of
/// its `[default]` section carry the chosen policy, repairing a
/// `network_mode` Manager cannot read and keeping every other line.
pub fn update_manager_ini(existing: &str, relaxed: bool) -> (r: String)
    ensures
        r@ == updated_ini_spec(existing@, relaxed),
{
    proof { reveal_strlit("\r\n"); reveal_strlit("\n"); reveal_strlit("[default]"); }
    let all = chars_of(existing);
    let crlf = has(&all, "\r\n");
    let mut nl: Vec<char> = Vec::new();
    if crlf {
        push_str(&mut nl, "\r\n");
    } else {
        push_str(&mut nl, "\n");
    }
    let norm = unify_newlines_of(&all);
    let pieces = split_chars(&norm, '\n');
    let ghost ps = split_on(norm@, '\n');
    assert(views(pieces@) == ps);
    proof { crate::text::lemma_split_on_nonempty(norm@, '\n'); }
    let np = pieces.len();
    let count: usize = if pieces[np - 1].len() == 0 { np - 1 } else { np };
    let ghost lines = text_lines(norm@);
    assert(pieces@[np - 1]@ == ps.last());
    assert(lines =~= ps.take(count as int));
    let mut out: Vec<Vec<char>> = Vec::new();
    let mut seen: (bool, bool, bool) = (false, false, false);
    let mut found = false;
    let mut in_def = false;
    let mut k: usize = 0;
    assert(lines.take(0) =~= Seq::<Seq<char>>::empty());
    assert(views(out@) =~= Seq::<Seq<char>>::empty());
    while k < count
        invariant
            k <= count <= pieces.len(),
            views(pieces@) == ps,
            lines == ps.take(count as int),
            state_of(out@, seen, found, in_def) == ini_fold(lines.take(k as int), relaxed),
        decreases count - k,
    {
        assert(pieces@[k as int]@ == lines[k as int]);
        assert(lines.take(k + 1).drop_last() =~= lines.take(k as int));
        rewrite_line(&mut out, &mut seen, &mut found, &mut in_def, &pieces[k], relaxed);
        k += 1;
    }
    assert(lines.take(count as int) =~= lines);
    let ghost st = ini_fold(lines, relaxed);
    if in_def {
        append_missing_policy(&mut out, seen, relaxed);
    } else if !found {
        let no = out.len();
        if no > 0 && out[no - 1].len() > 0 {
            assert(views(out@).last() == out@[no - 1]@);
            push_line(&mut out, Vec::new());
        } else {
            proof {
                if no > 0 {
                    assert(views(out@).last() == out@[no - 1]@);
                }
            }
        }
        let mut d: Vec<char> = Vec::new();
        push_str(&mut d, "[default]");
        push_line(&mut out, d);
        append_missing_policy(&mut out, seen, relaxed);
    }
    assert(views(out@) == ini_finish(st, relaxed));
    let mut joined = join_chars(&out, &nl);
    crate::text::push_all(&mut joined, &nl);
    string_of(&joined)
}

pub open spec fn seen_key(seen: (bool, bool, bool), i: int) -> bool {
    if i == 0 { seen.0 } else if i == 1 { seen.1 } else { seen.2 }
}

/// What holds of the written lines after any prefix of the input: a key
/// marked as written has its policy line there, and once a `[default]`
/// section has been left every policy line is there.
pub open spec fn policy_written(st: IniState, relaxed: bool) -> bool {
    forall|i: int| 0 <= i < 3 ==> {
        &&& (seen_key(st.seen, i) ==> #[trigger] st.out.contains(policy_line(relaxed, i)))
        &&& (st.found_default && !st.in_default ==> st.out.contains(policy_line(relaxed, i)))
    }
}

proof fn lemma_contains_grows(a: Seq<Seq<char>>, b: Seq<Seq<char>>, x: Seq<char>)
    requires
        a.contains(x),
    ensures
        (a + b).contains(x),
{
    let k = choose|k: int| 0 <= k < a.len() && a[k] == x;
    assert((a + b)[k] == x);
}

proof fn lemma_missing_has(seen: (bool, bool, bool), relaxed: bool, i: int)
    requires
        0 <= i < 3,
        !seen_key(seen, i),
    ensures
        missing_policy(seen, relaxed).contains(policy_line(relaxed, i)),
{
    let m = missing_policy(seen, relaxed);
    let a = if seen.0 { Seq::<Seq<char>>::empty() } else { seq![policy_line(relaxed, 0)] };
    let b = if seen.1 { Seq::<Seq<char>>::empty() } else { seq![policy_line(relaxed, 1)] };
    if i == 0 {
        assert(m[0] == policy_line(relaxed, 0));
    } else if i == 1 {
        assert(m[a.len() as int] == policy_line(relaxed, 1));
    } else {
        assert(m[(a.len() + b.len()) as int] == policy_line(relaxed, 2));
    }
}

proof fn lemma_closing_writes_all(out: Seq<Seq<char>>, seen: (bool, bool, bool), relaxed: bool, i: int)
    requires
        0 <= i < 3,
        seen_key(seen, i) ==> out.contains(policy_line(relaxed, i)),
    ensures
        (out + missing_policy(seen, relaxed)).contains(policy_line(relaxed, i)),
{
    let m = missing_policy(seen, relaxed);
    if seen_key(seen, i) {
        lemma_contains_grows(out, m, policy_line(relaxed, i));
    } else {
        lemma_missing_has(seen, relaxed, i);
        let k = choose|k: int| 0 <= k < m.len() && m[k] == policy_line(relaxed, i);
        assert((out + m)[out.len() + k] == policy_line(relaxed, i));
    }
}

proof fn lemma_step_keeps_policy_written(st: IniState, line: Seq<char>, relaxed: bool)
    requires
        policy_written(st, relaxed),
    ensures
        policy_written(ini_step(st, line, relaxed), relaxed),
{
    let nx = ini_step(st, line, relaxed);
    assert forall|i: int| 0 <= i < 3 implies {
        &&& (seen_key(nx.seen, i) ==> #[trigger] nx.out.contains(policy_line(relaxed, i)))
        &&& (nx.found_default && !nx.in_default ==> nx.out.contains(policy_line(relaxed, i)))
    } by {
        let x = policy_line(relaxed, i);
        match section_spec(line) {
            Some(sec) => {
                if st.in_default {
                    lemma_closing_writes_all(st.out, st.seen, relaxed, i);
                    let c = st.out + missing_policy(st.seen, relaxed);
                    lemma_contains_grows(c, seq![line], x);
                    assert(c + seq![line] =~= nx.out);
                } else {
                    if st.out.contains(x) {
                        lemma_contains_grows(st.out, seq![line], x);
                        assert(st.out + seq![line] =~= nx.out);
                    }
                }
            },
            None => {
                if st.out.contains(x) {
                    lemma_contains_grows(st.out, seq![nx.out.last()], x);
                    assert(st.out + seq![nx.out.last()] =~= nx.out);
                }
                if nx.seen != st.seen && seen_key(nx.seen, i) && !seen_key(st.seen, i) {
                    assert(nx.out.last() == x);
                    assert(nx.out[nx.out.len() - 1] == x);
                }
            },
        }
    }
}

proof fn lemma_fold_policy_written(lines: Seq<Seq<char>>, relaxed: bool)
    ensures
        policy_written(ini_fold(lines, relaxed), relaxed),
    decreases lines.len(),
{
    if lines.len() > 0 {
        lemma_fold_policy_written(lines.drop_last(), relaxed);
        lemma_step_keeps_policy_written(ini_fold(lines.drop_last(), relaxed), lines.last(), relaxed);
    }
}

/// Whatever the file held, the rewrite writes the policy line of every
/// managed key.
pub proof fn every_policy_line_is_written(existing: Seq<char>, relaxed: bool, i: int)
    requires
        0 <= i < 3,
    ensures
        ini_finish(ini_fold(text_lines(unify_newlines(existing)), relaxed), relaxed).contains(
            policy_line(relaxed, i),
        ),
{
    let st = ini_fold(text_lines(unify_newlines(existing)), relaxed);
    lemma_fold_policy_written(text_lines(unify_newlines(existing)), relaxed);
    let x = policy_line(relaxed, i);
    assert(seen_key(st.seen, i) ==> st.out.contains(x));
    if st.in_default {
        lemma_closing_writes_all(st.out, st.seen, relaxed, i);
    } else if !st.found_default {
        let o = if st.out.len() > 0 && st.out.last().len() > 0 {
            st.out.push(Seq::<char>::empty())
        } else {
            st.out
        };
        if seen_key(st.seen, i) {
            lemma_contains_grows(st.out, o.skip(st.out.len() as int), x);
            assert(st.out + o.skip(st.out.len() as int) =~= o);
        }
        let o2 = o.push("[default]"@);
        if o.contains(x) {
            lemma_contains_grows(o, seq!["[default]"@], x);
            assert(o + seq!["[default]"@] =~= o2);
        }
        lemma_closing_writes_all(o2, st.seen, relaxed, i);
    }
}

// ---------------------------------------------------------------------------
// Rewriting a rewritten file
// ---------------------------------------------------------------------------

/// Text fit to stand on either side of `key = value`: not empty, no white
/// space at its ends, no `=` or `:`, and not starting a comment or section.
pub open spec fn plain_word(w: Seq<char>) -> bool {
    &&& w.len() > 0
    &&& !is_ws(w[0])
    &&& !is_ws(w.last())
    &&& w[0] != '#' && w[0] != ';' && w[0] != '['
    &&& forall|i: int| 0 <= i < w.len() ==> #[trigger] w[i] != '=' && w[i] != ':'
}

proof fn lemma_solid_trim(t: Seq<char>)
    requires
        t.len() > 0,
        !is_ws(t[0]),
        !is_ws(t.last()),
    ensures
        trim(t) == t,
{
    assert(trim_start(t) == t);
    assert(trim_end(t) == t);
}

proof fn lemma_first_below(s: Seq<char>, p: Seq<char>, i: int)
    requires
        occurs_at(s, p, i),
    ensures
        exists|j: int| first_at(s, p, j),
    decreases i,
{
    if exists|j: int| 0 <= j < i && occurs_at(s, p, j) {
        let j = choose|j: int| 0 <= j < i && occurs_at(s, p, j);
        lemma_first_below(s, p, j);
    } else {
        assert(first_at(s, p, i));
    }
}

/// A `key = value` line of plain words is no section header and reads back
/// as that key and value.
proof fn lemma_assign_line_reads_back(k: Seq<char>, v: Seq<char>)
    requires
        plain_word(k),
        plain_word(v),
    ensures
        section_spec(assign_line(k, v)) is None,
        assignment_spec(assign_line(k, v)) == Some((k, v)),
{
    let line = assign_line(k, v);
    let n: int = k.len() as int;
    assert(line =~= k + seq![' ', '=', ' '] + v) by { reveal_strlit(" = "); }
    assert(line[0] == k[0]);
    assert(line.last() == v.last());
    lemma_solid_trim(line);
    assert(trim_start(line) == line);
    // `=` first occurs right after the key and a space.
    assert(line[n + 1] == '=');
    assert(line.subrange(n + 1, n + 2) =~= seq!['=']);
    assert forall|j: int| 0 <= j < n + 1 implies !occurs_at(line, seq!['='], j) by {
        if j < n {
            assert(line[j] == k[j]);
            assert(line.subrange(j, j + 1)[0] == line[j]);
        } else {
            assert(line.subrange(j, j + 1)[0] == line[j]);
        }
    }
    assert(first_at(line, seq!['='], n + 1));
    lemma_find_some(line, seq!['='], n + 1);
    // Any `:` comes after the `=`.
    if seq_contains(line, seq![':']) {
        let w = choose|i: int| occurs_at(line, seq![':'], i);
        lemma_first_below(line, seq![':'], w);
        let j = choose|i: int| first_at(line, seq![':'], i);
        lemma_find_some(line, seq![':'], j);
        assert(line.subrange(j, j + 1)[0] == line[j]);
        if j < n {
            assert(line[j] == k[j]);
        }
        assert(j > n + 1);
    }
    assert(line.take(n + 1) =~= k.push(' '));
    assert(trim_start(k.push(' ')) == k.push(' ')) by {
        assert(k.push(' ')[0] == k[0]);
    }
    assert(trim_end(k.push(' ')) == trim_end(k)) by {
        assert(k.push(' ').drop_last() =~= k);
    }
    lemma_solid_trim(k);
    assert(line.skip(n + 2) =~= seq![' '] + v);
    assert(trim_start(seq![' '] + v) == trim_start(v)) by {
        assert((seq![' '] + v).drop_first() =~= v);
    }
    lemma_solid_trim(v);
    assert(trim_start(v) == v);
    assert(trim(v) == v);
}

proof fn lemma_plain_literal(w: Seq<char>)
    requires
        w.len() > 0,
        !is_ws(w[0]),
        !is_ws(w.last()),
        w[0] != '#' && w[0] != ';' && w[0] != '[',
        forall|i: int| 0 <= i < w.len() ==> ('a' <= #[trigger] w[i] && w[i] <= 'z') || w[i] == '_',
    ensures
        plain_word(w),
{
}

/// The managed keys and their values are plain words, and each key is the
/// managed key it spells; `network_mode = public` is no managed line and is
/// a valid mode.
proof fn lemma_policy_words(relaxed: bool, i: int)
    requires
        0 <= i < 3,
    ensures
        plain_word(policy_key(i)),
        plain_word(policy_value(relaxed, i)),
        policy_index(policy_key(i)) == Some(i),
        plain_word("network_mode"@),
        plain_word("public"@),
        policy_index("network_mode"@) is None,
        same_ignoring_case("network_mode"@, "network_mode"@),
        valid_network_mode("public"@),
{
    reveal_strlit("security_level");
    reveal_strlit("allow_git_url_install");
    reveal_strlit("allow_pip_install");
    reveal_strlit("normal");
    reveal_strlit("true");
    reveal_strlit("false");
    reveal_strlit("network_mode");
    reveal_strlit("public");
    lemma_plain_literal("security_level"@);
    lemma_plain_literal("allow_git_url_install"@);
    lemma_plain_literal("allow_pip_install"@);
    lemma_plain_literal("normal"@);
    lemma_plain_literal("true"@);
    lemma_plain_literal("false"@);
    lemma_plain_literal("network_mode"@);
    lemma_plain_literal("public"@);
    assert(lower_seq(policy_key(0)).len() == 14);
    assert(lower_seq(policy_key(1)).len() == 21);
    assert(lower_seq(policy_key(2)).len() == 17);
    assert(lower_seq("network_mode"@).len() == 12);
}

/// The rewrite from state `st` over the given lines.
pub open spec fn ini_run(st: IniState, lines: Seq<Seq<char>>, relaxed: bool) -> IniState
    decreases lines.len(),
{
    if lines.len() == 0 {
        st
    } else {
        ini_step(ini_run(st, lines.drop_last(), relaxed), lines.last(), relaxed)
    }
}

proof fn lemma_fold_is_run(lines: Seq<Seq<char>>, relaxed: bool)
    ensures
        ini_fold(lines, relaxed) == ini_run(ini_start(), lines, relaxed),
    decreases lines.len(),
{
    if lines.len() > 0 {
        lemma_fold_is_run(lines.drop_last(), relaxed);
    }
}

proof fn lemma_run_concat(st: IniState, a: Seq<Seq<char>>, b: Seq<Seq<char>>, relaxed: bool)
    ensures
        ini_run(st, a + b, relaxed) == ini_run(ini_run(st, a, relaxed), b, relaxed),
    decreases b.len(),
{
    if b.len() == 0 {
        assert(a + b =~= a);
    } else {
        assert((a + b).drop_last() =~= a + b.drop_last());
        assert((a + b).last() == b.last());
        lemma_run_concat(st, a, b.drop_last(), relaxed);
    }
}

proof fn lemma_run_one(st: IniState, x: Seq<char>, relaxed: bool)
    ensures
        ini_run(st, seq![x], relaxed) == ini_step(st, x, relaxed),
{
    let one = seq![x];
    assert(one.drop_last() =~= Seq::<Seq<char>>::empty());
    assert(one.last() == x);
    assert(ini_run(st, one.drop_last(), relaxed) == st);
}

/// Inside `[default]`, a policy line is rewritten to itself and marks its key.
proof fn lemma_step_policy(st: IniState, relaxed: bool, i: int)
    requires
        st.in_default,
        0 <= i < 3,
    ensures
        ini_step(st, policy_line(relaxed, i), relaxed) == (IniState {
            out: st.out.push(policy_line(relaxed, i)),
            seen: mark_seen(st.seen, i),
            found_default: st.found_default,
            in_default: true,
        }),
{
    lemma_policy_words(relaxed, i);
    lemma_assign_line_reads_back(policy_key(i), policy_value(relaxed, i));
}

pub open spec fn seen_all_but(seen: (bool, bool, bool), s: (bool, bool, bool)) -> (bool, bool, bool) {
    (seen.0 || !s.0, seen.1 || !s.1, seen.2 || !s.2)
}

/// Inside `[default]`, the missing policy lines are rewritten to themselves
/// and mark their keys.
proof fn lemma_run_missing(st: IniState, s: (bool, bool, bool), relaxed: bool)
    requires
        st.in_default,
    ensures
        ini_run(st, missing_policy(s, relaxed), relaxed) == (IniState {
            out: st.out + missing_policy(s, relaxed),
            seen: seen_all_but(st.seen, s),
            found_default: st.found_default,
            in_default: true,
        }),
{
    let a = if s.0 { Seq::<Seq<char>>::empty() } else { seq![policy_line(relaxed, 0)] };
    let b = if s.1 { Seq::<Seq<char>>::empty() } else { seq![policy_line(relaxed, 1)] };
    let c = if s.2 { Seq::<Seq<char>>::empty() } else { seq![policy_line(relaxed, 2)] };
    lemma_run_concat(st, a + b, c, relaxed);
    lemma_run_concat(st, a, b, relaxed);
    let s0 = ini_run(st, a, relaxed);
    if !s.0 {
        lemma_run_one(st, policy_line(relaxed, 0), relaxed);
        lemma_step_policy(st, relaxed, 0);
    }
    assert(s0.out == st.out + a);
    let s1 = ini_run(s0, b, relaxed);
    if !s.1 {
        lemma_run_one(s0, policy_line(relaxed, 1), relaxed);
        lemma_step_policy(s0, relaxed, 1);
    }
    assert(s1.out =~= st.out + a + b);
    let s2 = ini_run(s1, c, relaxed);
    if !s.2 {
        lemma_run_one(s1, policy_line(relaxed, 2), relaxed);
        lemma_step_policy(s1, relaxed, 2);
    }
    assert(s2.out =~= st.out + missing_policy(s, relaxed));
}

pub open spec fn seen_or(seen: (bool, bool, bool), c: bool) -> (bool, bool, bool) {
    (seen.0 || c, seen.1 || c, seen.2 || c)
}

/// How a second rewrite over the lines written so far stands beside the
/// first: the same lines and sections, and every key written once a
/// `[default]` section has been closed.
pub open spec fn rereads(st1: IniState, st2: IniState, c: bool) -> bool {
    &&& st2.out == st1.out
    &&& st2.found_default == st1.found_default
    &&& st2.in_default == st1.in_default
    &&& st2.seen == seen_or(st1.seen, c)
    &&& (c ==> st1.found_default)
    &&& (st1.found_default && !st1.in_default ==> c)
    &&& (st1.in_default ==> st1.found_default)
}

proof fn lemma_reread_step(st1: IniState, st2: IniState, c: bool, x: Seq<char>, relaxed: bool) -> (c2: bool)
    requires
        rereads(st1, st2, c),
    ensures
        ini_step(st1, x, relaxed).out.len() >= st1.out.len(),
        rereads(
            ini_step(st1, x, relaxed),
            ini_run(
                st2,
                ini_step(st1, x, relaxed).out.skip(st1.out.len() as int),
                relaxed,
            ),
            c2,
        ),
{
    reveal_strlit("network_mode");
    reveal_strlit("public");
    let n1 = ini_step(st1, x, relaxed);
    let e = n1.out.skip(st1.out.len() as int);
    match section_spec(x) {
        Some(sec) => {
            if st1.in_default {
                let m = missing_policy(st1.seen, relaxed);
                assert(e =~= m + seq![x]);
                lemma_run_concat(st2, m, seq![x], relaxed);
                lemma_run_missing(st2, st1.seen, relaxed);
                let mid = ini_run(st2, m, relaxed);
                assert(mid.seen == (true, true, true));
                lemma_run_one(mid, x, relaxed);
                assert(missing_policy((true, true, true), relaxed) =~= Seq::<Seq<char>>::empty());
                assert(mid.out + missing_policy(mid.seen, relaxed) =~= mid.out);
                assert(ini_run(st2, e, relaxed).out =~= n1.out);
                true
            } else {
                assert(e =~= seq![x]);
                lemma_run_one(st2, x, relaxed);
                c
            }
        },
        None => {
            assert(e =~= seq![n1.out.last()]);
            lemma_run_one(st2, n1.out.last(), relaxed);
            if st1.in_default {
                match assignment_spec(x) {
                    None => {},
                    Some((key, value)) => match policy_index(key) {
                        Some(i) => {
                            lemma_step_policy(st2, relaxed, i);
                        },
                        None => {
                            if same_ignoring_case(key, "network_mode"@) && !valid_network_mode(value) {
                                lemma_policy_words(relaxed, 0);
                                lemma_assign_line_reads_back("network_mode"@, "public"@);
                            }
                        },
                    },
                }
            }
            c
        },
    }
}

proof fn lemma_reread_fold(lines: Seq<Seq<char>>, relaxed: bool) -> (c: bool)
    ensures
        rereads(ini_fold(lines, relaxed), ini_fold(ini_fold(lines, relaxed).out, relaxed), c),
    decreases lines.len(),
{
    if lines.len() == 0 {
        assert(ini_fold(ini_fold(lines, relaxed).out, relaxed) == ini_start());
        false
    } else {
        let st1 = ini_fold(lines.drop_last(), relaxed);
        let c = lemma_reread_fold(lines.drop_last(), relaxed);
        let st2 = ini_fold(st1.out, relaxed);
        let n1 = ini_step(st1, lines.last(), relaxed);
        let c2 = lemma_reread_step(st1, st2, c, lines.last(), relaxed);
        let e = n1.out.skip(st1.out.len() as int);
        assert(st1.out + e =~= n1.out);
        lemma_fold_is_run(n1.out, relaxed);
        lemma_fold_is_run(st1.out, relaxed);
        lemma_run_concat(ini_start(), st1.out, e, relaxed);
        c2
    }
}

proof fn lemma_default_header()
    ensures
        section_spec("[default]"@) == Some("default"@),
        same_ignoring_case("default"@, "default"@),
        section_spec(Seq::<char>::empty()) is None,
{
    reveal_strlit("[default]");
    reveal_strlit("default");
    let h = "[default]"@;
    lemma_solid_trim(h);
    assert(h.subrange(1, 8) =~= "default"@);
    lemma_solid_trim("default"@);
    assert(trim_start(Seq::<char>::empty()) == Seq::<char>::empty());
    assert(trim_end(Seq::<char>::empty()) == Seq::<char>::empty());
}

/// Rewriting the lines a rewrite wrote gives those lines back.
pub proof fn rewriting_rewritten_lines_keeps_them(lines: Seq<Seq<char>>, relaxed: bool)
    ensures
        ({
            let o = ini_finish(ini_fold(lines, relaxed), relaxed);
            ini_finish(ini_fold(o, relaxed), relaxed) == o
        }),
{
    let st1 = ini_fold(lines, relaxed);
    let c = lemma_reread_fold(lines, relaxed);
    let st2 = ini_fold(st1.out, relaxed);
    let o = ini_finish(st1, relaxed);
    let e = o.skip(st1.out.len() as int);
    lemma_fold_is_run(o, relaxed);
    lemma_fold_is_run(st1.out, relaxed);
    assert(missing_policy((true, true, true), relaxed) =~= Seq::<Seq<char>>::empty());
    if st1.in_default {
        let m = missing_policy(st1.seen, relaxed);
        assert(st1.out + m =~= o);
        lemma_run_concat(ini_start(), st1.out, m, relaxed);
        lemma_run_missing(st2, st1.seen, relaxed);
        assert(ini_fold(o, relaxed).out + missing_policy(ini_fold(o, relaxed).seen, relaxed) =~= o);
    } else if !st1.found_default {
        assert(seen_or(st1.seen, false) == st1.seen);
        lemma_default_header();
        let m = missing_policy(st1.seen, relaxed);
        let pad = if st1.out.len() > 0 && st1.out.last().len() > 0 {
            seq![Seq::<char>::empty()]
        } else {
            Seq::<Seq<char>>::empty()
        };
        assert(o =~= st1.out + pad + seq!["[default]"@] + m);
        lemma_run_concat(ini_start(), st1.out, pad, relaxed);
        let s_pad = ini_run(st2, pad, relaxed);
        if pad.len() > 0 {
            lemma_run_one(st2, Seq::<char>::empty(), relaxed);
        }
        assert(s_pad.out =~= st1.out + pad);
        lemma_run_concat(ini_start(), st1.out + pad, seq!["[default]"@], relaxed);
        lemma_run_one(s_pad, "[default]"@, relaxed);
        let s_head = ini_run(s_pad, seq!["[default]"@], relaxed);
        assert(s_head.in_default);
        lemma_run_concat(ini_start(), st1.out + pad + seq!["[default]"@], m, relaxed);
        lemma_run_missing(s_head, st1.seen, relaxed);
        assert(ini_fold(o, relaxed).out =~= o);
        assert(ini_fold(o, relaxed).out + missing_policy(ini_fold(o, relaxed).seen, relaxed) =~= o);
    } else {
        assert(o == st1.out);
    }
}

/// A line holds no line break.
pub open spec fn line_free(l: Seq<char>) -> bool {
    !l.contains('\n') && !l.contains('\r')
}

pub open spec fn lines_free(ls: Seq<Seq<char>>) -> bool {
    forall|j: int| 0 <= j < ls.len() ==> #[trigger] line_free(ls[j])
}

proof fn lemma_free_concat(a: Seq<char>, b: Seq<char>)
    requires
        line_free(a),
        line_free(b),
    ensures
        line_free(a + b),
{
    let ab = a + b;
    if ab.contains('\n') || ab.contains('\r') {
        let k = choose|k: int| 0 <= k < ab.len() && (ab[k] == '\n' || ab[k] == '\r');
        if k < a.len() {
            assert(ab[k] == a[k]);
        } else {
            assert(ab[k] == b[k - a.len()]);
        }
    }
}

proof fn lemma_lines_free_concat(a: Seq<Seq<char>>, b: Seq<Seq<char>>)
    requires
        lines_free(a),
        lines_free(b),
    ensures
        lines_free(a + b),
{
    assert forall|j: int| 0 <= j < (a + b).len() implies #[trigger] line_free((a + b)[j]) by {
        if j < a.len() {
            assert((a + b)[j] == a[j]);
        } else {
            assert((a + b)[j] == b[j - a.len()]);
        }
    }
}

proof fn lemma_word_free(w: Seq<char>)
    requires
        forall|i: int| 0 <= i < w.len() ==> ('a' <= #[trigger] w[i] && w[i] <= 'z') || w[i] == '_',
    ensures
        line_free(w),
{
}

/// The lines the rewrite writes itself hold no line break.
proof fn lemma_written_lines_free(relaxed: bool)
    ensures
        forall|i: int| 0 <= i < 3 ==> #[trigger] line_free(policy_line(relaxed, i)),
        line_free(assign_line("network_mode"@, "public"@)),
        line_free("[default]"@),
        line_free(Seq::<char>::empty()),
        forall|s: (bool, bool, bool)| #[trigger] lines_free(missing_policy(s, relaxed)),
{
    reveal_strlit("security_level");
    reveal_strlit("allow_git_url_install");
    reveal_strlit("allow_pip_install");
    reveal_strlit("normal");
    reveal_strlit("true");
    reveal_strlit("false");
    reveal_strlit("network_mode");
    reveal_strlit("public");
    reveal_strlit(" = ");
    reveal_strlit("[default]");
    let sep = " = "@;
    assert(line_free(sep));
    assert(line_free("[default]"@));
    lemma_word_free("security_level"@);
    lemma_word_free("allow_git_url_install"@);
    lemma_word_free("allow_pip_install"@);
    lemma_word_free("normal"@);
    lemma_word_free("true"@);
    lemma_word_free("false"@);
    lemma_word_free("network_mode"@);
    lemma_word_free("public"@);
    assert forall|k: Seq<char>, v: Seq<char>| line_free(k) && line_free(v) implies #[trigger] line_free(
        assign_line(k, v),
    ) by {
        lemma_free_concat(k, sep);
        lemma_free_concat(k + sep, v);
    }
    assert forall|i: int| 0 <= i < 3 implies #[trigger] line_free(policy_line(relaxed, i)) by {
        assert(line_free(assign_line(policy_key(i), policy_value(relaxed, i))));
    }
    assert(line_free(assign_line("network_mode"@, "public"@)));
    assert forall|s: (bool, bool, bool)| #[trigger] lines_free(missing_policy(s, relaxed)) by {
        let a = if s.0 { Seq::<Seq<char>>::empty() } else { seq![policy_line(relaxed, 0)] };
        let b = if s.1 { Seq::<Seq<char>>::empty() } else { seq![policy_line(relaxed, 1)] };
        let c = if s.2 { Seq::<Seq<char>>::empty() } else { seq![policy_line(relaxed, 2)] };
        assert(line_free(policy_line(relaxed, 0)));
        assert(line_free(policy_line(relaxed, 1)));
        assert(line_free(policy_line(relaxed, 2)));
        assert(lines_free(a));
        assert(lines_free(b));
        assert(lines_free(c));
        lemma_lines_free_concat(a, b);
        lemma_lines_free_concat(a + b, c);
    }
}

proof fn lemma_step_free(st: IniState, x: Seq<char>, relaxed: bool)
    requires
        lines_free(st.out),
        line_free(x),
    ensures
        lines_free(ini_step(st, x, relaxed).out),
        ini_step(st, x, relaxed).out.len() > st.out.len(),
{
    lemma_written_lines_free(relaxed);
    let n = ini_step(st, x, relaxed);
    let closed = if st.in_default { st.out + missing_policy(st.seen, relaxed) } else { st.out };
    lemma_lines_free_concat(st.out, missing_policy(st.seen, relaxed));
    let last = n.out.last();
    assert(line_free(last));
    match section_spec(x) {
        Some(_) => {
            lemma_lines_free_concat(closed, seq![x]);
            assert(closed.push(x) =~= closed + seq![x]);
        },
        None => {
            lemma_lines_free_concat(st.out, seq![last]);
            assert(n.out =~= st.out + seq![last]);
        },
    }
}

proof fn lemma_fold_free(lines: Seq<Seq<char>>, relaxed: bool)
    requires
        lines_free(lines),
    ensures
        lines_free(ini_fold(lines, relaxed).out),
        ini_fold(lines, relaxed).found_default ==> ini_fold(lines, relaxed).out.len() > 0,
    decreases lines.len(),
{
    if lines.len() > 0 {
        let l0 = lines.drop_last();
        assert forall|j: int| 0 <= j < l0.len() implies #[trigger] line_free(l0[j]) by {
            assert(l0[j] == lines[j]);
        }
        lemma_fold_free(l0, relaxed);
        assert(line_free(lines[lines.len() - 1]));
        lemma_step_free(ini_fold(l0, relaxed), lines.last(), relaxed);
    }
}

proof fn lemma_finish_free(lines: Seq<Seq<char>>, relaxed: bool)
    requires
        lines_free(lines),
    ensures
        lines_free(ini_finish(ini_fold(lines, relaxed), relaxed)),
        ini_finish(ini_fold(lines, relaxed), relaxed).len() > 0,
{
    let st = ini_fold(lines, relaxed);
    lemma_fold_free(lines, relaxed);
    lemma_written_lines_free(relaxed);
    let m = missing_policy(st.seen, relaxed);
    if st.in_default {
        lemma_lines_free_concat(st.out, m);
    } else if !st.found_default {
        let pad = if st.out.len() > 0 && st.out.last().len() > 0 {
            seq![Seq::<char>::empty()]
        } else {
            Seq::<Seq<char>>::empty()
        };
        assert(lines_free(pad));
        lemma_lines_free_concat(st.out, pad);
        lemma_lines_free_concat(st.out + pad, seq!["[default]"@]);
        lemma_lines_free_concat(st.out + pad + seq!["[default]"@], m);
        assert(ini_finish(st, relaxed) =~= st.out + pad + seq!["[default]"@] + m);
    }
}

proof fn lemma_unify_no_cr(s: Seq<char>)
    ensures
        !unify_newlines(s).contains('\r'),
    decreases s.len(),
{
    if s.len() > 0 {
        let u = unify_newlines(s);
        if s.last() == '\n' && s.len() >= 2 && s[s.len() - 2] == '\r' {
            lemma_unify_no_cr(s.take(s.len() - 2));
            let p = unify_newlines(s.take(s.len() - 2));
            if u.contains('\r') {
                let k = choose|k: int| 0 <= k < u.len() && u[k] == '\r';
                assert(k < p.len() ==> u[k] == p[k]);
            }
        } else {
            lemma_unify_no_cr(s.drop_last());
            let p = unify_newlines(s.drop_last());
            if u.contains('\r') {
                let k = choose|k: int| 0 <= k < u.len() && u[k] == '\r';
                assert(k < p.len() ==> u[k] == p[k]);
            }
        }
    }
}

proof fn lemma_unify_keeps(s: Seq<char>)
    requires
        !s.contains('\r'),
    ensures
        unify_newlines(s) == s,
    decreases s.len(),
{
    if s.len() > 0 {
        assert(s[s.len() - 1] != '\r');
        if s.len() >= 2 {
            assert(s[s.len() - 2] != '\r');
        }
        let d = s.drop_last();
        assert(!d.contains('\r')) by {
            if d.contains('\r') {
                let k = choose|k: int| 0 <= k < d.len() && d[k] == '\r';
                assert(s[k] == '\r');
            }
        }
        lemma_unify_keeps(d);
        assert(d.push(s.last()) =~= s);
    }
}

proof fn lemma_unify_append_free(s: Seq<char>, t: Seq<char>)
    requires
        line_free(t),
    ensures
        unify_newlines(s + t) == unify_newlines(s) + t,
    decreases t.len(),
{
    if t.len() == 0 {
        assert(s + t =~= s);
    } else {
        let st = s + t;
        assert(st.last() == t[t.len() - 1]);
        let t0 = t.drop_last();
        assert(line_free(t0)) by {
            if t0.contains('\n') || t0.contains('\r') {
                let k = choose|k: int| 0 <= k < t0.len() && (t0[k] == '\n' || t0[k] == '\r');
                assert(t[k] == t0[k]);
            }
        }
        assert(st.drop_last() =~= s + t0);
        lemma_unify_append_free(s, t0);
        assert((unify_newlines(s) + t0).push(t.last()) =~= unify_newlines(s) + t);
    }
}

proof fn lemma_unify_crlf_join(parts: Seq<Seq<char>>)
    requires
        parts.len() >= 1,
        lines_free(parts),
    ensures
        unify_newlines(join_with(parts, "\r\n"@) + "\r\n"@) == join_with(parts, "\n"@) + "\n"@,
    decreases parts.len(),
{
    reveal_strlit("\r\n");
    reveal_strlit("\n");
    let last = parts.last();
    assert(line_free(parts[parts.len() - 1]));
    let x = if parts.len() == 1 { Seq::<char>::empty() } else { join_with(parts.drop_last(), "\r\n"@) + "\r\n"@ };
    let y = if parts.len() == 1 { Seq::<char>::empty() } else { join_with(parts.drop_last(), "\n"@) + "\n"@ };
    if parts.len() > 1 {
        let p0 = parts.drop_last();
        assert forall|j: int| 0 <= j < p0.len() implies #[trigger] line_free(p0[j]) by {
            assert(p0[j] == parts[j]);
        }
        lemma_unify_crlf_join(p0);
    } else {
        assert(unify_newlines(x) == y);
    }
    assert(unify_newlines(x) == y);
    assert(join_with(parts, "\r\n"@) + "\r\n"@ =~= (x + last).push('\r').push('\n'));
    let z = (x + last).push('\r').push('\n');
    assert(z.take(z.len() - 2) =~= x + last);
    lemma_unify_append_free(x, last);
    assert(join_with(parts, "\n"@) + "\n"@ =~= (y + last).push('\n'));
}

proof fn lemma_split_join_lines(parts: Seq<Seq<char>>)
    requires
        parts.len() >= 1,
        lines_free(parts),
    ensures
        split_on(join_with(parts, "\n"@), '\n') == parts,
    decreases parts.len(),
{
    reveal_strlit("\n");
    assert(line_free(parts[parts.len() - 1]));
    if parts.len() == 1 {
        crate::text::lemma_split_on_free(parts[0], '\n');
        assert(seq![parts[0]] =~= parts);
    } else {
        let p0 = parts.drop_last();
        assert forall|j: int| 0 <= j < p0.len() implies #[trigger] line_free(p0[j]) by {
            assert(p0[j] == parts[j]);
        }
        lemma_split_join_lines(p0);
        let j = join_with(p0, "\n"@);
        assert(join_with(parts, "\n"@) =~= j.push('\n') + parts.last());
        crate::text::lemma_split_on_after_sep(j, parts.last(), '\n');
        assert(p0.push(parts.last()) =~= parts);
    }
}

proof fn lemma_text_lines_of_joined(parts: Seq<Seq<char>>)
    requires
        parts.len() >= 1,
        lines_free(parts),
    ensures
        text_lines(join_with(parts, "\n"@) + "\n"@) == parts,
{
    reveal_strlit("\n");
    let j = join_with(parts, "\n"@);
    lemma_split_join_lines(parts);
    assert(j + "\n"@ =~= j.push('\n') + Seq::<char>::empty());
    crate::text::lemma_split_on_after_sep(j, Seq::<char>::empty(), '\n');
    assert(parts.push(Seq::<char>::empty()).drop_last() =~= parts);
}

proof fn lemma_split_pieces_free(s: Seq<char>)
    requires
        !s.contains('\r'),
    ensures
        lines_free(split_on(s, '\n')),
    decreases s.len(),
{
    if s.len() > 0 {
        let d = s.drop_last();
        assert(!d.contains('\r')) by {
            if d.contains('\r') {
                let k = choose|k: int| 0 <= k < d.len() && d[k] == '\r';
                assert(s[k] == '\r');
            }
        }
        lemma_split_pieces_free(d);
        crate::text::lemma_split_on_nonempty(d, '\n');
        let r = split_on(d, '\n');
        if s.last() != '\n' {
            assert(s[s.len() - 1] != '\r');
            let l = r.last();
            assert(line_free(r[r.len() - 1]));
            lemma_free_concat(l, seq![s.last()]);
            assert(l.push(s.last()) =~= l + seq![s.last()]);
            let u = r.update(r.len() - 1, l.push(s.last()));
            assert forall|j: int| 0 <= j < u.len() implies #[trigger] line_free(u[j]) by {
                if j < r.len() - 1 {
                    assert(u[j] == r[j]);
                }
            }
        } else {
            let u = r.push(Seq::<char>::empty());
            assert forall|j: int| 0 <= j < u.len() implies #[trigger] line_free(u[j]) by {
                if j < r.len() {
                    assert(u[j] == r[j]);
                }
            }
        }
    }
}

proof fn lemma_input_lines_free(existing: Seq<char>)
    ensures
        lines_free(text_lines(unify_newlines(existing))),
{
    let u = unify_newlines(existing);
    lemma_unify_no_cr(existing);
    lemma_split_pieces_free(u);
    crate::text::lemma_split_on_nonempty(u, '\n');
    let p = split_on(u, '\n');
    let t = text_lines(u);
    assert(t.len() <= p.len());
    assert forall|j: int| 0 <= j < t.len() implies #[trigger] line_free(t[j]) by {
        assert(t[j] == p[j]);
        assert(line_free(p[j]));
    }
}

/// Rewriting a file the rewrite wrote, under the same policy, changes
/// nothing: the same lines come back, with the same line ending.
pub proof fn rewriting_twice_is_rewriting_once(existing: Seq<char>, relaxed: bool)
    ensures
        updated_ini_spec(updated_ini_spec(existing, relaxed), relaxed) == updated_ini_spec(
            existing,
            relaxed,
        ),
{
    reveal_strlit("\r\n");
    reveal_strlit("\n");
    let lines = text_lines(unify_newlines(existing));
    lemma_input_lines_free(existing);
    let o = ini_finish(ini_fold(lines, relaxed), relaxed);
    lemma_finish_free(lines, relaxed);
    rewriting_rewritten_lines_keeps_them(lines, relaxed);
    let crlf = seq_contains(existing, "\r\n"@);
    let nl = if crlf { "\r\n"@ } else { "\n"@ };
    let t1 = join_with(o, nl) + nl;
    assert(t1 == updated_ini_spec(existing, relaxed));
    if crlf {
        lemma_unify_crlf_join(o);
        lemma_text_lines_of_joined(o);
        assert(t1.subrange(t1.len() - 2, t1.len() as int) =~= "\r\n"@);
        assert(crate::text::occurs_at(t1, "\r\n"@, t1.len() - 2));
        assert(seq_contains(t1, "\r\n"@));
    } else {
        assert forall|j: int| 0 <= j < o.len() implies !(#[trigger] o[j]).contains('\r') by {
            assert(line_free(o[j]));
        }
        crate::text::lemma_join_with_free(o, "\n"@, '\r');
        let j = join_with(o, "\n"@);
        assert(!t1.contains('\r')) by {
            if t1.contains('\r') {
                let k = choose|k: int| 0 <= k < t1.len() && t1[k] == '\r';
                if k < j.len() {
                    assert(j[k] == '\r');
                }
            }
        }
        lemma_unify_keeps(t1);
        lemma_text_lines_of_joined(o);
        if seq_contains(t1, "\r\n"@) {
            let i = choose|i: int| crate::text::occurs_at(t1, "\r\n"@, i);
            assert(t1.subrange(i, i + 2)[0] == t1[i]);
        }
    }
}

// ---------------------------------------------------------------------------
// Where the file lives
// ---------------------------------------------------------------------------

/// The user directory argument `i` names, if it names one: the argument
/// after `--user-directory`, or the text after `--user-directory=`.
pub open spec fn user_directory_candidate(args: Seq<Seq<char>>, i: int) -> Option<Seq<char>> {
    if args[i] == "--user-directory"@ {
        if i + 1 < args.len() { Some(args[i + 1]) } else { None }
    } else if starts_with(args[i], "--user-directory="@) {
        Some(args[i].skip(17))
    } else {
        None
    }
}

/// The first non-blank user directory that the arguments from `i` on name.
pub open spec fn first_user_directory(args: Seq<Seq<char>>, i: int) -> Option<Seq<char>>
    decreases args.len() - i,
{
    if i < 0 || i >= args.len() {
        None
    } else {
        match user_directory_candidate(args, i) {
            Some(v) => if trim(v).len() > 0 { Some(v) } else { first_user_directory(args, i + 1) },
            None => first_user_directory(args, i + 1),
        }
    }
}

/// ComfyUI's user directory: the one ComfyUI's arguments name (relative to
/// the ComfyUI directory unless absolute), else `user` there.
pub open spec fn user_directory_spec(comfyui_path: Seq<char>, args: Seq<Seq<char>>) -> Seq<char> {
    match first_user_directory(args, 0) {
        Some(v) => if absolute_path(v) { v } else { joined_path(comfyui_path, v) },
        None => joined_path(comfyui_path, "user"@),
    }
}

/// The user directory named by ComfyUI's extra arguments, if any.
pub fn user_directory_arg(extra_args: &[String]) -> (r: Option<String>)
    ensures
        match r {
            Some(v) => first_user_directory(string_views(extra_args@), 0) == Some(v@),
            None => first_user_directory(string_views(extra_args@), 0) is None,
        },
{
    proof { reveal_strlit("--user-directory="); }
    let ghost args = string_views(extra_args@);
    let n = extra_args.len();
    let mut i: usize = 0;
    while i < n
        invariant
            n == extra_args.len(),
            args == string_views(extra_args@),
            i <= n,
            first_user_directory(args, 0) == first_user_directory(args, i as int),
        decreases n - i,
    {
        assert(args[i as int] == extra_args@[i as int]@);
        let a = chars_of(extra_args[i].as_str());
        let value: Option<Vec<char>> = if crate::text::spells(&a, "--user-directory") {
            if i + 1 < n {
                assert(args[i + 1] == extra_args@[i + 1]@);
                Some(chars_of(extra_args[i + 1].as_str()))
            } else {
                None
            }
        } else if starts(&a, "--user-directory=") {
            let an = a.len();
            proof { reveal_strlit("--user-directory="); }
            assert(crate::text::occurs_at(a@, "--user-directory="@, 0));
            let rest = copy_range(&a, 17, an);
            assert(rest@ =~= a@.skip(17));
            Some(rest)
        } else {
            None
        };
        match value {
            Some(v) => {
                let t = trim_chars(&v);
                if t.len() > 0 {
                    return Some(string_of(&v));
                }
            },
            None => {},
        }
        i += 1;
    }
    None
}

/// ComfyUI's user directory for a ComfyUI directory and its extra arguments.
pub fn configured_user_directory(comfyui_path: &str, extra_args: &[String]) -> (r: String)
    ensures
        r@ == user_directory_spec(comfyui_path@, string_views(extra_args@)),
{
    match user_directory_arg(extra_args) {
        Some(v) => {
            if path_is_absolute(v.as_str()) {
                v
            } else {
                path_join(comfyui_path, v.as_str())
            }
        },
        None => path_join(comfyui_path, "user"),
    }
}

/// Manager's `config.ini`: `__manager/config.ini` in ComfyUI's user
/// directory.
pub fn manager_config_path(comfyui_path: &str, extra_args: &[String]) -> (r: String)
    ensures
        r@ == joined_path(
            joined_path(user_directory_spec(comfyui_path@, string_views(extra_args@)), "__manager"@),
            "config.ini"@,
        ),
{
    let user = configured_user_directory(comfyui_path, extra_args);
    let m = path_join(user.as_str(), "__manager");
    path_join(m.as_str(), "config.ini")
}

} // verus!
