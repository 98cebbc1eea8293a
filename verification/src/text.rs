//! Character-level text model shared by every parser and formatter of the
//! library: strings are read as sequences of `char`, and every helper here
//! is specified over those sequences.
use vstd::prelude::*;

verus! {

// ---------------------------------------------------------------------------
// Character classes
// ---------------------------------------------------------------------------

pub open spec fn is_digit(c: char) -> bool {
    '0' <= c && c <= '9'
}

pub open spec fn is_alnum(c: char) -> bool {
    ('0' <= c && c <= '9') || ('a' <= c && c <= 'z') || ('A' <= c && c <= 'Z')
}

pub open spec fn is_hex(c: char) -> bool {
    ('0' <= c && c <= '9') || ('a' <= c && c <= 'f') || ('A' <= c && c <= 'F')
}

/// Unicode `White_Space`, the set `char::is_whitespace` and `str::trim` use.
pub open spec fn is_ws(c: char) -> bool {
    ||| ('\t' <= c && c <= '\r')
    ||| c == ' '
    ||| c == '\u{85}'
    ||| c == '\u{A0}'
    ||| c == '\u{1680}'
    ||| ('\u{2000}' <= c && c <= '\u{200A}')
    ||| c == '\u{2028}'
    ||| c == '\u{2029}'
    ||| c == '\u{202F}'
    ||| c == '\u{205F}'
    ||| c == '\u{3000}'
}

pub open spec fn lower_ascii(c: char) -> char {
    if 'A' <= c && c <= 'Z' {
        ((c as u32) + 32) as char
    } else {
        c
    }
}

pub fn char_is_digit(c: char) -> (r: bool)
    ensures
        r == is_digit(c),
{
    '0' <= c && c <= '9'
}

pub fn char_is_alnum(c: char) -> (r: bool)
    ensures
        r == is_alnum(c),
{
    ('0' <= c && c <= '9') || ('a' <= c && c <= 'z') || ('A' <= c && c <= 'Z')
}

pub fn char_is_hex(c: char) -> (r: bool)
    ensures
        r == is_hex(c),
{
    ('0' <= c && c <= '9') || ('a' <= c && c <= 'f') || ('A' <= c && c <= 'F')
}

pub fn char_is_ws(c: char) -> (r: bool)
    ensures
        r == is_ws(c),
{
    ('\t' <= c && c <= '\r') || c == ' ' || c == '\u{85}' || c == '\u{A0}' || c == '\u{1680}'
        || ('\u{2000}' <= c && c <= '\u{200A}') || c == '\u{2028}' || c == '\u{2029}'
        || c == '\u{202F}' || c == '\u{205F}' || c == '\u{3000}'
}

pub fn char_lower_ascii(c: char) -> (r: char)
    ensures
        r == lower_ascii(c),
{
    if 'A' <= c && c <= 'Z' {
        let b: u8 = c as u8;
        let r = (b + 32) as char;
        r
    } else {
        c
    }
}

} // verus!

verus! {

// ---------------------------------------------------------------------------
// Sequences of characters
// ---------------------------------------------------------------------------

/// `p` occurs in `s` starting at index `i`.
pub open spec fn occurs_at(s: Seq<char>, p: Seq<char>, i: int) -> bool {
    0 <= i && i + p.len() <= s.len() && s.subrange(i, i + p.len()) == p
}

pub open spec fn seq_contains(s: Seq<char>, p: Seq<char>) -> bool {
    exists|i: int| occurs_at(s, p, i)
}

pub open spec fn starts_with(s: Seq<char>, p: Seq<char>) -> bool {
    occurs_at(s, p, 0)
}

pub open spec fn ends_with(s: Seq<char>, p: Seq<char>) -> bool {
    occurs_at(s, p, s.len() - p.len())
}

/// `i` is the leftmost index at which `p` occurs in `s`.
pub open spec fn first_at(s: Seq<char>, p: Seq<char>, i: int) -> bool {
    occurs_at(s, p, i) && forall|j: int| 0 <= j < i ==> !occurs_at(s, p, j)
}

/// Index of the leftmost occurrence of `p` in `s`, if any (`str::find`).
pub open spec fn find_spec(s: Seq<char>, p: Seq<char>) -> Option<int> {
    if seq_contains(s, p) {
        Some(choose|i: int| first_at(s, p, i))
    } else {
        None
    }
}

/// Leading `White_Space` removed (`str::trim_start`).
pub open spec fn trim_start(s: Seq<char>) -> Seq<char>
    decreases s.len(),
{
    if s.len() > 0 && is_ws(s[0]) {
        trim_start(s.drop_first())
    } else {
        s
    }
}

/// Trailing `White_Space` removed (`str::trim_end`).
pub open spec fn trim_end(s: Seq<char>) -> Seq<char>
    decreases s.len(),
{
    if s.len() > 0 && is_ws(s.last()) {
        trim_end(s.drop_last())
    } else {
        s
    }
}

/// `str::trim`.
pub open spec fn trim(s: Seq<char>) -> Seq<char> {
    trim_end(trim_start(s))
}

/// ASCII letters lowered, everything else kept (`str::to_ascii_lowercase`).
pub open spec fn lower_seq(s: Seq<char>) -> Seq<char> {
    s.map_values(|c: char| lower_ascii(c))
}

/// The pieces of `s` between occurrences of `c` (`str::split` with a char):
/// always at least one piece, empty pieces kept.
pub open spec fn split_on(s: Seq<char>, c: char) -> Seq<Seq<char>>
    decreases s.len(),
{
    if s.len() == 0 {
        seq![Seq::<char>::empty()]
    } else {
        let r = split_on(s.drop_last(), c);
        if s.last() == c {
            r.push(Seq::<char>::empty())
        } else {
            r.update(r.len() - 1, r.last().push(s.last()))
        }
    }
}

/// The text before and after the first `c` in `s` (`str::split_once` with a
/// char), or `None` when `s` holds no `c`.
pub open spec fn split_once_spec(s: Seq<char>, c: char) -> Option<(Seq<char>, Seq<char>)> {
    match find_spec(s, seq![c]) {
        Some(k) => Some((s.take(k), s.skip(k + 1))),
        None => None,
    }
}

/// `parts` joined with `sep` between consecutive parts (`[T]::join`).
pub open spec fn join_with(parts: Seq<Seq<char>>, sep: Seq<char>) -> Seq<char>
    decreases parts.len(),
{
    if parts.len() == 0 {
        Seq::<char>::empty()
    } else if parts.len() == 1 {
        parts[0]
    } else {
        join_with(parts.drop_last(), sep) + sep + parts.last()
    }
}

// ---------------------------------------------------------------------------
// Decimal numbers
// ---------------------------------------------------------------------------

pub open spec fn digit_val(c: char) -> nat {
    ((c as int) - ('0' as int)) as nat
}

pub open spec fn all_digits(s: Seq<char>) -> bool {
    forall|i: int| 0 <= i < s.len() ==> is_digit(#[trigger] s[i])
}

/// The number the decimal digits `s` spell (most significant first).
pub open spec fn digits_value(s: Seq<char>) -> nat
    decreases s.len(),
{
    if s.len() == 0 {
        0
    } else {
        digits_value(s.drop_last()) * 10 + digit_val(s.last())
    }
}

/// What `str::parse` returns for an unsigned integer type whose largest value
/// is `max`: an optional `+`, then at least one ASCII digit, and no overflow.
pub open spec fn parse_unsigned(s: Seq<char>, max: nat) -> Option<nat> {
    let body = if s.len() > 0 && s[0] == '+' {
        s.drop_first()
    } else {
        s
    };
    if body.len() > 0 && all_digits(body) && digits_value(body) <= max {
        Some(digits_value(body))
    } else {
        None
    }
}

pub open spec fn digit_char(d: nat) -> char {
    ((d + 48) as u8) as char
}

/// Shortest decimal spelling of `n` (`u64::to_string`).
pub open spec fn decimal(n: nat) -> Seq<char>
    decreases n,
{
    if n < 10 {
        seq![digit_char(n)]
    } else {
        decimal(n / 10).push(digit_char(n % 10))
    }
}

} // verus!

verus! {

pub proof fn lemma_first_unique(s: Seq<char>, p: Seq<char>, i: int, j: int)
    requires
        first_at(s, p, i),
        first_at(s, p, j),
    ensures
        i == j,
{
}

pub proof fn lemma_find_some(s: Seq<char>, p: Seq<char>, i: int)
    requires
        first_at(s, p, i),
    ensures
        find_spec(s, p) == Some(i),
{
    let k = choose|k: int| first_at(s, p, k);
    lemma_first_unique(s, p, i, k);
}

/// `v[a..b]` as a new vector.
pub fn copy_range<T: Copy>(v: &[T], a: usize, b: usize) -> (r: Vec<T>)
    requires
        a <= b <= v.len(),
    ensures
        r@ == v@.subrange(a as int, b as int),
{
    let mut r: Vec<T> = Vec::new();
    let mut i = a;
    while i < b
        invariant
            a <= i <= b <= v.len(),
            r@ == v@.subrange(a as int, i as int),
        decreases b - i,
    {
        r.push(v[i]);
        i += 1;
    }
    r
}

/// Whether `p` occurs in `s` at index `i`.
pub fn matches_at(s: &[char], p: &[char], i: usize) -> (r: bool)
    ensures
        r == occurs_at(s@, p@, i as int),
{
    if i > s.len() || p.len() > s.len() - i {
        return false;
    }
    let mut k: usize = 0;
    while k < p.len()
        invariant
            i + p.len() <= s.len(),
            k <= p.len(),
            forall|m: int| 0 <= m < k ==> s@[i + m] == p@[m],
        decreases p.len() - k,
    {
        if s[i + k] != p[k] {
            assert(s@.subrange(i as int, i + p.len())[k as int] != p@[k as int]);
            return false;
        }
        k += 1;
    }
    assert(s@.subrange(i as int, i + p.len()) =~= p@);
    true
}

/// Leftmost index of `p` in `s` (`str::find`).
pub fn find(s: &[char], p: &[char]) -> (r: Option<usize>)
    ensures
        match r {
            Some(i) => first_at(s@, p@, i as int),
            None => !seq_contains(s@, p@),
        },
        r matches Some(i) ==> find_spec(s@, p@) == Some(i as int),
        r is None ==> find_spec(s@, p@) is None,
{
    if p.len() > s.len() {
        assert forall|j: int| !occurs_at(s@, p@, j) by {}
        return None;
    }
    let last = s.len() - p.len();
    let mut i: usize = 0;
    loop
        invariant
            last == s.len() - p.len(),
            p.len() <= s.len(),
            i <= last,
            forall|j: int| 0 <= j < i ==> !occurs_at(s@, p@, j),
        ensures
            forall|j: int| 0 <= j <= last ==> !occurs_at(s@, p@, j),
        decreases last - i,
    {
        if matches_at(s, p, i) {
            proof { lemma_find_some(s@, p@, i as int); }
            return Some(i);
        }
        if i == last {
            break;
        }
        i += 1;
    }
    assert forall|j: int| !occurs_at(s@, p@, j) by {}
    None
}

/// Whether `p` occurs anywhere in `s` (`str::contains`).
pub fn contains(s: &[char], p: &[char]) -> (r: bool)
    ensures
        r == seq_contains(s@, p@),
{
    match find(s, p) {
        Some(_) => true,
        None => false,
    }
}

/// The text before and after the first `c` in `s` (`str::split_once`).
pub fn split_once_chars(s: &[char], c: char) -> (r: Option<(Vec<char>, Vec<char>)>)
    ensures
        match r {
            Some((a, b)) => split_once_spec(s@, c) == Some((a@, b@)),
            None => split_once_spec(s@, c) is None,
        },
{
    let n: usize = s.len();
    let pat = vec![c];
    assert(pat@ =~= seq![c]);
    match find(s, &pat) {
        Some(k) => {
            assert(occurs_at(s@, pat@, k as int));
            assert(pat@.len() == 1);
            assert(k + 1 <= n);
            let a = copy_range(s, 0, k);
            let b = copy_range(s, k + 1, n);
            assert(a@ =~= s@.take(k as int));
            assert(b@ =~= s@.skip(k + 1));
            Some((a, b))
        },
        None => None,
    }
}

/// Whether the text of `lit` occurs in `s`.
pub fn has(s: &[char], lit: &str) -> (r: bool)
    ensures
        r == seq_contains(s@, lit@),
{
    let p = chars_of(lit);
    contains(s, &p)
}

/// Whether `s` begins with the text of `lit`.
pub fn starts(s: &[char], lit: &str) -> (r: bool)
    ensures
        r == starts_with(s@, lit@),
{
    let p = chars_of(lit);
    matches_at(s, &p, 0)
}

/// Whether `s` ends with the text of `lit`.
pub fn ends(s: &[char], lit: &str) -> (r: bool)
    ensures
        r == ends_with(s@, lit@),
{
    let p = chars_of(lit);
    if p.len() > s.len() {
        return false;
    }
    matches_at(s, &p, s.len() - p.len())
}

/// `s` without its trailing white space (`str::trim_end`).
pub fn trim_end_chars(s: &[char]) -> (r: Vec<char>)
    ensures
        r@ == trim_end(s@),
{
    let mut end: usize = s.len();
    assert(s@.take(end as int) =~= s@);
    while end > 0 && char_is_ws(s[end - 1])
        invariant
            end <= s.len(),
            trim_end(s@) == trim_end(s@.take(end as int)),
        decreases end,
    {
        assert(s@.take(end as int).drop_last() =~= s@.take(end - 1));
        end -= 1;
    }
    let r = copy_range(s, 0, end);
    assert(r@ =~= s@.take(end as int));
    proof {
        if end > 0 {
            assert(s@.take(end as int).last() == s@[end - 1]);
        }
    }
    r
}

/// Whether `s` ends with `p`.
pub fn ends_with_chars(s: &[char], p: &[char]) -> (r: bool)
    ensures
        r == ends_with(s@, p@),
{
    if p.len() > s.len() {
        return false;
    }
    matches_at(s, p, s.len() - p.len())
}

/// Whether `s` spells exactly the text of `lit`.
pub fn spells(s: &[char], lit: &str) -> (r: bool)
    ensures
        r == (s@ == lit@),
{
    let p = chars_of(lit);
    if p.len() != s.len() {
        return false;
    }
    let r = matches_at(s, &p, 0);
    assert(s@.subrange(0, s@.len() as int) =~= s@);
    r
}

pub proof fn lemma_trim_start_step(s: Seq<char>, a: int)
    requires
        0 <= a < s.len(),
        is_ws(s[a]),
    ensures
        trim_start(s.subrange(a, s.len() as int)) == trim_start(s.subrange(a + 1, s.len() as int)),
{
    assert(s.subrange(a, s.len() as int).drop_first() =~= s.subrange(a + 1, s.len() as int));
}

pub proof fn lemma_trim_end_step(s: Seq<char>, b: int)
    requires
        0 < b <= s.len(),
        is_ws(s[b - 1]),
    ensures
        trim_end(s.subrange(0, b)) == trim_end(s.subrange(0, b - 1)),
{
    assert(s.subrange(0, b).drop_last() =~= s.subrange(0, b - 1));
}

/// Bounds `(a, b)` with `s[a..b]` the trimmed text (`str::trim`).
pub fn trim_bounds(s: &[char]) -> (r: (usize, usize))
    ensures
        r.0 <= r.1 <= s.len(),
        s@.subrange(r.0 as int, r.1 as int) == trim(s@),
        trim_start(s@) == s@.subrange(r.0 as int, s.len() as int),
{
    let n = s.len();
    let mut a: usize = 0;
    assert(s@.subrange(0, n as int) =~= s@);
    while a < n && char_is_ws(s[a])
        invariant
            a <= n == s.len(),
            trim_start(s@) == trim_start(s@.subrange(a as int, n as int)),
        decreases n - a,
    {
        proof { lemma_trim_start_step(s@, a as int); }
        a += 1;
    }
    let ghost t = s@.subrange(a as int, n as int);
    assert(trim_start(t) == t);
    let mut b: usize = n;
    assert(t.subrange(0, (n - a) as int) =~= t);
    while b > a && char_is_ws(s[b - 1])
        invariant
            a <= b <= n == s.len(),
            t == s@.subrange(a as int, n as int),
            trim_end(t) == trim_end(t.subrange(0, (b - a) as int)),
        decreases b - a,
    {
        proof {
            lemma_trim_end_step(t, (b - a) as int);
        }
        b -= 1;
    }
    assert(t.subrange(0, (b - a) as int) =~= s@.subrange(a as int, b as int));
    (a, b)
}

/// The trimmed characters of `s` (`str::trim`).
pub fn trim_chars(s: &[char]) -> (r: Vec<char>)
    ensures
        r@ == trim(s@),
{
    let (a, b) = trim_bounds(s);
    copy_range(s, a, b)
}

/// ASCII-lowered copy of `s` (`str::to_ascii_lowercase`).
pub fn lower_chars(s: &[char]) -> (r: Vec<char>)
    ensures
        r@ == lower_seq(s@),
{
    let mut r: Vec<char> = Vec::new();
    let mut i: usize = 0;
    while i < s.len()
        invariant
            i <= s.len(),
            r@ =~= lower_seq(s@.take(i as int)),
        decreases s.len() - i,
    {
        r.push(char_lower_ascii(s[i]));
        assert(s@.take(i + 1) =~= s@.take(i as int).push(s@[i as int]));
        i += 1;
    }
    assert(s@.take(s.len() as int) =~= s@);
    r
}

} // verus!

verus! {

/// Appends one character to a `String` (`String::push`).
#[verifier::external_body]
fn push_char(s: &mut String, c: char)
    ensures
        final(s)@ == old(s)@.push(c),
{
    s.push(c)
}

/// The characters of a string slice, in order.
pub fn chars_of(s: &str) -> (r: Vec<char>)
    ensures
        r@ == s@,
{
    let mut r: Vec<char> = Vec::new();
    for c in it: s.chars()
        invariant
            r@ == it.seq().take(it.index() as int),
            it.seq() == s@,
    {
        r.push(c);
    }
    r
}

/// A `String` holding exactly the given characters.
pub fn string_of(v: &[char]) -> (r: String)
    ensures
        r@ == v@,
{
    let mut r = String::new();
    let mut i: usize = 0;
    while i < v.len()
        invariant
            i <= v.len(),
            r@ == v@.take(i as int),
        decreases v.len() - i,
    {
        push_char(&mut r, v[i]);
        assert(v@.take(i + 1) == v@.take(i as int).push(v@[i as int]));
        i += 1;
    }
    assert(v@.take(v.len() as int) == v@);
    r
}

/// Appends the text of `lit` to `v`.
pub fn push_str(v: &mut Vec<char>, lit: &str)
    ensures
        final(v)@ == old(v)@ + lit@,
{
    let p = chars_of(lit);
    push_all(v, &p);
}

/// Appends all of `p` to `v`.
pub fn push_all(v: &mut Vec<char>, p: &[char])
    ensures
        final(v)@ == old(v)@ + p@,
{
    let ghost v0 = v@;
    let mut i: usize = 0;
    while i < p.len()
        invariant
            i <= p.len(),
            v@ == v0 + p@.take(i as int),
        decreases p.len() - i,
    {
        v.push(p[i]);
        assert(p@.take(i + 1) == p@.take(i as int).push(p@[i as int]));
        assert(v0 + p@.take(i + 1) =~= (v0 + p@.take(i as int)).push(p@[i as int]));
        i += 1;
    }
    assert(p@.take(p.len() as int) == p@);
}

} // verus!

verus! {

/// The character views of a sequence of character vectors.
pub open spec fn views(v: Seq<Vec<char>>) -> Seq<Seq<char>> {
    v.map_values(|x: Vec<char>| x@)
}

/// Pieces of `s` between occurrences of `c` (`str::split` with a char).
pub fn split_chars(s: &[char], c: char) -> (r: Vec<Vec<char>>)
    ensures
        views(r@) == split_on(s@, c),
{
    let mut r: Vec<Vec<char>> = Vec::new();
    let mut cur: Vec<char> = Vec::new();
    let mut i: usize = 0;
    assert(s@.take(0) =~= Seq::<char>::empty());
    while i < s.len()
        invariant
            i <= s.len(),
            views(r@).push(cur@) =~= split_on(s@.take(i as int), c),
        decreases s.len() - i,
    {
        let ghost before = s@.take(i as int);
        assert(s@.take(i + 1).drop_last() =~= before);
        if s[i] == c {
            let done = cur;
            r.push(done);
            cur = Vec::new();
            assert(views(r@) =~= views(r@.drop_last()).push(done@));
        } else {
            cur.push(s[i]);
        }
        i += 1;
    }
    assert(s@.take(s.len() as int) =~= s@);
    r.push(cur);
    assert(views(r@) =~= views(r@.drop_last()).push(r@.last()@));
    r
}

/// `parts` joined with `sep` (`[T]::join`).
pub fn join_chars(parts: &[Vec<char>], sep: &[char]) -> (r: Vec<char>)
    ensures
        r@ == join_with(views(parts@), sep@),
{
    let mut r: Vec<char> = Vec::new();
    let mut i: usize = 0;
    while i < parts.len()
        invariant
            i <= parts.len(),
            r@ == join_with(views(parts@.take(i as int)), sep@),
        decreases parts.len() - i,
    {
        assert(views(parts@.take(i + 1)).drop_last() =~= views(parts@.take(i as int)));
        if i > 0 {
            push_all(&mut r, sep);
        }
        push_all(&mut r, &parts[i]);
        assert(views(parts@.take(i + 1)).last() == parts@[i as int]@);
        proof {
            if i == 0 {
                assert(r@ =~= join_with(views(parts@.take(i + 1)), sep@));
            }
        }
        i += 1;
    }
    assert(parts@.take(parts.len() as int) =~= parts@);
    r
}

pub proof fn lemma_digits_value_grows(s: Seq<char>, i: int)
    requires
        0 <= i <= s.len(),
    ensures
        digits_value(s.take(i)) <= digits_value(s),
    decreases s.len(),
{
    if i < s.len() {
        lemma_digits_value_grows(s.drop_last(), i);
        assert(s.drop_last().take(i) =~= s.take(i));
    } else {
        assert(s.take(i) =~= s);
    }
}

/// `str::parse::<u64>`.
pub fn parse_u64(s: &[char]) -> (r: Option<u64>)
    ensures
        match r {
            Some(v) => parse_unsigned(s@, u64::MAX as nat) == Some(v as nat),
            None => parse_unsigned(s@, u64::MAX as nat) is None,
        },
{
    let start: usize = if s.len() > 0 && s[0] == '+' { 1 } else { 0 };
    let ghost body = if s@.len() > 0 && s@[0] == '+' { s@.drop_first() } else { s@ };
    assert(body =~= s@.subrange(start as int, s.len() as int));
    if start == s.len() {
        return None;
    }
    let mut v: u64 = 0;
    let mut i = start;
    assert(body.take(0) =~= Seq::<char>::empty());
    while i < s.len()
        invariant
            start <= i <= s.len(),
            body =~= s@.subrange(start as int, s.len() as int),
            body == (if s@.len() > 0 && s@[0] == '+' { s@.drop_first() } else { s@ }),
            all_digits(body.take(i - start)),
            v as nat == digits_value(body.take(i - start)),
        decreases s.len() - i,
    {
        let c = s[i];
        if !char_is_digit(c) {
            assert(body[i - start] == c);
            assert(!all_digits(body));
            return None;
        }
        let d: u64 = (c as u32 - '0' as u32) as u64;
        assert(body.take(i - start + 1).drop_last() =~= body.take(i - start));
        if v > (u64::MAX - d) / 10 {
            assert(v * 10 + d > u64::MAX) by (nonlinear_arith)
                requires
                    v > (u64::MAX - d) / 10,
                    d <= 9,
            ;
            let ghost t = body.take(i - start + 1);
            assert(t.last() == c);
            assert(digits_value(t) == v * 10 + d);
            proof { lemma_digits_value_grows(body, i - start + 1); }
            assert(digits_value(body) > u64::MAX);
            return None;
        }
        assert(v * 10 + d <= u64::MAX) by (nonlinear_arith)
            requires
                v <= (u64::MAX - d) / 10,
                d <= 9,
        ;
        v = v * 10 + d;
        i += 1;
    }
    assert(body.take(i - start) =~= body);
    Some(v)
}

/// `str::parse::<u32>`.
pub fn parse_u32(s: &[char]) -> (r: Option<u32>)
    ensures
        match r {
            Some(v) => parse_unsigned(s@, u32::MAX as nat) == Some(v as nat),
            None => parse_unsigned(s@, u32::MAX as nat) is None,
        },
{
    match parse_u64(s) {
        Some(v) => {
            if v <= u32::MAX as u64 {
                Some(v as u32)
            } else {
                None
            }
        },
        None => None,
    }
}

/// Decimal spelling of `n` (`u64::to_string`).
pub fn decimal_of(n: u64) -> (r: Vec<char>)
    ensures
        r@ == decimal(n as nat),
    decreases n,
{
    let d: u8 = (n % 10) as u8;
    let c = (d + 48) as char;
    if n < 10 {
        vec![c]
    } else {
        let mut r = decimal_of(n / 10);
        r.push(c);
        r
    }
}

} // verus!

verus! {

/// What `str::to_lowercase` makes of a text: Unicode lowercasing, whose
/// tables take pages to state.
pub uninterp spec fn unicode_lower(s: Seq<char>) -> Seq<char>;

/// `str::to_lowercase`: the Unicode lowercase form of `s`.
#[verifier::external_body]
fn str_to_lowercase(s: &str) -> (r: String)
    ensures
        r@ == unicode_lower(s@),
{
    s.to_lowercase()
}

/// What `str::to_uppercase` makes of a text: Unicode uppercasing, whose
/// tables take pages to state.
pub uninterp spec fn unicode_upper(s: Seq<char>) -> Seq<char>;

/// `str::to_uppercase`: the Unicode uppercase form of `s`.
#[verifier::external_body]
pub(crate) fn str_to_uppercase(s: &str) -> (r: String)
    ensures
        r@ == unicode_upper(s@),
{
    s.to_uppercase()
}

/// Unicode lowercase form of the characters `s`, as characters.
pub fn lowercase_chars(s: &[char]) -> (r: Vec<char>)
    ensures
        r@ == unicode_lower(s@),
{
    let st = string_of(s);
    let low = str_to_lowercase(st.as_str());
    chars_of(low.as_str())
}

/// Appends all of `p` to `v`.
pub fn append_copy<T: Copy>(v: &mut Vec<T>, p: &[T])
    ensures
        final(v)@ == old(v)@ + p@,
{
    let ghost v0 = v@;
    let mut i: usize = 0;
    while i < p.len()
        invariant
            i <= p.len(),
            v@ == v0 + p@.take(i as int),
        decreases p.len() - i,
    {
        v.push(p[i]);
        assert(p@.take(i + 1) == p@.take(i as int).push(p@[i as int]));
        assert(v0 + p@.take(i + 1) =~= (v0 + p@.take(i as int)).push(p@[i as int]));
        i += 1;
    }
    assert(p@.take(p.len() as int) == p@);
}

/// Lowercase hex digit for `n < 16`.
pub open spec fn hex_digit(n: nat) -> char {
    if n < 10 {
        ((n + 48) as u8) as char
    } else {
        ((n + 87) as u8) as char
    }
}

/// Uppercase hex digit for `n < 16`.
pub open spec fn hex_digit_upper(n: nat) -> char {
    if n < 10 {
        ((n + 48) as u8) as char
    } else {
        ((n + 55) as u8) as char
    }
}

/// Two hex digits per byte, most significant nibble first (`{:02x}` / `{:X}`).
pub open spec fn hex_of(bytes: Seq<u8>, upper: bool) -> Seq<char>
    decreases bytes.len(),
{
    if bytes.len() == 0 {
        Seq::<char>::empty()
    } else {
        let b = bytes.last();
        let hi = (b / 16) as nat;
        let lo = (b % 16) as nat;
        if upper {
            hex_of(bytes.drop_last(), upper) + seq![hex_digit_upper(hi), hex_digit_upper(lo)]
        } else {
            hex_of(bytes.drop_last(), upper) + seq![hex_digit(hi), hex_digit(lo)]
        }
    }
}

pub proof fn lemma_hex_len(bytes: Seq<u8>, upper: bool)
    ensures
        hex_of(bytes, upper).len() == 2 * bytes.len(),
    decreases bytes.len(),
{
    if bytes.len() > 0 {
        lemma_hex_len(bytes.drop_last(), upper);
    }
}

/// A hex spelling holds no white space.
pub proof fn lemma_hex_solid(bytes: Seq<u8>, upper: bool)
    ensures
        forall|i: int| 0 <= i < hex_of(bytes, upper).len() ==> !is_ws(#[trigger] hex_of(bytes, upper)[i]),
    decreases bytes.len(),
{
    if bytes.len() > 0 {
        lemma_hex_solid(bytes.drop_last(), upper);
        let b = bytes.last();
        let hi = (b / 16) as nat;
        let lo = (b % 16) as nat;
        let h = hex_of(bytes, upper);
        let p = hex_of(bytes.drop_last(), upper);
        assert forall|i: int| 0 <= i < h.len() implies !is_ws(#[trigger] h[i]) by {
            if i < p.len() {
                assert(h[i] == p[i]);
            } else {
                let c = h[i];
                assert(c == hex_digit(hi) || c == hex_digit(lo) || c == hex_digit_upper(hi) || c == hex_digit_upper(lo));
                assert(hi < 16 && lo < 16);
            }
        }
    }
}

/// Text without white space is its own trim.
pub proof fn lemma_trim_solid(s: Seq<char>)
    requires
        forall|i: int| 0 <= i < s.len() ==> !is_ws(#[trigger] s[i]),
    ensures
        trim(s) == s,
{
    assert(trim_start(s) == s);
    if s.len() > 0 {
        assert(!is_ws(s.last()));
    }
    assert(trim_end(s) == s);
}

/// Hex spelling of `bytes`, two digits per byte.
pub fn hex_chars(bytes: &[u8], upper: bool) -> (r: Vec<char>)
    ensures
        r@ == hex_of(bytes@, upper),
{
    let mut r: Vec<char> = Vec::new();
    let mut i: usize = 0;
    while i < bytes.len()
        invariant
            i <= bytes.len(),
            r@ == hex_of(bytes@.take(i as int), upper),
        decreases bytes.len() - i,
    {
        let b = bytes[i];
        let hi: u8 = b / 16;
        let lo: u8 = b % 16;
        let ch = if hi < 10 { (hi + 48) as char } else if upper { (hi + 55) as char } else { (hi + 87) as char };
        let cl = if lo < 10 { (lo + 48) as char } else if upper { (lo + 55) as char } else { (lo + 87) as char };
        r.push(ch);
        r.push(cl);
        assert(bytes@.take(i + 1).drop_last() =~= bytes@.take(i as int));
        i += 1;
    }
    assert(bytes@.take(bytes.len() as int) =~= bytes@);
    r
}

/// Whether two character slices hold the same text.
pub fn same_chars(a: &[char], b: &[char]) -> (r: bool)
    ensures
        r == (a@ == b@),
{
    if a.len() != b.len() {
        return false;
    }
    let mut i: usize = 0;
    while i < a.len()
        invariant
            a.len() == b.len(),
            i <= a.len(),
            forall|j: int| 0 <= j < i ==> a@[j] == b@[j],
        decreases a.len() - i,
    {
        if a[i] != b[i] {
            return false;
        }
        i += 1;
    }
    assert(a@ =~= b@);
    true
}

/// `str::split` always yields at least one piece.
pub proof fn lemma_split_on_nonempty(s: Seq<char>, c: char)
    ensures
        split_on(s, c).len() >= 1,
    decreases s.len(),
{
    if s.len() > 0 {
        lemma_split_on_nonempty(s.drop_last(), c);
    }
}

/// The character views of a sequence of strings.
pub open spec fn string_views(v: Seq<String>) -> Seq<Seq<char>> {
    v.map_values(|x: String| x@)
}

/// Splitting text that ends in a stretch free of the separator: the stretch
/// extends the last piece.
pub proof fn lemma_split_on_append_free(s: Seq<char>, t: Seq<char>, c: char)
    requires
        !t.contains(c),
    ensures
        split_on(s + t, c) == split_on(s, c).update(
            split_on(s, c).len() - 1,
            split_on(s, c).last() + t,
        ),
    decreases t.len(),
{
    lemma_split_on_nonempty(s, c);
    let r = split_on(s, c);
    if t.len() == 0 {
        assert(s + t =~= s);
        assert(r.last() + t =~= r.last());
        assert(r.update(r.len() - 1, r.last() + t) =~= r);
    } else {
        let t0 = t.drop_last();
        assert(!t0.contains(c)) by {
            if t0.contains(c) {
                let k = choose|k: int| 0 <= k < t0.len() && t0[k] == c;
                assert(t[k] == c);
            }
        }
        lemma_split_on_append_free(s, t0, c);
        assert((s + t).drop_last() =~= s + t0);
        assert((s + t).last() == t.last());
        assert(t.last() != c) by {
            assert(t[t.len() - 1] == t.last());
        }
        lemma_split_on_nonempty(s + t0, c);
        let r0 = split_on(s + t0, c);
        assert(r0 =~= r.update(r.len() - 1, r.last() + t0));
        assert((r.last() + t0).push(t.last()) =~= r.last() + t);
        assert(r0.update(r0.len() - 1, r0.last().push(t.last())) =~= r.update(r.len() - 1, r.last() + t));
    }
}

/// Text free of the separator is a single piece.
pub proof fn lemma_split_on_free(t: Seq<char>, c: char)
    requires
        !t.contains(c),
    ensures
        split_on(t, c) == seq![t],
{
    lemma_split_on_append_free(Seq::<char>::empty(), t, c);
    assert(Seq::<char>::empty() + t =~= t);
    assert(split_on(Seq::<char>::empty(), c) == seq![Seq::<char>::empty()]);
    assert(Seq::<char>::empty() + t =~= t);
    assert(seq![Seq::<char>::empty()].update(0, Seq::<char>::empty() + t) =~= seq![t]);
}

/// A separator followed by a separator-free stretch opens one more piece.
pub proof fn lemma_split_on_after_sep(s: Seq<char>, t: Seq<char>, c: char)
    requires
        !t.contains(c),
    ensures
        split_on(s.push(c) + t, c) == split_on(s, c).push(t),
{
    lemma_split_on_append_free(s.push(c), t, c);
    assert(s.push(c).drop_last() =~= s);
    lemma_split_on_nonempty(s, c);
    let r = split_on(s, c);
    assert(split_on(s.push(c), c) == r.push(Seq::<char>::empty()));
    assert(Seq::<char>::empty() + t =~= t);
    assert(r.push(Seq::<char>::empty()).update(r.len() as int, Seq::<char>::empty() + t) =~= r.push(t));
}

/// A joined text holds a character only if a part or the separator does.
pub proof fn lemma_join_with_free(parts: Seq<Seq<char>>, sep: Seq<char>, c: char)
    requires
        !sep.contains(c),
        forall|i: int| 0 <= i < parts.len() ==> !(#[trigger] parts[i]).contains(c),
    ensures
        !join_with(parts, sep).contains(c),
    decreases parts.len(),
{
    if parts.len() == 1 {
        assert(!parts[0].contains(c));
    } else if parts.len() > 1 {
        let p0 = parts.drop_last();
        assert forall|i: int| 0 <= i < p0.len() implies !(#[trigger] p0[i]).contains(c) by {
            assert(p0[i] == parts[i]);
        }
        lemma_join_with_free(p0, sep, c);
        let j = join_with(p0, sep);
        let l = parts.last();
        assert(!parts[parts.len() - 1].contains(c));
        let all = j + sep + l;
        if all.contains(c) {
            let k = choose|k: int| 0 <= k < all.len() && all[k] == c;
            if k < j.len() {
                assert(j[k] == c);
            } else if k < j.len() + sep.len() {
                assert(sep[k - j.len()] == c);
            } else {
                assert(l[k - j.len() - sep.len()] == c);
            }
        }
    }
}

pub proof fn lemma_trim_start_len(s: Seq<char>)
    ensures
        trim_start(s).len() <= s.len(),
        s.len() > 0 && is_ws(s[0]) ==> trim_start(s).len() < s.len(),
    decreases s.len(),
{
    if s.len() > 0 && is_ws(s[0]) {
        lemma_trim_start_len(s.drop_first());
    }
}

pub proof fn lemma_trim_end_len(s: Seq<char>)
    ensures
        trim_end(s).len() <= s.len(),
    decreases s.len(),
{
    if s.len() > 0 && is_ws(s.last()) {
        lemma_trim_end_len(s.drop_last());
    }
}

/// Text that trimming leaves alone does not begin with white space.
pub proof fn lemma_trimmed_starts_solid(s: Seq<char>)
    requires
        trim(s) == s,
        s.len() > 0,
    ensures
        !is_ws(s[0]),
{
    lemma_trim_start_len(s);
    lemma_trim_end_len(trim_start(s));
}

/// Every non-overlapping occurrence of `pat` in `s`, scanning from the left,
/// replaced by `rep` (`str::replace`); an empty pattern replaces nothing.
pub open spec fn replace_all(s: Seq<char>, pat: Seq<char>, rep: Seq<char>) -> Seq<char>
    decreases s.len(),
{
    if s.len() == 0 {
        s
    } else if pat.len() > 0 && starts_with(s, pat) {
        rep + replace_all(s.skip(pat.len() as int), pat, rep)
    } else {
        seq![s[0]] + replace_all(s.skip(1), pat, rep)
    }
}

/// `str::replace` for a non-empty pattern.
pub fn replace_chars(s: &[char], pat: &[char], rep: &[char]) -> (r: Vec<char>)
    requires
        pat.len() > 0,
    ensures
        r@ == replace_all(s@, pat@, rep@),
{
    let n = s.len();
    let mut r: Vec<char> = Vec::new();
    let mut i: usize = 0;
    assert(s@.skip(0) =~= s@);
    while i < n
        invariant
            n == s.len(),
            i <= n,
            pat.len() > 0,
            r@ + replace_all(s@.skip(i as int), pat@, rep@) == replace_all(s@, pat@, rep@),
        decreases n - i,
    {
        let ghost rest = s@.skip(i as int);
        if matches_at(s, pat, i) {
            assert(s@.subrange(i as int, i + pat@.len()) =~= rest.subrange(0, pat@.len() as int));
            assert(starts_with(rest, pat@));
            assert(rest.skip(pat@.len() as int) =~= s@.skip(i + pat@.len()));
            let ghost before = r@;
            push_all(&mut r, rep);
            assert(r@ + replace_all(s@.skip(i + pat@.len()), pat@, rep@)
                =~= before + (rep@ + replace_all(rest.skip(pat@.len() as int), pat@, rep@)));
            i = i + pat.len();
        } else {
            assert(!starts_with(rest, pat@)) by {
                if starts_with(rest, pat@) {
                    assert(s@.subrange(i as int, i + pat@.len()) =~= rest.subrange(0, pat@.len() as int));
                }
            }
            assert(rest.skip(1) =~= s@.skip(i + 1));
            let ghost before = r@;
            r.push(s[i]);
            assert(r@ + replace_all(s@.skip(i + 1), pat@, rep@)
                =~= before + (seq![rest[0]] + replace_all(rest.skip(1), pat@, rep@)));
            i = i + 1;
        }
    }
    assert(s@.skip(n as int) =~= Seq::<char>::empty());
    assert(r@ + Seq::<char>::empty() =~= r@);
    r
}

/// Leading `c`s removed.
pub open spec fn strip_start_char(s: Seq<char>, c: char) -> Seq<char>
    decreases s.len(),
{
    if s.len() > 0 && s[0] == c { strip_start_char(s.drop_first(), c) } else { s }
}

/// Trailing `c`s removed.
pub open spec fn strip_end_char(s: Seq<char>, c: char) -> Seq<char>
    decreases s.len(),
{
    if s.len() > 0 && s.last() == c { strip_end_char(s.drop_last(), c) } else { s }
}

/// Leading and trailing `c`s removed (`str::trim_matches` with a char).
pub open spec fn strip_char(s: Seq<char>, c: char) -> Seq<char> {
    strip_end_char(strip_start_char(s, c), c)
}

/// `str::trim_matches` with a char.
pub fn strip_chars(s: &[char], c: char) -> (r: Vec<char>)
    ensures
        r@ == strip_char(s@, c),
{
    let n = s.len();
    let mut a: usize = 0;
    assert(s@.subrange(0, n as int) =~= s@);
    while a < n && s[a] == c
        invariant
            a <= n == s.len(),
            strip_start_char(s@, c) == strip_start_char(s@.subrange(a as int, n as int), c),
        decreases n - a,
    {
        assert(s@.subrange(a as int, n as int).drop_first() =~= s@.subrange(a + 1, n as int));
        a += 1;
    }
    let ghost t = s@.subrange(a as int, n as int);
    assert(strip_start_char(t, c) == t);
    let mut b: usize = n;
    assert(t.subrange(0, (n - a) as int) =~= t);
    while b > a && s[b - 1] == c
        invariant
            a <= b <= n == s.len(),
            t == s@.subrange(a as int, n as int),
            strip_end_char(t, c) == strip_end_char(t.subrange(0, (b - a) as int), c),
        decreases b - a,
    {
        assert(t.subrange(0, (b - a) as int).drop_last() =~= t.subrange(0, (b - 1 - a) as int));
        b -= 1;
    }
    assert(t.subrange(0, (b - a) as int) =~= s@.subrange(a as int, b as int));
    copy_range(s, a, b)
}

/// The character views of string slices.
pub open spec fn str_views(v: Seq<&str>) -> Seq<Seq<char>> {
    v.map_values(|x: &str| x@)
}

/// One line of `str::lines`: a `\r` before the line's `\n` is dropped.
pub open spec fn strip_cr(l: Seq<char>) -> Seq<char> {
    if l.len() > 0 && l.last() == '\r' {
        l.drop_last()
    } else {
        l
    }
}

/// The lines `str::lines` yields: the pieces between `\n`s, each without the
/// `\r` of a `\r\n` ending; a final empty piece yields no line, and the last
/// line, having no `\n`, keeps a trailing `\r`.
pub open spec fn std_lines(s: Seq<char>) -> Seq<Seq<char>> {
    let p = split_on(s, '\n');
    let body = p.drop_last().map_values(|l: Seq<char>| strip_cr(l));
    if p.last().len() == 0 {
        body
    } else {
        body.push(p.last())
    }
}

/// The lines of `s` (`str::lines`).
pub fn lines_of(s: &[char]) -> (r: Vec<Vec<char>>)
    ensures
        views(r@) == std_lines(s@),
{
    let parts = split_chars(s, '\n');
    let ghost pv = views(parts@);
    proof {
        lemma_split_on_nonempty(s@, '\n');
    }
    let n = parts.len();
    let mut r: Vec<Vec<char>> = Vec::new();
    let mut i: usize = 0;
    while i + 1 < n
        invariant
            n == parts.len(),
            n >= 1,
            i + 1 <= n,
            pv == views(parts@),
            pv == split_on(s@, '\n'),
            views(r@) == pv.take(i as int).map_values(|l: Seq<char>| strip_cr(l)),
        decreases n - i,
    {
        let part = &parts[i];
        assert(pv[i as int] == part@);
        let ghost before = r@;
        let line = if part.len() > 0 && part[part.len() - 1] == '\r' {
            copy_range(part, 0, part.len() - 1)
        } else {
            copy_range(part, 0, part.len())
        };
        assert(line@ =~= strip_cr(part@));
        r.push(line);
        assert(views(r@) =~= views(before).push(strip_cr(pv[i as int])));
        assert(pv.take(i + 1).map_values(|l: Seq<char>| strip_cr(l)) =~= pv.take(i as int).map_values(
            |l: Seq<char>| strip_cr(l),
        ).push(strip_cr(pv[i as int])));
        i += 1;
    }
    assert(pv.take(i as int) =~= pv.drop_last());
    let last = &parts[n - 1];
    assert(pv.last() == last@);
    if last.len() > 0 {
        let ghost before = r@;
        let line = copy_range(last, 0, last.len());
        assert(line@ =~= last@);
        r.push(line);
        assert(views(r@) =~= views(before).push(last@));
    }
    r
}

/// The last `n` of `l` (all of `l` when it has no more).
pub open spec fn last_n<T>(l: Seq<T>, n: nat) -> Seq<T> {
    if l.len() > n {
        l.skip(l.len() - n)
    } else {
        l
    }
}

/// The last `n` lines of `s`, joined with `\n`.
pub fn last_lines_joined(s: &[char], n: usize) -> (r: Vec<char>)
    ensures
        r@ == join_with(last_n(std_lines(s@), n as nat), "\n"@),
{
    let lines = lines_of(s);
    let ghost lv = views(lines@);
    let start: usize = if lines.len() > n { lines.len() - n } else { 0 };
    let sep = chars_of("\n");
    let mut r: Vec<char> = Vec::new();
    let mut i: usize = start;
    assert(lv.subrange(start as int, start as int) =~= Seq::<Seq<char>>::empty());
    while i < lines.len()
        invariant
            start <= i <= lines.len(),
            lv == views(lines@),
            sep@ == "\n"@,
            r@ == join_with(lv.subrange(start as int, i as int), sep@),
        decreases lines.len() - i,
    {
        assert(lv.subrange(start as int, i + 1).drop_last() =~= lv.subrange(start as int, i as int));
        if i > start {
            push_all(&mut r, &sep);
        }
        push_all(&mut r, &lines[i]);
        assert(lv.subrange(start as int, i + 1).last() == lines@[i as int]@);
        proof {
            if i == start {
                assert(r@ =~= join_with(lv.subrange(start as int, i + 1), sep@));
            }
        }
        i += 1;
    }
    assert(lv.subrange(start as int, lines.len() as int) =~= last_n(lv, n as nat));
    r
}

/// `trim_start` leaves a prefix-free text and yields one.
proof fn lemma_trim_start_shape(s: Seq<char>)
    ensures
        trim_start(s).len() == 0 || !is_ws(trim_start(s)[0]),
        exists|a: int| 0 <= a <= s.len() && trim_start(s) == s.skip(a),
    decreases s.len(),
{
    if s.len() > 0 && is_ws(s[0]) {
        lemma_trim_start_shape(s.drop_first());
        let a = choose|a: int| 0 <= a <= s.drop_first().len() && trim_start(s.drop_first()) == s.drop_first().skip(a);
        assert(s.drop_first().skip(a) =~= s.skip(a + 1));
    } else {
        assert(s.skip(0) =~= s);
    }
}

/// `trim_end` keeps a prefix and leaves no trailing white space.
proof fn lemma_trim_end_shape(s: Seq<char>)
    ensures
        trim_end(s).len() == 0 || !is_ws(trim_end(s).last()),
        exists|b: int| 0 <= b <= s.len() && trim_end(s) == s.take(b),
    decreases s.len(),
{
    if s.len() > 0 && is_ws(s.last()) {
        lemma_trim_end_shape(s.drop_last());
        let b = choose|b: int| 0 <= b <= s.drop_last().len() && trim_end(s.drop_last()) == s.drop_last().take(b);
        assert(s.drop_last().take(b) =~= s.take(b));
    } else {
        assert(s.take(s.len() as int) =~= s);
    }
}

/// Trimming keeps a stretch of the text.
pub proof fn lemma_trim_is_subrange(s: Seq<char>)
    ensures
        exists|a: int, b: int| 0 <= a <= b <= s.len() && #[trigger] s.subrange(a, b) == trim(s),
{
    lemma_trim_start_shape(s);
    let a = choose|a: int| 0 <= a <= s.len() && trim_start(s) == s.skip(a);
    let x = trim_start(s);
    lemma_trim_end_shape(x);
    let b = choose|b: int| 0 <= b <= x.len() && trim_end(x) == x.take(b);
    assert(x.take(b) =~= s.subrange(a, a + b));
}

/// Trimming twice trims once.
pub proof fn lemma_trim_idempotent(s: Seq<char>)
    ensures
        trim(trim(s)) == trim(s),
{
    let x = trim_start(s);
    lemma_trim_start_shape(s);
    lemma_trim_end_shape(x);
    let y = trim_end(x);
    let b = choose|b: int| 0 <= b <= x.len() && y == x.take(b);
    if y.len() > 0 {
        assert(y[0] == x[0]);
    }
    assert(trim_start(y) == y);
    lemma_trim_end_shape(y);
    if y.len() > 0 {
        assert(trim_end(y) == y);
    }
}

} // verus!
