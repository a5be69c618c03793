//! Character-level text handling: the mathematical meaning of the string
//! operations the rest of the library is built from, and verified
//! implementations of them.
use vstd::prelude::*;

verus! {

// ---------------------------------------------------------------------
// Character classes
// ---------------------------------------------------------------------

/// The characters with the Unicode `White_Space` property, which is what
/// `char::is_whitespace` and `str::trim` go by.
pub open spec fn is_ws(c: char) -> bool {
    ||| ('\u{9}' <= c && c <= '\u{d}')
    ||| c == ' '
    ||| c == '\u{85}'
    ||| c == '\u{a0}'
    ||| c == '\u{1680}'
    ||| ('\u{2000}' <= c && c <= '\u{200a}')
    ||| c == '\u{2028}'
    ||| c == '\u{2029}'
    ||| c == '\u{202f}'
    ||| c == '\u{205f}'
    ||| c == '\u{3000}'
}

pub open spec fn is_digit(c: char) -> bool {
    '0' <= c && c <= '9'
}

pub open spec fn is_upper(c: char) -> bool {
    'A' <= c && c <= 'Z'
}

pub open spec fn is_lower(c: char) -> bool {
    'a' <= c && c <= 'z'
}

pub open spec fn is_alpha(c: char) -> bool {
    is_upper(c) || is_lower(c)
}

pub open spec fn is_alnum(c: char) -> bool {
    is_alpha(c) || is_digit(c)
}

/// ASCII lower-casing of one character; every other character is kept.
pub open spec fn lower(c: char) -> char {
    if is_upper(c) {
        ((c as u32) + 32) as char
    } else {
        c
    }
}

pub open spec fn lower_seq(s: Seq<char>) -> Seq<char> {
    s.map_values(|c: char| lower(c))
}

pub fn is_ws_exec(c: char) -> (b: bool)
    ensures
        b == is_ws(c),
{
    ('\u{9}' <= c && c <= '\u{d}') || c == ' ' || c == '\u{85}' || c == '\u{a0}' || c
        == '\u{1680}' || ('\u{2000}' <= c && c <= '\u{200a}') || c == '\u{2028}' || c
        == '\u{2029}' || c == '\u{202f}' || c == '\u{205f}' || c == '\u{3000}'
}

pub fn is_digit_exec(c: char) -> (b: bool)
    ensures
        b == is_digit(c),
{
    '0' <= c && c <= '9'
}

pub fn is_alpha_exec(c: char) -> (b: bool)
    ensures
        b == is_alpha(c),
{
    ('A' <= c && c <= 'Z') || ('a' <= c && c <= 'z')
}

pub fn is_alnum_exec(c: char) -> (b: bool)
    ensures
        b == is_alnum(c),
{
    is_alpha_exec(c) || is_digit_exec(c)
}

pub fn lower_exec(c: char) -> (r: char)
    ensures
        r == lower(c),
{
    if 'A' <= c && c <= 'Z' {
        let u: u8 = c as u8;
        let r: u8 = u + 32;
        r as char
    } else {
        c
    }
}


// ---------------------------------------------------------------------
// Conversions between `str`, `String` and character vectors
// ---------------------------------------------------------------------

/// `String::push`: appends one character.
#[verifier::external_body]
pub(crate) fn push_char(s: &mut String, c: char)
    ensures
        final(s)@ == old(s)@.push(c),
{
    s.push(c);
}

/// The characters of a string slice, in order.
pub fn chars_of(s: &str) -> (v: Vec<char>)
    ensures
        v@ == s@,
{
    let n = s.unicode_len();
    let mut v: Vec<char> = Vec::new();
    let mut i: usize = 0;
    while i < n
        invariant
            n == s@.len(),
            i <= n,
            v@ == s@.subrange(0, i as int),
        decreases n - i,
    {
        v.push(s.get_char(i));
        i = i + 1;
    }
    v
}

/// Appends the characters `v[from..to]` to `out`.
pub fn push_range(out: &mut String, v: &Vec<char>, from: usize, to: usize)
    requires
        from <= to <= v@.len(),
    ensures
        final(out)@ == old(out)@ + v@.subrange(from as int, to as int),
{
    let mut i = from;
    while i < to
        invariant
            from <= i <= to <= v@.len(),
            out@ == old(out)@ + v@.subrange(from as int, i as int),
        decreases to - i,
    {
        push_char(out, v[i]);
        i = i + 1;
        assert(v@.subrange(from as int, i as int) =~= v@.subrange(from as int, (i - 1) as int).push(v@[i - 1]));
    }
}

/// Appends a string slice to `out`.
pub fn push_str(out: &mut String, s: &str)
    ensures
        final(out)@ == old(out)@ + s@,
{
    let v = chars_of(s);
    push_range(out, &v, 0, v.len());
    assert(v@.subrange(0, v@.len() as int) =~= v@);
}

/// A string holding `v[from..to]`.
pub fn string_of_range(v: &Vec<char>, from: usize, to: usize) -> (s: String)
    requires
        from <= to <= v@.len(),
    ensures
        s@ == v@.subrange(from as int, to as int),
{
    let mut s = String::new();
    push_range(&mut s, v, from, to);
    assert(Seq::<char>::empty() + v@.subrange(from as int, to as int) =~= v@.subrange(from as int, to as int));
    s
}

pub fn string_of(v: &Vec<char>) -> (s: String)
    ensures
        s@ == v@,
{
    let s = string_of_range(v, 0, v.len());
    assert(v@.subrange(0, v@.len() as int) =~= v@);
    s
}

pub fn copy_str(s: &str) -> (r: String)
    ensures
        r@ == s@,
{
    let mut r = String::new();
    push_str(&mut r, s);
    assert(Seq::<char>::empty() + s@ =~= s@);
    r
}

/// Equality of two character sequences.
pub fn seq_eq(a: &Vec<char>, b: &Vec<char>) -> (r: bool)
    ensures
        r == (a@ == b@),
{
    if a.len() != b.len() {
        return false;
    }
    let mut i: usize = 0;
    while i < a.len()
        invariant
            a@.len() == b@.len(),
            i <= a@.len(),
            forall|k: int| 0 <= k < i ==> a@[k] == b@[k],
        decreases a.len() - i,
    {
        if a[i] != b[i] {
            return false;
        }
        i = i + 1;
    }
    assert(a@ =~= b@);
    true
}

pub fn str_eq(a: &str, b: &str) -> (r: bool)
    ensures
        r == (a@ == b@),
{
    let va = chars_of(a);
    let vb = chars_of(b);
    seq_eq(&va, &vb)
}

// ---------------------------------------------------------------------
// Stripping characters from both ends
// ---------------------------------------------------------------------

/// Removes the leading characters that satisfy `p`.
pub open spec fn strip_start(s: Seq<char>, p: spec_fn(char) -> bool) -> Seq<char>
    decreases s.len(),
{
    if s.len() > 0 && p(s[0]) {
        strip_start(s.drop_first(), p)
    } else {
        s
    }
}

/// Removes the trailing characters that satisfy `p`.
pub open spec fn strip_end(s: Seq<char>, p: spec_fn(char) -> bool) -> Seq<char>
    decreases s.len(),
{
    if s.len() > 0 && p(s.last()) {
        strip_end(s.drop_last(), p)
    } else {
        s
    }
}

/// Removes the characters that satisfy `p` from both ends.
pub open spec fn strip(s: Seq<char>, p: spec_fn(char) -> bool) -> Seq<char> {
    strip_end(strip_start(s, p), p)
}

/// `str::trim_start`.
pub open spec fn trim_start(s: Seq<char>) -> Seq<char> {
    strip_start(s, |c: char| is_ws(c))
}

/// `str::trim`.
pub open spec fn trim(s: Seq<char>) -> Seq<char> {
    strip(s, |c: char| is_ws(c))
}

/// The sets of characters the library strips from the ends of a value.
#[derive(Clone, Copy, PartialEq, Eq, Structural)]
pub enum CharSet {
    /// Whitespace, as `str::trim` strips it.
    Space,
    /// One given character, as `str::trim_matches(c)` strips it.
    One(char),
    /// The characters `.`, `_` and `-`.
    NamePunct,
}

pub open spec fn in_set(set: CharSet, c: char) -> bool {
    match set {
        CharSet::Space => is_ws(c),
        CharSet::One(x) => c == x,
        CharSet::NamePunct => c == '.' || c == '_' || c == '-',
    }
}

pub open spec fn set_pred(set: CharSet) -> spec_fn(char) -> bool {
    |c: char| in_set(set, c)
}

pub fn in_set_exec(set: CharSet, c: char) -> (b: bool)
    ensures
        b == in_set(set, c),
{
    match set {
        CharSet::Space => is_ws_exec(c),
        CharSet::One(x) => c == x,
        CharSet::NamePunct => c == '.' || c == '_' || c == '-',
    }
}

pub proof fn lemma_strip_start_at(s: Seq<char>, p: spec_fn(char) -> bool, lo: int)
    requires
        0 <= lo <= s.len(),
        forall|i: int| 0 <= i < lo ==> p(#[trigger] s[i]),
        lo == s.len() || !p(s[lo]),
    ensures
        strip_start(s, p) == s.subrange(lo, s.len() as int),
    decreases lo,
{
    if lo == 0 {
        assert(s.subrange(0, s.len() as int) =~= s);
    } else {
        let t = s.drop_first();
        assert forall|i: int| 0 <= i < lo - 1 implies p(#[trigger] t[i]) by {
            assert(t[i] == s[i + 1]);
        }
        lemma_strip_start_at(t, p, lo - 1);
        assert(t.subrange(lo - 1, t.len() as int) =~= s.subrange(lo, s.len() as int));
    }
}

pub proof fn lemma_strip_end_at(s: Seq<char>, p: spec_fn(char) -> bool, hi: int)
    requires
        0 <= hi <= s.len(),
        forall|i: int| hi <= i < s.len() ==> p(#[trigger] s[i]),
        hi == 0 || !p(s[hi - 1]),
    ensures
        strip_end(s, p) == s.subrange(0, hi),
    decreases s.len() - hi,
{
    if hi == s.len() {
        assert(s.subrange(0, s.len() as int) =~= s);
    } else {
        let t = s.drop_last();
        assert forall|i: int| hi <= i < t.len() implies p(#[trigger] t[i]) by {
            assert(t[i] == s[i]);
        }
        if hi > 0 {
            assert(t[hi - 1] == s[hi - 1]);
        }
        lemma_strip_end_at(t, p, hi);
        assert(t.subrange(0, hi) =~= s.subrange(0, hi));
    }
}

/// What `strip_start` leaves does not start with a stripped character.
pub proof fn lemma_strip_start_first(s: Seq<char>, p: spec_fn(char) -> bool)
    ensures
        strip_start(s, p).len() == 0 || !p(strip_start(s, p)[0]),
    decreases s.len(),
{
    if s.len() > 0 && p(s[0]) {
        lemma_strip_start_first(s.drop_first(), p);
    }
}

/// What `strip_end` leaves is a prefix of `s` that does not end with a
/// stripped character.
pub proof fn lemma_strip_end_prefix(s: Seq<char>, p: spec_fn(char) -> bool)
    ensures
        strip_end(s, p).len() <= s.len(),
        forall|i: int| 0 <= i < strip_end(s, p).len() ==> #[trigger] strip_end(s, p)[i] == s[i],
        strip_end(s, p).len() == 0 || !p(strip_end(s, p).last()),
    decreases s.len(),
{
    if s.len() > 0 && p(s.last()) {
        lemma_strip_end_prefix(s.drop_last(), p);
    }
}

/// Stripping twice strips no more than stripping once.
pub proof fn lemma_strip_idempotent(s: Seq<char>, p: spec_fn(char) -> bool)
    ensures
        strip(strip(s, p), p) == strip(s, p),
{
    let a = strip_start(s, p);
    let w = strip_end(a, p);
    lemma_strip_start_first(s, p);
    lemma_strip_end_prefix(a, p);
    if w.len() > 0 {
        assert(w[0] == a[0]);
        assert(strip_start(w, p) == w);
        assert(strip_end(w, p) == w);
    } else {
        assert(strip_start(w, p) == w);
        assert(strip_end(w, p) == w);
    }
}

/// `str::trim` of a trimmed text changes nothing.
pub proof fn lemma_trim_idempotent(s: Seq<char>)
    ensures
        trim(trim(s)) == trim(s),
{
    lemma_strip_idempotent(s, |c: char| is_ws(c));
}

/// The bounds `(lo, hi)` of what remains of `v` once the characters of
/// `set` are stripped from both ends.
pub fn strip_bounds(v: &Vec<char>, set: CharSet) -> (r: (usize, usize))
    ensures
        r.0 <= r.1 <= v@.len(),
        strip(v@, set_pred(set)) == v@.subrange(r.0 as int, r.1 as int),
{
    let n = v.len();
    let mut lo: usize = 0;
    while lo < n && in_set_exec(set, v[lo])
        invariant
            n == v@.len(),
            lo <= n,
            forall|i: int| 0 <= i < lo ==> in_set(set, #[trigger] v@[i]),
        decreases n - lo,
    {
        lo = lo + 1;
    }
    proof {
        lemma_strip_start_at(v@, set_pred(set), lo as int);
    }
    let mut hi: usize = n;
    while hi > lo && in_set_exec(set, v[hi - 1])
        invariant
            n == v@.len(),
            lo <= hi <= n,
            forall|i: int| hi <= i < n ==> in_set(set, #[trigger] v@[i]),
        decreases hi,
    {
        hi = hi - 1;
    }
    proof {
        let t = v@.subrange(lo as int, n as int);
        assert forall|i: int| hi - lo <= i < t.len() implies set_pred(set)(#[trigger] t[i]) by {
            assert(t[i] == v@[i + lo]);
        }
        if hi > lo {
            assert(t[hi - lo - 1] == v@[hi - 1]);
        }
        lemma_strip_end_at(t, set_pred(set), hi - lo);
        assert(t.subrange(0, hi - lo) =~= v@.subrange(lo as int, hi as int));
    }
    (lo, hi)
}

/// `s` with the characters of `set` stripped from both ends.
pub fn strip_str(s: &str, set: CharSet) -> (r: String)
    ensures
        r@ == strip(s@, set_pred(set)),
{
    let v = chars_of(s);
    let (lo, hi) = strip_bounds(&v, set);
    string_of_range(&v, lo, hi)
}

/// `str::trim`.
pub fn trim_str(s: &str) -> (r: String)
    ensures
        r@ == trim(s@),
{
    let r = strip_str(s, CharSet::Space);
    assert(set_pred(CharSet::Space) =~= (|c: char| is_ws(c)));
    r
}


// ---------------------------------------------------------------------
// Searching
// ---------------------------------------------------------------------

/// `pat` occurs in `s` starting at index `i`.
pub open spec fn occurs_at(s: Seq<char>, pat: Seq<char>, i: int) -> bool {
    0 <= i && i + pat.len() <= s.len() && s.subrange(i, i + pat.len()) == pat
}

pub open spec fn contains(s: Seq<char>, pat: Seq<char>) -> bool {
    exists|i: int| occurs_at(s, pat, i)
}

pub open spec fn starts_with(s: Seq<char>, pat: Seq<char>) -> bool {
    occurs_at(s, pat, 0)
}

pub open spec fn ends_with(s: Seq<char>, pat: Seq<char>) -> bool {
    pat.len() <= s.len() && occurs_at(s, pat, s.len() - pat.len())
}

/// The result of `str::find`: the first occurrence.
pub open spec fn is_first_occurrence(s: Seq<char>, pat: Seq<char>, i: int) -> bool {
    occurs_at(s, pat, i) && forall|j: int| 0 <= j < i ==> !occurs_at(s, pat, j)
}

/// The result of `str::rfind`: the last occurrence.
pub open spec fn is_last_occurrence(s: Seq<char>, pat: Seq<char>, i: int) -> bool {
    occurs_at(s, pat, i) && forall|j: int| i < j <= s.len() ==> !occurs_at(s, pat, j)
}

pub fn occurs_at_exec(s: &Vec<char>, pat: &Vec<char>, i: usize) -> (b: bool)
    ensures
        b == occurs_at(s@, pat@, i as int),
{
    if i > s.len() || pat.len() > s.len() - i {
        return false;
    }
    let n = s.len();
    let mut k: usize = 0;
    while k < pat.len()
        invariant
            n == s@.len(),
            i + pat@.len() <= s@.len(),
            k <= pat@.len(),
            forall|m: int| 0 <= m < k ==> s@[i + m] == pat@[m],
        decreases pat.len() - k,
    {
        if s[i + k] != pat[k] {
            assert(s@.subrange(i as int, i + pat@.len())[k as int] != pat@[k as int]);
            return false;
        }
        k = k + 1;
    }
    assert(s@.subrange(i as int, i + pat@.len()) =~= pat@);
    true
}

/// `str::find` over character indices.
pub fn find_seq(s: &Vec<char>, pat: &Vec<char>) -> (r: Option<usize>)
    ensures
        match r {
            Some(i) => is_first_occurrence(s@, pat@, i as int),
            None => !contains(s@, pat@),
        },
{
    let mut i: usize = 0;
    while i < s.len()
        invariant
            i <= s@.len(),
            forall|j: int| 0 <= j < i ==> !occurs_at(s@, pat@, j),
        decreases s.len() - i,
    {
        if occurs_at_exec(s, pat, i) {
            return Some(i);
        }
        i = i + 1;
    }
    if occurs_at_exec(s, pat, i) {
        return Some(i);
    }
    assert forall|j: int| !occurs_at(s@, pat@, j) by {
        if 0 <= j && j <= s@.len() {
            assert(j <= i);
        }
    }
    None
}

/// `str::rfind` over character indices.
pub fn rfind_seq(s: &Vec<char>, pat: &Vec<char>) -> (r: Option<usize>)
    ensures
        match r {
            Some(i) => is_last_occurrence(s@, pat@, i as int),
            None => !contains(s@, pat@),
        },
{
    let mut i: usize = s.len();
    if occurs_at_exec(s, pat, i) {
        return Some(i);
    }
    while i > 0
        invariant
            i <= s@.len(),
            forall|j: int| i <= j <= s@.len() ==> !occurs_at(s@, pat@, j),
        decreases i,
    {
        i = i - 1;
        if occurs_at_exec(s, pat, i) {
            return Some(i);
        }
    }
    assert forall|j: int| !occurs_at(s@, pat@, j) by {
        if 0 <= j && j <= s@.len() {
            assert(i <= j);
        }
    }
    None
}

pub fn contains_seq(s: &Vec<char>, pat: &Vec<char>) -> (b: bool)
    ensures
        b == contains(s@, pat@),
{
    match find_seq(s, pat) {
        Some(_) => true,
        None => false,
    }
}

pub fn contains_str(s: &Vec<char>, pat: &str) -> (b: bool)
    ensures
        b == contains(s@, pat@),
{
    let p = chars_of(pat);
    contains_seq(s, &p)
}

pub fn starts_with_str(s: &Vec<char>, pat: &str) -> (b: bool)
    ensures
        b == starts_with(s@, pat@),
{
    let p = chars_of(pat);
    occurs_at_exec(s, &p, 0)
}

pub fn ends_with_str(s: &Vec<char>, pat: &str) -> (b: bool)
    ensures
        b == ends_with(s@, pat@),
{
    let p = chars_of(pat);
    if p.len() > s.len() {
        false
    } else {
        occurs_at_exec(s, &p, s.len() - p.len())
    }
}

/// The first index of character `c`, as in `str::split_once(c)`.
pub open spec fn is_first_char(s: Seq<char>, c: char, i: int) -> bool {
    0 <= i < s.len() && s[i] == c && forall|j: int| 0 <= j < i ==> s[j] != c
}

pub open spec fn has_char(s: Seq<char>, c: char) -> bool {
    exists|i: int| 0 <= i < s.len() && s[i] == c
}

pub fn find_char(s: &Vec<char>, c: char) -> (r: Option<usize>)
    ensures
        match r {
            Some(i) => is_first_char(s@, c, i as int),
            None => !has_char(s@, c),
        },
{
    let mut i: usize = 0;
    while i < s.len()
        invariant
            i <= s@.len(),
            forall|j: int| 0 <= j < i ==> s@[j] != c,
        decreases s.len() - i,
    {
        if s[i] == c {
            return Some(i);
        }
        i = i + 1;
    }
    None
}

pub proof fn lemma_first_char_unique(s: Seq<char>, c: char, i: int, j: int)
    requires
        is_first_char(s, c, i),
        is_first_char(s, c, j),
    ensures
        i == j,
{
}

/// `str::split_whitespace` from index `i` on, with `cur` the part of the
/// current word already read.
pub open spec fn words_from(s: Seq<char>, i: int, cur: Seq<char>) -> Seq<Seq<char>>
    decreases s.len() - i,
{
    if i >= s.len() {
        if cur.len() == 0 {
            seq![]
        } else {
            seq![cur]
        }
    } else if is_ws(s[i]) {
        if cur.len() == 0 {
            words_from(s, i + 1, seq![])
        } else {
            seq![cur] + words_from(s, i + 1, seq![])
        }
    } else {
        words_from(s, i + 1, cur.push(s[i]))
    }
}

/// `str::split_whitespace`: the non-empty runs of characters between
/// whitespace.
pub open spec fn words(s: Seq<char>) -> Seq<Seq<char>> {
    words_from(s, 0, seq![])
}

pub fn split_words(s: &str) -> (r: Vec<Vec<char>>)
    ensures
        views(r@) == words(s@),
{
    let v = chars_of(s);
    let mut out: Vec<Vec<char>> = Vec::new();
    let mut cur: Vec<char> = Vec::new();
    let mut i: usize = 0;
    while i < v.len()
        invariant
            v@ == s@,
            i <= v@.len(),
            views(out@) + words_from(v@, i as int, cur@) == words(v@),
        decreases v.len() - i,
    {
        let c = v[i];
        if is_ws_exec(c) {
            if cur.len() > 0 {
                let ghost out0 = out@;
                let ghost cur0 = cur@;
                out.push(cur);
                assert(views(out@) =~= views(out0).push(cur0));
                cur = Vec::new();
                assert(views(out@) + words_from(v@, i + 1, cur@) =~= views(out0) + words_from(
                    v@,
                    i as int,
                    cur0,
                ));
            } else {
                assert(cur@ =~= Seq::<char>::empty());
            }
        } else {
            cur.push(c);
        }
        i = i + 1;
    }
    if cur.len() > 0 {
        let ghost cv = cur@;
        let ghost before = views(out@);
        out.push(cur);
        assert(views(out@) =~= before.push(cv));
        assert(views(out@) =~= before + seq![cv]);
    } else {
        assert(views(out@) + seq![] =~= views(out@));
    }
    out
}

/// The last index of character `c`.
pub open spec fn is_last_char(s: Seq<char>, c: char, i: int) -> bool {
    0 <= i < s.len() && s[i] == c && forall|j: int| i < j < s.len() ==> s[j] != c
}

pub proof fn lemma_last_char_unique(s: Seq<char>, c: char, i: int, j: int)
    requires
        is_last_char(s, c, i),
        is_last_char(s, c, j),
    ensures
        i == j,
{
}

pub fn rfind_char(s: &Vec<char>, c: char) -> (r: Option<usize>)
    ensures
        match r {
            Some(i) => is_last_char(s@, c, i as int),
            None => !has_char(s@, c),
        },
{
    let mut i: usize = s.len();
    while i > 0
        invariant
            i <= s@.len(),
            forall|j: int| i <= j < s@.len() ==> s@[j] != c,
        decreases i,
    {
        if s[i - 1] == c {
            return Some(i - 1);
        }
        i = i - 1;
    }
    None
}

// ---------------------------------------------------------------------
// Case
// ---------------------------------------------------------------------

/// `str::to_ascii_lowercase` over a character vector.
pub fn lower_vec(v: &Vec<char>) -> (r: Vec<char>)
    ensures
        r@ == lower_seq(v@),
{
    let mut r: Vec<char> = Vec::new();
    let mut i: usize = 0;
    while i < v.len()
        invariant
            i <= v@.len(),
            r@ == lower_seq(v@.subrange(0, i as int)),
        decreases v.len() - i,
    {
        let c = lower_exec(v[i]);
        r.push(c);
        i = i + 1;
        assert(lower_seq(v@.subrange(0, i as int)) =~= lower_seq(v@.subrange(0, i - 1)).push(c));
    }
    assert(v@.subrange(0, v@.len() as int) =~= v@);
    r
}

/// `str::eq_ignore_ascii_case`.
pub fn eq_ignore_case(a: &str, b: &str) -> (r: bool)
    ensures
        r == (lower_seq(a@) == lower_seq(b@)),
{
    let va = lower_vec(&chars_of(a));
    let vb = lower_vec(&chars_of(b));
    seq_eq(&va, &vb)
}

// ---------------------------------------------------------------------
// Lines
// ---------------------------------------------------------------------

/// Drops one trailing carriage return.
pub open spec fn strip_cr(s: Seq<char>) -> Seq<char> {
    if s.len() > 0 && s.last() == '\r' {
        s.drop_last()
    } else {
        s
    }
}

/// `str::lines` from index `i` on, with `cur` the part of the current line
/// already read.
pub open spec fn lines_from(s: Seq<char>, i: int, cur: Seq<char>) -> Seq<Seq<char>>
    decreases s.len() - i,
{
    if i >= s.len() {
        if cur.len() == 0 {
            seq![]
        } else {
            seq![cur]
        }
    } else if s[i] == '\n' {
        seq![strip_cr(cur)] + lines_from(s, i + 1, seq![])
    } else {
        lines_from(s, i + 1, cur.push(s[i]))
    }
}

/// `str::lines`: split at `\n`, one `\r` before it dropped, no empty last
/// line after a final `\n`.
pub open spec fn lines(s: Seq<char>) -> Seq<Seq<char>> {
    lines_from(s, 0, seq![])
}

pub open spec fn views(v: Seq<Vec<char>>) -> Seq<Seq<char>> {
    v.map_values(|x: Vec<char>| x@)
}

pub fn strip_cr_vec(cur: Vec<char>) -> (r: Vec<char>)
    ensures
        r@ == strip_cr(cur@),
{
    let mut cur = cur;
    if cur.len() > 0 && cur[cur.len() - 1] == '\r' {
        cur.pop();
    }
    cur
}

pub fn split_lines(s: &str) -> (r: Vec<Vec<char>>)
    ensures
        views(r@) == lines(s@),
{
    let v = chars_of(s);
    let mut out: Vec<Vec<char>> = Vec::new();
    let mut cur: Vec<char> = Vec::new();
    let mut i: usize = 0;
    while i < v.len()
        invariant
            v@ == s@,
            i <= v@.len(),
            views(out@) + lines_from(v@, i as int, cur@) == lines(v@),
        decreases v.len() - i,
    {
        let c = v[i];
        if c == '\n' {
            let ghost out0 = out@;
            let ghost cur0 = cur@;
            let line = strip_cr_vec(cur);
            let ghost lv = line@;
            out.push(line);
            assert(views(out@) =~= views(out0).push(lv));
            cur = Vec::new();
            assert(lines_from(v@, i as int, cur0) == seq![lv] + lines_from(v@, i + 1, seq![]));
            assert(views(out@) + lines_from(v@, i + 1, cur@) =~= views(out0) + lines_from(v@, i as int, cur0));
        } else {
            cur.push(c);
        }
        i = i + 1;
    }
    if cur.len() > 0 {
        let ghost cv = cur@;
        let ghost before = views(out@);
        out.push(cur);
        assert(views(out@) =~= before.push(cv));
        assert(views(out@) =~= before + seq![cv]);
    } else {
        assert(views(out@) + seq![] =~= views(out@));
    }
    out
}

// ---------------------------------------------------------------------
// Decimal numbers
// ---------------------------------------------------------------------

pub open spec fn digit_char(d: nat) -> char {
    (d + 48) as char
}

/// The decimal representation of `n`, as `Display` for integers writes it.
pub open spec fn decimal(n: nat) -> Seq<char>
    decreases n,
{
    if n < 10 {
        seq![digit_char(n)]
    } else {
        decimal(n / 10).push(digit_char(n % 10))
    }
}

pub fn push_decimal(out: &mut String, n: u64)
    ensures
        final(out)@ == old(out)@ + decimal(n as nat),
    decreases n,
{
    if n >= 10 {
        push_decimal(out, n / 10);
    }
    let d: u8 = (n % 10) as u8;
    let c: char = (d + 48) as char;
    assert(c == digit_char((n % 10) as nat));
    push_char(out, c);
    if n >= 10 {
        assert(old(out)@ + decimal(n as nat) =~= old(out)@ + decimal((n / 10) as nat) + seq![c]);
    } else {
        assert(old(out)@ + decimal(n as nat) =~= old(out)@.push(c));
    }
}

/// Two numbers with the same decimal representation are equal.
pub proof fn lemma_decimal_injective(a: nat, b: nat)
    requires
        decimal(a) == decimal(b),
    ensures
        a == b,
    decreases a,
{
    if a >= 10 {
        assert(decimal(a / 10).len() >= 1) by {
            reveal_with_fuel(decimal, 2);
        }
    }
    if b >= 10 {
        assert(decimal(b / 10).len() >= 1) by {
            reveal_with_fuel(decimal, 2);
        }
    }
    if a < 10 && b < 10 {
        assert(digit_char(a) == decimal(a)[0]);
        assert(digit_char(b) == decimal(b)[0]);
        assert(digit_char(a) as int == a + 48);
        assert(digit_char(b) as int == b + 48);
    } else if a >= 10 && b >= 10 {
        assert(decimal(a).drop_last() =~= decimal(a / 10));
        assert(decimal(b).drop_last() =~= decimal(b / 10));
        lemma_decimal_injective(a / 10, b / 10);
        let da = (a % 10) as nat;
        let db = (b % 10) as nat;
        assert(digit_char(da) == decimal(a).last());
        assert(digit_char(db) == decimal(b).last());
        assert(digit_char(da) as int == da + 48);
        assert(digit_char(db) as int == db + 48);
    } else if a < 10 {
        assert(decimal(a).len() == 1);
        assert(decimal(b).len() == decimal(b / 10).len() + 1);
    } else {
        assert(decimal(b).len() == 1);
        assert(decimal(a).len() == decimal(a / 10).len() + 1);
    }
}

/// The value of a string of decimal digits.
pub open spec fn digits_value(s: Seq<char>) -> nat
    decreases s.len(),
{
    if s.len() == 0 {
        0
    } else {
        digits_value(s.drop_last()) * 10 + ((s.last() as int - 48) as nat)
    }
}

pub open spec fn all_digits(s: Seq<char>) -> bool {
    forall|i: int| 0 <= i < s.len() ==> is_digit(#[trigger] s[i])
}

/// `u16::from_str` on a non-empty run of decimal digits.
pub open spec fn digits_u16(s: Seq<char>) -> Option<u16> {
    if digits_value(s) <= 65535 {
        Some(digits_value(s) as u16)
    } else {
        None
    }
}

/// Parses the digits `v[from..to]` as a `u16`.
pub fn parse_digits_u16(v: &Vec<char>, from: usize, to: usize) -> (r: Option<u16>)
    requires
        from <= to <= v@.len(),
        all_digits(v@.subrange(from as int, to as int)),
    ensures
        r == digits_u16(v@.subrange(from as int, to as int)),
{
    let mut acc: u32 = 0;
    let mut i = from;
    while i < to
        invariant
            from <= i <= to <= v@.len(),
            all_digits(v@.subrange(from as int, to as int)),
            acc as int == if digits_value(v@.subrange(from as int, i as int)) < 65536 {
                digits_value(v@.subrange(from as int, i as int)) as int
            } else {
                65536
            },
        decreases to - i,
    {
        let c = v[i];
        assert(v@.subrange(from as int, to as int)[i - from] == c);
        let d: u32 = (c as u32) - 48;
        let next: u32 = acc * 10 + d;
        acc = if next > 65536 { 65536 } else { next };
        i = i + 1;
        let ghost pre = v@.subrange(from as int, i - 1);
        assert(v@.subrange(from as int, i as int).drop_last() =~= pre);
    }
    if acc <= 65535 {
        Some(acc as u16)
    } else {
        None
    }
}


/// `u16::from_str`: an optional `+`, then one or more decimal digits whose
/// value fits.
pub open spec fn parse_u16_spec(s: Seq<char>) -> Option<u16> {
    let d = if s.len() > 0 && s[0] == '+' {
        s.drop_first()
    } else {
        s
    };
    if d.len() > 0 && all_digits(d) {
        digits_u16(d)
    } else {
        None
    }
}

pub fn parse_u16_str(s: &str) -> (r: Option<u16>)
    ensures
        r == parse_u16_spec(s@),
{
    let v = chars_of(s);
    let from: usize = if v.len() > 0 && v[0] == '+' {
        1
    } else {
        0
    };
    if from >= v.len() {
        return None;
    }
    let mut i = from;
    while i < v.len()
        invariant
            v@ == s@,
            from == (if v@.len() > 0 && v@[0] == '+' { 1int } else { 0int }),
            from < v@.len(),
            from <= i <= v@.len(),
            forall|k: int| from <= k < i ==> is_digit(#[trigger] v@[k]),
        decreases v.len() - i,
    {
        if !is_digit_exec(v[i]) {
            proof {
                let d = v@.subrange(from as int, v@.len() as int);
                assert(d[i - from] == v@[i as int]);
                if from == 1 {
                    assert(d =~= s@.drop_first());
                } else {
                    assert(d =~= s@);
                }
            }
            return None;
        }
        i = i + 1;
    }
    let ghost d = v@.subrange(from as int, v@.len() as int);
    assert(all_digits(d)) by {
        assert forall|k: int| 0 <= k < d.len() implies is_digit(#[trigger] d[k]) by {
            assert(d[k] == v@[k + from]);
        }
    }
    proof {
        if from == 1 {
            assert(d =~= s@.drop_first());
        } else {
            assert(d =~= s@);
        }
    }
    parse_digits_u16(&v, from, v.len())
}

/// The first run of decimal digits, from index `i` on, that parses as a
/// `u16`; `start` is where the run being read began, or -1 outside a run.
pub open spec fn first_u16_scan(s: Seq<char>, i: int, start: int) -> Option<u16>
    decreases s.len() - i,
{
    if i >= s.len() {
        if start >= 0 {
            digits_u16(s.subrange(start, s.len() as int))
        } else {
            None
        }
    } else if is_digit(s[i]) {
        first_u16_scan(s, i + 1, if start >= 0 { start } else { i })
    } else if start >= 0 && digits_u16(s.subrange(start, i)) is Some {
        digits_u16(s.subrange(start, i))
    } else {
        first_u16_scan(s, i + 1, -1)
    }
}

/// The first maximal run of ASCII digits in `s` whose value fits a `u16`.
pub open spec fn first_u16(s: Seq<char>) -> Option<u16> {
    first_u16_scan(s, 0, -1)
}

pub fn first_u16_exec(s: &str) -> (r: Option<u16>)
    ensures
        r == first_u16(s@),
{
    let v = chars_of(s);
    first_u16_vec(&v)
}

pub fn first_u16_vec(v: &Vec<char>) -> (r: Option<u16>)
    ensures
        r == first_u16(v@),
{
    let ghost s = v@;
    let mut i: usize = 0;
    let mut start: usize = 0;
    let mut in_run = false;
    while i < v.len()
        invariant
            v@ == s,
            i <= v@.len(),
            in_run ==> start < i,
            in_run ==> forall|k: int| start <= k < i ==> is_digit(#[trigger] v@[k]),
            first_u16_scan(v@, i as int, if in_run { start as int } else { -1 }) == first_u16(v@),
        decreases v.len() - i,
    {
        if is_digit_exec(v[i]) {
            if !in_run {
                start = i;
                in_run = true;
            }
        } else {
            if in_run {
                proof {
                    let d = v@.subrange(start as int, i as int);
                    assert forall|k: int| 0 <= k < d.len() implies is_digit(#[trigger] d[k]) by {
                        assert(d[k] == v@[k + start]);
                    }
                }
                let parsed = parse_digits_u16(&v, start, i);
                if parsed.is_some() {
                    return parsed;
                }
                in_run = false;
            }
        }
        i = i + 1;
    }
    if in_run {
        proof {
            let d = v@.subrange(start as int, v@.len() as int);
            assert forall|k: int| 0 <= k < d.len() implies is_digit(#[trigger] d[k]) by {
                assert(d[k] == v@[k + start]);
            }
        }
        parse_digits_u16(&v, start, v.len())
    } else {
        None
    }
}

/// Removes ANSI control sequences: `ESC [` and everything up to and
/// including the next ASCII letter (or the rest of the text). `in_csi`
/// tells whether index `i` is inside such a sequence.
pub open spec fn strip_ansi_from(s: Seq<char>, i: int, in_csi: bool) -> Seq<char>
    decreases s.len() - i,
{
    if i >= s.len() {
        seq![]
    } else if in_csi {
        strip_ansi_from(s, i + 1, !is_alpha(s[i]))
    } else if s[i] == '\u{1b}' && i + 1 < s.len() && s[i + 1] == '[' {
        strip_ansi_from(s, i + 2, true)
    } else {
        seq![s[i]] + strip_ansi_from(s, i + 1, false)
    }
}

pub open spec fn strip_ansi(s: Seq<char>) -> Seq<char> {
    strip_ansi_from(s, 0, false)
}

pub fn strip_ansi_codes(value: &str) -> (r: String)
    ensures
        r@ == strip_ansi(value@),
{
    let v = chars_of(value);
    strip_ansi_vec(&v)
}

pub fn strip_ansi_vec(v: &Vec<char>) -> (r: String)
    ensures
        r@ == strip_ansi(v@),
{
    let ghost value = v@;
    let mut out = String::new();
    let mut i: usize = 0;
    let mut in_csi = false;
    while i < v.len()
        invariant
            v@ == value,
            i <= v@.len(),
            out@ + strip_ansi_from(v@, i as int, in_csi) == strip_ansi(v@),
        decreases v.len() - i,
    {
        let c = v[i];
        if in_csi {
            in_csi = !is_alpha_exec(c);
            i = i + 1;
        } else if c == '\u{1b}' && i + 1 < v.len() && v[i + 1] == '[' {
            in_csi = true;
            i = i + 2;
        } else {
            let ghost o0 = out@;
            push_char(&mut out, c);
            assert(out@ + strip_ansi_from(v@, i + 1, false) =~= o0 + (seq![c] + strip_ansi_from(
                v@,
                i + 1,
                false,
            )));
            i = i + 1;
        }
    }
    assert(out@ + strip_ansi_from(v@, i as int, in_csi) =~= out@);
    out
}

/// Keeps ASCII letters, digits, `.`, `_` and `-`, and puts `_` for every
/// other character.
pub open spec fn name_char(c: char) -> char {
    if is_alnum(c) || c == '.' || c == '_' || c == '-' {
        c
    } else {
        '_'
    }
}

pub open spec fn name_chars(s: Seq<char>) -> Seq<char> {
    s.map_values(|c: char| name_char(c))
}

pub fn name_chars_exec(s: &str) -> (r: Vec<char>)
    ensures
        r@ == name_chars(s@),
{
    let v = chars_of(s);
    let mut r: Vec<char> = Vec::new();
    let mut i: usize = 0;
    while i < v.len()
        invariant
            v@ == s@,
            i <= v@.len(),
            r@ == name_chars(v@.subrange(0, i as int)),
        decreases v.len() - i,
    {
        let c = v[i];
        let m = if is_alnum_exec(c) || c == '.' || c == '_' || c == '-' {
            c
        } else {
            '_'
        };
        r.push(m);
        i = i + 1;
        assert(name_chars(v@.subrange(0, i as int)) =~= name_chars(v@.subrange(0, i - 1)).push(m));
    }
    assert(v@.subrange(0, v@.len() as int) =~= v@);
    r
}

/// A string of `v` with the characters of `set` stripped from both ends.
pub fn strip_vec(v: &Vec<char>, set: CharSet) -> (r: String)
    ensures
        r@ == strip(v@, set_pred(set)),
{
    let (lo, hi) = strip_bounds(v, set);
    string_of_range(v, lo, hi)
}


// ---------------------------------------------------------------------
// Escaping
// ---------------------------------------------------------------------

/// The ways the library escapes text for a shell, an SFTP batch file, SQL
/// or CSV.
#[derive(Clone, Copy, PartialEq, Eq, Structural)]
pub enum Escape {
    /// Inside a shell `case` pattern: `\`, `*`, `?`, `[` and `]` get a
    /// backslash; NUL characters are dropped.
    CasePattern,
    /// Inside double quotes: `\` and `"` get a backslash.
    DoubleQuoted,
    /// Inside shell single quotes: `'` becomes `'\''`.
    SingleQuoted,
    /// Inside SQL single quotes: `'` is doubled.
    SqlQuoted,
    /// Inside CSV double quotes: `"` is doubled.
    CsvQuoted,
}

pub open spec fn escape_char(mode: Escape, c: char) -> Seq<char> {
    match mode {
        Escape::CasePattern => if c == '\\' || c == '*' || c == '?' || c == '[' || c == ']' {
            seq!['\\', c]
        } else if c == '\0' {
            seq![]
        } else {
            seq![c]
        },
        Escape::DoubleQuoted => if c == '\\' || c == '"' {
            seq!['\\', c]
        } else {
            seq![c]
        },
        Escape::SingleQuoted => if c == '\'' {
            seq!['\'', '\\', '\'', '\'']
        } else {
            seq![c]
        },
        Escape::SqlQuoted => if c == '\'' {
            seq!['\'', '\'']
        } else {
            seq![c]
        },
        Escape::CsvQuoted => if c == '"' {
            seq!['"', '"']
        } else {
            seq![c]
        },
    }
}

/// Every character of `s` escaped in turn.
pub open spec fn escape(mode: Escape, s: Seq<char>) -> Seq<char>
    decreases s.len(),
{
    if s.len() == 0 {
        seq![]
    } else {
        escape(mode, s.drop_last()) + escape_char(mode, s.last())
    }
}

pub fn push_escaped_char(out: &mut String, mode: Escape, c: char)
    ensures
        final(out)@ == old(out)@ + escape_char(mode, c),
{
    let ghost o = out@;
    match mode {
        Escape::CasePattern => {
            if c == '\\' || c == '*' || c == '?' || c == '[' || c == ']' {
                push_char(out, '\\');
                push_char(out, c);
                assert(out@ =~= o + seq!['\\', c]);
            } else if c == '\0' {
                assert(out@ =~= o + Seq::<char>::empty());
            } else {
                push_char(out, c);
                assert(out@ =~= o + seq![c]);
            }
        },
        Escape::DoubleQuoted => {
            if c == '\\' || c == '"' {
                push_char(out, '\\');
                push_char(out, c);
                assert(out@ =~= o + seq!['\\', c]);
            } else {
                push_char(out, c);
                assert(out@ =~= o + seq![c]);
            }
        },
        Escape::SingleQuoted => {
            if c == '\'' {
                push_char(out, '\'');
                push_char(out, '\\');
                push_char(out, '\'');
                push_char(out, '\'');
                assert(out@ =~= o + seq!['\'', '\\', '\'', '\'']);
            } else {
                push_char(out, c);
                assert(out@ =~= o + seq![c]);
            }
        },
        Escape::SqlQuoted => {
            if c == '\'' {
                push_char(out, '\'');
                push_char(out, '\'');
                assert(out@ =~= o + seq!['\'', '\'']);
            } else {
                push_char(out, c);
                assert(out@ =~= o + seq![c]);
            }
        },
        Escape::CsvQuoted => {
            if c == '"' {
                push_char(out, '"');
                push_char(out, '"');
                assert(out@ =~= o + seq!['"', '"']);
            } else {
                push_char(out, c);
                assert(out@ =~= o + seq![c]);
            }
        },
    }
}

/// Appends `s`, escaped, to `out`.
pub fn push_escaped(out: &mut String, mode: Escape, s: &str)
    ensures
        final(out)@ == old(out)@ + escape(mode, s@),
{
    let v = chars_of(s);
    let mut i: usize = 0;
    while i < v.len()
        invariant
            v@ == s@,
            i <= v@.len(),
            out@ == old(out)@ + escape(mode, v@.subrange(0, i as int)),
        decreases v.len() - i,
    {
        let ghost o = out@;
        push_escaped_char(out, mode, v[i]);
        i = i + 1;
        let ghost pre = v@.subrange(0, i as int);
        assert(pre.drop_last() =~= v@.subrange(0, i - 1));
        assert(out@ =~= old(out)@ + escape(mode, pre));
    }
    assert(v@.subrange(0, v@.len() as int) =~= v@);
}

/// `value` in shell single quotes, safe to paste into a shell command.
pub open spec fn single_quoted(value: Seq<char>) -> Seq<char> {
    seq!['\''] + escape(Escape::SingleQuoted, value) + seq!['\'']
}

pub fn shell_single_quote(value: &str) -> (r: String)
    ensures
        r@ == single_quoted(value@),
{
    let mut r = String::new();
    push_char(&mut r, '\'');
    push_escaped(&mut r, Escape::SingleQuoted, value);
    push_char(&mut r, '\'');
    assert(r@ =~= single_quoted(value@));
    r
}

/// `path` in double quotes, as an SFTP batch file takes a path.
pub open spec fn sftp_quoted(path: Seq<char>) -> Seq<char> {
    seq!['"'] + escape(Escape::DoubleQuoted, path) + seq!['"']
}

pub fn sftp_quote(path: &str) -> (r: String)
    ensures
        r@ == sftp_quoted(path@),
{
    let mut r = String::new();
    push_char(&mut r, '"');
    push_escaped(&mut r, Escape::DoubleQuoted, path);
    push_char(&mut r, '"');
    assert(r@ =~= sftp_quoted(path@));
    r
}

/// `value` escaped for a shell `case` pattern.
pub fn shell_case_pattern(value: &str) -> (r: String)
    ensures
        r@ == escape(Escape::CasePattern, value@),
{
    let mut r = String::new();
    push_escaped(&mut r, Escape::CasePattern, value);
    assert(r@ =~= escape(Escape::CasePattern, value@));
    r
}


/// `u64::from_str`: an optional `+`, then one or more decimal digits whose
/// value fits.
pub open spec fn parse_u64_spec(s: Seq<char>) -> Option<u64> {
    let d = if s.len() > 0 && s[0] == '+' {
        s.drop_first()
    } else {
        s
    };
    if d.len() > 0 && all_digits(d) && digits_value(d) <= u64::MAX {
        Some(digits_value(d) as u64)
    } else {
        None
    }
}

pub fn parse_u64_str(s: &str) -> (r: Option<u64>)
    ensures
        r == parse_u64_spec(s@),
{
    let v = chars_of(s);
    let from: usize = if v.len() > 0 && v[0] == '+' {
        1
    } else {
        0
    };
    let ghost d = v@.subrange(from as int, v@.len() as int);
    proof {
        if from == 1 {
            assert(d =~= s@.drop_first());
        } else {
            assert(d =~= s@);
        }
    }
    if from >= v.len() {
        return None;
    }
    let mut acc: u128 = 0;
    let mut i = from;
    while i < v.len()
        invariant
            v@ == s@,
            d == v@.subrange(from as int, v@.len() as int),
            d == (if from == 1 { s@.drop_first() } else { s@ }),
            from == (if v@.len() > 0 && v@[0] == '+' { 1int } else { 0int }),
            from < v@.len(),
            from <= i <= v@.len(),
            forall|k: int| from <= k < i ==> is_digit(#[trigger] v@[k]),
            acc as int == if digits_value(v@.subrange(from as int, i as int)) <= u64::MAX {
                digits_value(v@.subrange(from as int, i as int)) as int
            } else {
                u64::MAX + 1
            },
        decreases v.len() - i,
    {
        let c = v[i];
        if !is_digit_exec(c) {
            assert(d[i - from] == c);
            return None;
        }
        let dgt: u128 = (c as u32 - 48) as u128;
        let next: u128 = acc * 10 + dgt;
        acc = if next > 18446744073709551616u128 {
            18446744073709551616u128
        } else {
            next
        };
        i = i + 1;
        assert(v@.subrange(from as int, i as int).drop_last() =~= v@.subrange(from as int, i - 1));
    }
    assert(all_digits(d)) by {
        assert forall|k: int| 0 <= k < d.len() implies is_digit(#[trigger] d[k]) by {
            assert(d[k] == v@[k + from]);
        }
    }
    if acc <= 18446744073709551615u128 {
        Some(acc as u64)
    } else {
        None
    }
}


/// The decimal representation of a signed integer.
pub open spec fn int_decimal(n: int) -> Seq<char> {
    if n < 0 {
        seq!['-'] + decimal((-n) as nat)
    } else {
        decimal(n as nat)
    }
}

pub fn push_decimal_i64(out: &mut String, n: i64)
    ensures
        final(out)@ == old(out)@ + int_decimal(n as int),
{
    if n < 0 {
        push_char(out, '-');
        let m: u64 = if n == i64::MIN {
            9223372036854775808u64
        } else {
            (-n) as u64
        };
        let ghost o = out@;
        push_decimal(out, m);
        assert(final(out)@ =~= old(out)@ + int_decimal(n as int));
    } else {
        push_decimal(out, n as u64);
    }
}

/// `bool`'s `Display`.
pub open spec fn bool_text(b: bool) -> Seq<char> {
    if b {
        "true"@
    } else {
        "false"@
    }
}

pub fn push_bool(out: &mut String, b: bool)
    ensures
        final(out)@ == old(out)@ + bool_text(b),
{
    if b {
        push_str(out, "true");
    } else {
        push_str(out, "false");
    }
}


/// The parts with `sep` between each two, as `[..].join(sep)` writes them.
pub open spec fn join(parts: Seq<Seq<char>>, sep: Seq<char>) -> Seq<char>
    decreases parts.len(),
{
    if parts.len() == 0 {
        seq![]
    } else if parts.len() == 1 {
        parts[0]
    } else {
        join(parts.drop_last(), sep) + sep + parts.last()
    }
}

pub open spec fn string_views(v: Seq<String>) -> Seq<Seq<char>> {
    v.map_values(|x: String| x@)
}

pub fn join_strings(parts: &Vec<String>, sep: &str) -> (r: String)
    ensures
        r@ == join(string_views(parts@), sep@),
{
    let mut r = String::new();
    let mut i: usize = 0;
    while i < parts.len()
        invariant
            i <= parts@.len(),
            r@ == join(string_views(parts@.subrange(0, i as int)), sep@),
        decreases parts.len() - i,
    {
        let ghost pre = string_views(parts@.subrange(0, i as int));
        if i > 0 {
            push_str(&mut r, sep);
        }
        push_str(&mut r, parts[i].as_str());
        i = i + 1;
        let ghost now = string_views(parts@.subrange(0, i as int));
        assert(now.drop_last() =~= pre);
        assert(now.last() == parts@[i - 1]@);
        if i == 1 {
            assert(r@ =~= now[0]);
        }
    }
    assert(parts@.subrange(0, parts@.len() as int) =~= parts@);
    r
}


/// `i64::from_str`: an optional sign, then one or more decimal digits whose
/// value fits.
pub open spec fn parse_i64_spec(s: Seq<char>) -> Option<i64> {
    if s.len() > 0 && s[0] == '-' {
        let d = s.drop_first();
        if d.len() > 0 && all_digits(d) && digits_value(d) <= 9223372036854775808 {
            Some((0 - digits_value(d)) as i64)
        } else {
            None
        }
    } else {
        let d = if s.len() > 0 && s[0] == '+' {
            s.drop_first()
        } else {
            s
        };
        if d.len() > 0 && all_digits(d) && digits_value(d) <= i64::MAX {
            Some(digits_value(d) as i64)
        } else {
            None
        }
    }
}

pub fn parse_i64_str(s: &str) -> (r: Option<i64>)
    ensures
        r == parse_i64_spec(s@),
{
    let v = chars_of(s);
    if v.len() > 0 && v[0] == '-' {
        let rest = string_of_range(&v, 1, v.len());
        assert(rest@ =~= s@.drop_first());
        let rv = chars_of(rest.as_str());
        if rv.len() > 0 && rv[0] == '+' {
            assert(!is_digit(rest@[0]));
            return None;
        }
        match parse_u64_str(rest.as_str()) {
            Some(n) => {
                if n <= 9223372036854775808u64 {
                    if n == 9223372036854775808u64 {
                        Some(i64::MIN)
                    } else {
                        let m: i64 = n as i64;
                        Some(-m)
                    }
                } else {
                    None
                }
            },
            None => None,
        }
    } else {
        match parse_u64_str(s) {
            Some(n) => {
                if n <= 9223372036854775807u64 {
                    Some(n as i64)
                } else {
                    None
                }
            },
            None => None,
        }
    }
}


/// `str::split(sep)` from index `i` on, with `cur` the part of the current
/// piece already read.
pub open spec fn split_from(s: Seq<char>, sep: char, i: int, cur: Seq<char>) -> Seq<Seq<char>>
    decreases s.len() - i,
{
    if i >= s.len() {
        seq![cur]
    } else if s[i] == sep {
        seq![cur] + split_from(s, sep, i + 1, seq![])
    } else {
        split_from(s, sep, i + 1, cur.push(s[i]))
    }
}

/// `str::split(sep)`: the pieces between the separators, empty ones too.
pub open spec fn split_on(s: Seq<char>, sep: char) -> Seq<Seq<char>> {
    split_from(s, sep, 0, seq![])
}

pub fn split_on_char(v: &Vec<char>, from: usize, sep: char) -> (r: Vec<Vec<char>>)
    requires
        from <= v@.len(),
    ensures
        views(r@) == split_on(v@.skip(from as int), sep),
{
    let ghost s = v@.skip(from as int);
    let mut out: Vec<Vec<char>> = Vec::new();
    let mut cur: Vec<char> = Vec::new();
    let mut i: usize = from;
    while i < v.len()
        invariant
            s == v@.skip(from as int),
            from <= i <= v@.len(),
            views(out@) + split_from(s, sep, i - from, cur@) == split_on(s, sep),
        decreases v.len() - i,
    {
        let c = v[i];
        assert(s[i - from] == c);
        if c == sep {
            let ghost out0 = out@;
            let ghost cur0 = cur@;
            out.push(cur);
            assert(views(out@) =~= views(out0).push(cur0));
            cur = Vec::new();
            assert(views(out@) + split_from(s, sep, i + 1 - from, cur@) =~= views(out0) + split_from(
                s,
                sep,
                i - from,
                cur0,
            ));
        } else {
            cur.push(c);
        }
        i = i + 1;
    }
    let ghost cv = cur@;
    let ghost before = views(out@);
    out.push(cur);
    assert(views(out@) =~= before.push(cv));
    assert(views(out@) =~= before + seq![cv]);
    out
}

/// `str::trim_end_matches(pat)`: every trailing `pat` removed.
pub open spec fn strip_suffixes(s: Seq<char>, pat: Seq<char>) -> Seq<char>
    decreases s.len(),
{
    if pat.len() > 0 && s.len() >= pat.len() && s.subrange(s.len() - pat.len(), s.len() as int) == pat {
        strip_suffixes(s.subrange(0, s.len() - pat.len()), pat)
    } else {
        s
    }
}

pub fn trim_end_matches_str(s: &str, pat: &str) -> (r: String)
    ensures
        r@ == strip_suffixes(s@, pat@),
{
    let v = chars_of(s);
    let p = chars_of(pat);
    if p.len() == 0 {
        return copy_str(s);
    }
    let mut end = v.len();
    assert(v@.subrange(0, end as int) =~= s@);
    loop
        invariant
            v@ == s@,
            p@ == pat@,
            p@.len() > 0,
            end <= v@.len(),
            strip_suffixes(s@, pat@) == strip_suffixes(v@.subrange(0, end as int), pat@),
        ensures
            end <= v@.len(),
            strip_suffixes(s@, pat@) == v@.subrange(0, end as int),
        decreases end,
    {
        let ghost w = v@.subrange(0, end as int);
        if end < p.len() {
            break;
        }
        let start = end - p.len();
        let mut k: usize = 0;
        let mut same = true;
        while k < p.len()
            invariant
                start + p@.len() == end,
                end <= v@.len(),
                k <= p@.len(),
                same == forall|j: int| 0 <= j < k ==> v@[start + j] == p@[j],
            decreases p.len() - k,
        {
            if v[start + k] != p[k] {
                same = false;
            }
            k = k + 1;
        }
        if same {
            assert(w.subrange(w.len() - p@.len(), w.len() as int) =~= p@);
            assert(w.subrange(0, w.len() - p@.len()) =~= v@.subrange(0, start as int));
            end = start;
        } else {
            assert(w.subrange(w.len() - p@.len(), w.len() as int) != p@) by {
                let j = choose|j: int| 0 <= j < p@.len() && v@[start + j] != p@[j];
                assert(w.subrange(w.len() - p@.len(), w.len() as int)[j] == v@[start + j]);
            }
            break;
        }
    }
    string_of_range(&v, 0, end)
}

} // verus!
