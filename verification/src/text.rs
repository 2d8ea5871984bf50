//! Character-level text model shared by the markdown and file-name logic.
//!
//! Every string is modelled by its sequence of `char`s (`str@`), and every
//! operation the library performs on text is stated here as a spec function
//! over `Seq<char>` together with an executable version over `Vec<char>`.

use vstd::prelude::*;

verus! {

broadcast use vstd::string::axiom_spec_iter;

// ---------------------------------------------------------------------------
// Conversions between string slices and character vectors
// ---------------------------------------------------------------------------

/// The characters of a string slice, in order.
pub fn chars_of(s: &str) -> (r: Vec<char>)
    ensures
        r@ == s@,
{
    let mut r: Vec<char> = Vec::new();
    for c in it: s.chars()
        invariant
            it.seq() == s@,
            r@ == it.seq().take(it.index() as int),
    {
        r.push(c);
    }
    r
}

/// A string made of the given characters, in order: std's `Iterator::collect`
/// into `String`, whose documentation says it appends each character in turn.
#[verifier::external_body]
pub(crate) fn string_of(v: &[char]) -> (r: String)
    ensures
        r@ == v@,
{
    v.iter().collect()
}

/// `true` iff the two strings hold the same characters.
pub fn str_eq(a: &str, b: &str) -> (r: bool)
    ensures
        r == (a@ == b@),
{
    let av = chars_of(a);
    let bv = chars_of(b);
    vec_eq(&av, &bv)
}

/// `true` iff the two character vectors are equal.
pub fn vec_eq(a: &Vec<char>, b: &Vec<char>) -> (r: bool)
    ensures
        r == (a@ == b@),
{
    if a.len() != b.len() {
        return false;
    }
    let mut i: usize = 0;
    while i < a.len()
        invariant
            a.len() == b.len(),
            i <= a.len(),
            forall|j: int| 0 <= j < i ==> a@[j] == b@[j],
        decreases a.len() - i,
    {
        if a[i] != b[i] {
            return false;
        }
        i = i + 1;
    }
    assert(a@ =~= b@);
    true
}

// ---------------------------------------------------------------------------
// Whitespace and trimming
// ---------------------------------------------------------------------------

/// Unicode `White_Space` (the set std's `char::is_whitespace` tests).
pub open spec fn is_ws(c: char) -> bool {
    let n = c as u32;
    (0x09 <= n && n <= 0x0d) || n == 0x20 || n == 0x85 || n == 0xa0 || n == 0x1680 || (0x2000
        <= n && n <= 0x200a) || n == 0x2028 || n == 0x2029 || n == 0x202f || n == 0x205f || n
        == 0x3000
}

/// Executable `is_ws`.
pub fn is_ws_char(c: char) -> (r: bool)
    ensures
        r == is_ws(c),
{
    let n = c as u32;
    (0x09 <= n && n <= 0x0d) || n == 0x20 || n == 0x85 || n == 0xa0 || n == 0x1680 || (0x2000
        <= n && n <= 0x200a) || n == 0x2028 || n == 0x2029 || n == 0x202f || n == 0x205f || n
        == 0x3000
}

/// `s` without its leading whitespace.
pub open spec fn trim_start(s: Seq<char>) -> Seq<char>
    decreases s.len(),
{
    if s.len() > 0 && is_ws(s[0]) {
        trim_start(s.drop_first())
    } else {
        s
    }
}

/// `s` without its trailing whitespace.
pub open spec fn trim_end(s: Seq<char>) -> Seq<char>
    decreases s.len(),
{
    if s.len() > 0 && is_ws(s.last()) {
        trim_end(s.drop_last())
    } else {
        s
    }
}

/// `s` without leading and trailing whitespace.
pub open spec fn trim(s: Seq<char>) -> Seq<char> {
    trim_end(trim_start(s))
}

/// `s` without its leading `c` characters.
pub open spec fn trim_start_char(s: Seq<char>, c: char) -> Seq<char>
    decreases s.len(),
{
    if s.len() > 0 && s[0] == c {
        trim_start_char(s.drop_first(), c)
    } else {
        s
    }
}

/// `s` without its trailing `c` characters.
pub open spec fn trim_end_char(s: Seq<char>, c: char) -> Seq<char>
    decreases s.len(),
{
    if s.len() > 0 && s.last() == c {
        trim_end_char(s.drop_last(), c)
    } else {
        s
    }
}

/// The suffix of `s` from `i` has the same leading-whitespace trim as the one
/// from `i + 1` when `s[i]` is whitespace.
proof fn lemma_trim_start_step(s: Seq<char>, i: int)
    requires
        0 <= i < s.len(),
        is_ws(s[i]),
    ensures
        trim_start(s.skip(i)) == trim_start(s.skip(i + 1)),
{
    assert(s.skip(i).drop_first() =~= s.skip(i + 1));
}

proof fn lemma_trim_end_step(s: Seq<char>, j: int)
    requires
        0 < j <= s.len(),
        is_ws(s[j - 1]),
    ensures
        trim_end(s.take(j)) == trim_end(s.take(j - 1)),
{
    assert(s.take(j).drop_last() =~= s.take(j - 1));
}

/// Index of the first non-whitespace character of `s` (or its length).
pub fn trim_start_index(s: &Vec<char>) -> (r: usize)
    ensures
        r <= s.len(),
        s@.skip(r as int) == trim_start(s@),
{
    let mut i: usize = 0;
    assert(s@.skip(0) =~= s@);
    while i < s.len() && is_ws_char(s[i])
        invariant
            i <= s.len(),
            trim_start(s@.skip(i as int)) == trim_start(s@),
        decreases s.len() - i,
    {
        proof {
            lemma_trim_start_step(s@, i as int);
        }
        i = i + 1;
    }
    i
}

/// One past the index of the last non-whitespace character of `s[..end]`.
pub fn trim_end_index(s: &Vec<char>, end: usize) -> (r: usize)
    requires
        end <= s.len(),
    ensures
        r <= end,
        s@.take(r as int) == trim_end(s@.take(end as int)),
{
    let mut j: usize = end;
    while j > 0 && is_ws_char(s[j - 1])
        invariant
            j <= end <= s.len(),
            trim_end(s@.take(j as int)) == trim_end(s@.take(end as int)),
        decreases j,
    {
        proof {
            lemma_trim_end_step(s@, j as int);
        }
        j = j - 1;
    }
    j
}

/// Bounds `(a, b)` such that `s[a..b]` is `s` trimmed on both sides.
pub fn trim_bounds(s: &Vec<char>) -> (r: (usize, usize))
    ensures
        r.0 <= r.1 <= s.len(),
        s@.subrange(r.0 as int, r.1 as int) == trim(s@),
{
    let a = trim_start_index(s);
    let t = subvec(s, a, s.len());
    let b = trim_end_index(&t, t.len());
    assert(t@.take(t@.len() as int) =~= t@);
    assert(t@.take(b as int) =~= s@.subrange(a as int, a + b));
    (a, a + b)
}

/// `s` trimmed on both sides.
pub fn trim_vec(s: &Vec<char>) -> (r: Vec<char>)
    ensures
        r@ == trim(s@),
{
    let (a, b) = trim_bounds(s);
    subvec(s, a, b)
}

/// `s` trimmed at its end.
pub fn trim_end_vec(s: &Vec<char>) -> (r: Vec<char>)
    ensures
        r@ == trim_end(s@),
{
    let b = trim_end_index(s, s.len());
    assert(s@.take(s@.len() as int) =~= s@);
    subvec(s, 0, b)
}

/// `s` trimmed at its start.
pub fn trim_start_vec(s: &Vec<char>) -> (r: Vec<char>)
    ensures
        r@ == trim_start(s@),
{
    let a = trim_start_index(s);
    subvec(s, a, s.len())
}

/// `s` without its leading `c` characters.
pub fn trim_start_char_vec(s: &Vec<char>, c: char) -> (r: Vec<char>)
    ensures
        r@ == trim_start_char(s@, c),
{
    let mut i: usize = 0;
    assert(s@.skip(0) =~= s@);
    while i < s.len() && s[i] == c
        invariant
            i <= s.len(),
            trim_start_char(s@.skip(i as int), c) == trim_start_char(s@, c),
        decreases s.len() - i,
    {
        assert(s@.skip(i as int).drop_first() =~= s@.skip(i + 1));
        i = i + 1;
    }
    subvec(s, i, s.len())
}

/// `s` without its trailing `c` characters.
pub fn trim_end_char_vec(s: &Vec<char>, c: char) -> (r: Vec<char>)
    ensures
        r@ == trim_end_char(s@, c),
{
    let mut j: usize = s.len();
    assert(s@.take(s@.len() as int) =~= s@);
    while j > 0 && s[j - 1] == c
        invariant
            j <= s.len(),
            trim_end_char(s@.take(j as int), c) == trim_end_char(s@, c),
        decreases j,
    {
        assert(s@.take(j as int).drop_last() =~= s@.take(j - 1));
        j = j - 1;
    }
    subvec(s, 0, j)
}

// ---------------------------------------------------------------------------
// Slicing and appending
// ---------------------------------------------------------------------------

/// The characters `s[a..b]`.
pub fn subvec(s: &Vec<char>, a: usize, b: usize) -> (r: Vec<char>)
    requires
        a <= b <= s.len(),
    ensures
        r@ == s@.subrange(a as int, b as int),
{
    let mut r: Vec<char> = Vec::new();
    let mut i: usize = a;
    while i < b
        invariant
            a <= i <= b <= s.len(),
            r@ == s@.subrange(a as int, i as int),
        decreases b - i,
    {
        r.push(s[i]);
        i = i + 1;
        assert(r@ =~= s@.subrange(a as int, i as int));
    }
    r
}

/// A copy of `s`.
pub fn copy_vec(s: &Vec<char>) -> (r: Vec<char>)
    ensures
        r@ == s@,
{
    let r = subvec(s, 0, s.len());
    assert(s@.subrange(0, s@.len() as int) =~= s@);
    r
}

/// Appends the characters of `t` to `v`.
pub fn append(v: &mut Vec<char>, t: &Vec<char>)
    ensures
        final(v)@ == old(v)@ + t@,
{
    let mut i: usize = 0;
    let ghost v0 = v@;
    while i < t.len()
        invariant
            i <= t.len(),
            v@ == v0 + t@.take(i as int),
        decreases t.len() - i,
    {
        v.push(t[i]);
        i = i + 1;
        assert(v@ =~= v0 + t@.take(i as int));
    }
    assert(t@.take(t@.len() as int) =~= t@);
}

/// Appends the characters of `t` to `v`.
pub fn append_str(v: &mut Vec<char>, t: &str)
    ensures
        final(v)@ == old(v)@ + t@,
{
    let tv = chars_of(t);
    append(v, &tv);
}

// ---------------------------------------------------------------------------
// Prefixes, suffixes and searching
// ---------------------------------------------------------------------------

/// `p` occurs in `s` at index `i`.
pub open spec fn match_at(s: Seq<char>, p: Seq<char>, i: int) -> bool {
    0 <= i && i + p.len() <= s.len() && s.subrange(i, i + p.len()) == p
}

/// `s` starts with `p`.
pub open spec fn starts_with(s: Seq<char>, p: Seq<char>) -> bool {
    match_at(s, p, 0)
}

/// `s` ends with `p`.
pub open spec fn ends_with(s: Seq<char>, p: Seq<char>) -> bool {
    p.len() <= s.len() && match_at(s, p, s.len() - p.len())
}

/// `s` holds `p` somewhere.
pub open spec fn contains(s: Seq<char>, p: Seq<char>) -> bool {
    exists|i: int| match_at(s, p, i)
}

/// The first index `>= i` at which `p` occurs in `s`.
pub open spec fn find_from(s: Seq<char>, p: Seq<char>, i: int) -> Option<int>
    decreases s.len() + 1 - i,
{
    if i + p.len() > s.len() {
        None
    } else if match_at(s, p, i) {
        Some(i)
    } else {
        find_from(s, p, i + 1)
    }
}

/// The first index at which `p` occurs in `s`.
pub open spec fn find(s: Seq<char>, p: Seq<char>) -> Option<int> {
    find_from(s, p, 0)
}

/// What `find_from` returns: the least match at or after `i`.
pub proof fn lemma_find_from(s: Seq<char>, p: Seq<char>, i: int)
    requires
        0 <= i,
    ensures
        find_from(s, p, i) matches Some(k) ==> i <= k && match_at(s, p, k) && forall|j: int|
            i <= j < k ==> !match_at(s, p, j),
        find_from(s, p, i) is None ==> forall|j: int| i <= j ==> !match_at(s, p, j),
    decreases s.len() + 1 - i,
{
    if i + p.len() > s.len() {
    } else if match_at(s, p, i) {
    } else {
        lemma_find_from(s, p, i + 1);
    }
}

/// The first match at or after `i` is at `k` when `p` occurs at `k` and
/// nowhere in between.
pub proof fn lemma_find_at(s: Seq<char>, p: Seq<char>, i: int, k: int)
    requires
        0 <= i <= k,
        match_at(s, p, k),
        forall|j: int| i <= j < k ==> !match_at(s, p, j),
    ensures
        find_from(s, p, i) == Some(k),
    decreases k - i,
{
    if i < k {
        lemma_find_at(s, p, i + 1, k);
    }
}

/// `p` occurs in `s` at `i`.
pub fn match_at_exec(s: &Vec<char>, p: &Vec<char>, i: usize) -> (r: bool)
    ensures
        r == match_at(s@, p@, i as int),
{
    if i > s.len() || p.len() > s.len() - i {
        return false;
    }
    let mut j: usize = 0;
    while j < p.len()
        invariant
            i + p.len() <= s.len(),
            j <= p.len(),
            forall|k: int| 0 <= k < j ==> s@[i + k] == p@[k],
        decreases p.len() - j,
    {
        if s[i + j] != p[j] {
            assert(s@.subrange(i as int, i + p.len())[j as int] != p@[j as int]);
            return false;
        }
        j = j + 1;
    }
    assert(s@.subrange(i as int, i + p.len()) =~= p@);
    true
}

/// `s` starts with `p`.
pub fn starts_with_exec(s: &Vec<char>, p: &Vec<char>) -> (r: bool)
    ensures
        r == starts_with(s@, p@),
{
    match_at_exec(s, p, 0)
}

/// `s` ends with `p`.
pub fn ends_with_exec(s: &Vec<char>, p: &Vec<char>) -> (r: bool)
    ensures
        r == ends_with(s@, p@),
{
    if p.len() > s.len() {
        false
    } else {
        match_at_exec(s, p, s.len() - p.len())
    }
}

/// The first index `>= i` at which `p` occurs in `s`.
pub fn find_from_exec(s: &Vec<char>, p: &Vec<char>, i: usize) -> (r: Option<usize>)
    ensures
        r matches Some(k) ==> find_from(s@, p@, i as int) == Some(k as int),
        r is None ==> find_from(s@, p@, i as int) is None,
{
    let mut j: usize = i;
    while j <= s.len() && p.len() <= s.len() - j
        invariant
            i <= j,
            find_from(s@, p@, j as int) == find_from(s@, p@, i as int),
        decreases s.len() + 1 - j,
    {
        if match_at_exec(s, p, j) {
            return Some(j);
        }
        if j == s.len() {
            assert(s@.subrange(j as int, j as int) =~= p@);
            return None;
        }
        j = j + 1;
    }
    None
}

/// `s` holds `p` somewhere.
pub fn contains_exec(s: &Vec<char>, p: &Vec<char>) -> (r: bool)
    ensures
        r == contains(s@, p@),
{
    proof {
        lemma_find_from(s@, p@, 0);
    }
    match find_from_exec(s, p, 0) {
        Some(_) => true,
        None => {
            assert forall|j: int| !match_at(s@, p@, j) by {
                if j >= 0 {
                }
            }
            false
        },
    }
}

// ---------------------------------------------------------------------------
// Replacing
// ---------------------------------------------------------------------------

/// `s[i..]` with every non-overlapping occurrence of `p` (scanned left to right)
/// replaced by `r`.  An empty pattern leaves the text unchanged.
pub open spec fn replace_from(s: Seq<char>, p: Seq<char>, r: Seq<char>, i: int) -> Seq<char>
    decreases s.len() + 1 - i,
{
    if i < 0 || i >= s.len() || p.len() == 0 {
        if 0 <= i <= s.len() {
            s.skip(i)
        } else {
            Seq::empty()
        }
    } else if match_at(s, p, i) {
        r + replace_from(s, p, r, i + p.len())
    } else {
        seq![s[i]] + replace_from(s, p, r, i + 1)
    }
}

/// `s` with every non-overlapping occurrence of `p` replaced by `r`.
pub open spec fn replace_all(s: Seq<char>, p: Seq<char>, r: Seq<char>) -> Seq<char> {
    replace_from(s, p, r, 0)
}

/// Executable `replace_all`.
pub fn replace_vec(s: &Vec<char>, p: &Vec<char>, r: &Vec<char>) -> (out: Vec<char>)
    ensures
        out@ == replace_all(s@, p@, r@),
{
    let mut out: Vec<char> = Vec::new();
    if p.len() == 0 {
        assert(s@.skip(0) =~= s@);
        return subvec(s, 0, s.len());
    }
    let mut i: usize = 0;
    while i < s.len()
        invariant
            p.len() > 0,
            i <= s.len(),
            out@ + replace_from(s@, p@, r@, i as int) == replace_all(s@, p@, r@),
        decreases s.len() - i,
    {
        if match_at_exec(s, p, i) {
            let ghost o = out@;
            append(&mut out, r);
            assert(o + replace_from(s@, p@, r@, i as int) =~= out@ + replace_from(
                s@,
                p@,
                r@,
                i + p.len(),
            ));
            i = i + p.len();
        } else {
            let ghost o = out@;
            out.push(s[i]);
            assert(o + replace_from(s@, p@, r@, i as int) =~= out@ + replace_from(
                s@,
                p@,
                r@,
                i + 1,
            ));
            i = i + 1;
        }
    }
    assert(s@.skip(s@.len() as int) =~= Seq::<char>::empty());
    assert(out@ + Seq::<char>::empty() =~= out@);
    out
}

// ---------------------------------------------------------------------------
// Lines and joining
// ---------------------------------------------------------------------------

/// Index of the first `'\n'` at or after `i`, or the length of `s`.
pub open spec fn next_nl(s: Seq<char>, i: int) -> int
    decreases s.len() - i,
{
    if i >= s.len() {
        s.len() as int
    } else if s[i] == '\n' {
        i
    } else {
        next_nl(s, i + 1)
    }
}

pub proof fn lemma_next_nl(s: Seq<char>, i: int)
    requires
        0 <= i,
    ensures
        i <= s.len() ==> i <= next_nl(s, i) <= s.len(),
        i <= s.len() ==> forall|j: int| i <= j < next_nl(s, i) ==> s[j] != '\n',
        next_nl(s, i) < s.len() ==> s[next_nl(s, i)] == '\n',
        i > s.len() ==> next_nl(s, i) == s.len(),
    decreases s.len() - i,
{
    if i < s.len() && s[i] != '\n' {
        lemma_next_nl(s, i + 1);
    }
}

/// A line without the `'\r'` of a `"\r\n"` ending.
pub open spec fn strip_cr(l: Seq<char>) -> Seq<char> {
    if l.len() > 0 && l.last() == '\r' {
        l.drop_last()
    } else {
        l
    }
}

/// The lines of `s[i..]`, as std's `str::lines` yields them: split at `'\n'`,
/// a `'\r'` just before a `'\n'` dropped, and no empty line after a final `'\n'`.
pub open spec fn lines_from(s: Seq<char>, i: int) -> Seq<Seq<char>>
    decreases s.len() - i,
{
    if i < 0 || i >= s.len() {
        Seq::empty()
    } else {
        let k = next_nl(s, i);
        proof {
            lemma_next_nl(s, i);
        }
        if k < s.len() {
            seq![strip_cr(s.subrange(i, k))] + lines_from(s, k + 1)
        } else {
            seq![s.subrange(i, k)]
        }
    }
}

/// The lines of `s`.
pub open spec fn lines(s: Seq<char>) -> Seq<Seq<char>> {
    lines_from(s, 0)
}

/// `parts` joined with `sep` between consecutive parts.
pub open spec fn join(parts: Seq<Seq<char>>, sep: Seq<char>) -> Seq<char>
    decreases parts.len(),
{
    if parts.len() == 0 {
        Seq::empty()
    } else if parts.len() == 1 {
        parts[0]
    } else {
        join(parts.drop_last(), sep) + sep + parts.last()
    }
}

/// Joining two runs of parts puts one separator between their joins.
pub proof fn lemma_join_append(a: Seq<Seq<char>>, b: Seq<Seq<char>>, sep: Seq<char>)
    requires
        a.len() > 0,
        b.len() > 0,
    ensures
        join(a + b, sep) == join(a, sep) + sep + join(b, sep),
    decreases b.len(),
{
    let ab = a + b;
    if b.len() == 1 {
        assert(ab.drop_last() =~= a);
        assert(ab.last() == b[0]);
    } else {
        lemma_join_append(a, b.drop_last(), sep);
        assert(ab.drop_last() =~= a + b.drop_last());
        assert(ab.last() == b.last());
        assert(join(b, sep) == join(b.drop_last(), sep) + sep + b.last());
        assert((join(a, sep) + sep + join(b.drop_last(), sep)) + sep + b.last() =~= join(a, sep)
            + sep + (join(b.drop_last(), sep) + sep + b.last()));
    }
}

/// Joining a first part onto the rest puts one separator between them.
pub proof fn lemma_join_cons(x: Seq<char>, rest: Seq<Seq<char>>, sep: Seq<char>)
    requires
        rest.len() > 0,
    ensures
        join(seq![x] + rest, sep) == x + sep + join(rest, sep),
    decreases rest.len(),
{
    let all = seq![x] + rest;
    if rest.len() == 1 {
        assert(all.drop_last() =~= seq![x]);
        assert(all.last() == rest[0]);
        assert(join(seq![x], sep) == x);
        assert(join(rest, sep) == rest[0]);
    } else {
        lemma_join_cons(x, rest.drop_last(), sep);
        assert(all.drop_last() =~= seq![x] + rest.drop_last());
        assert(all.last() == rest.last());
        assert(join(all, sep) == join(all.drop_last(), sep) + sep + all.last());
        assert(join(rest, sep) == join(rest.drop_last(), sep) + sep + rest.last());
        assert(x + sep + join(rest.drop_last(), sep) + sep + rest.last() =~= x + sep + (join(
            rest.drop_last(),
            sep,
        ) + sep + rest.last()));
    }
}

/// Without carriage returns, joining the lines of `s[i..]` with `'\n'`
/// gives back `s[i..]`, less a final `'\n'`.
pub proof fn lemma_join_lines(s: Seq<char>, i: int)
    requires
        0 <= i < s.len(),
        forall|j: int| 0 <= j < s.len() ==> s[j] != '\r',
    ensures
        lines_from(s, i).len() > 0,
        join(lines_from(s, i), "\n"@) == if s.last() == '\n' {
            s.subrange(i, s.len() - 1)
        } else {
            s.subrange(i, s.len() as int)
        },
    decreases s.len() - i,
{
    reveal_strlit("\n");
    let k = next_nl(s, i);
    lemma_next_nl(s, i);
    if k < s.len() {
        let first = s.subrange(i, k);
        assert(strip_cr(first) == first) by {
            if first.len() > 0 {
                assert(first.last() == s[k - 1]);
            }
        }
        if k + 1 < s.len() {
            lemma_join_lines(s, k + 1);
            lemma_join_cons(first, lines_from(s, k + 1), "\n"@);
            if s.last() == '\n' {
                assert(first + "\n"@ + s.subrange(k + 1, s.len() - 1) =~= s.subrange(
                    i,
                    s.len() - 1,
                ));
            } else {
                assert(first + "\n"@ + s.subrange(k + 1, s.len() as int) =~= s.subrange(
                    i,
                    s.len() as int,
                ));
            }
        } else {
            assert(lines_from(s, k + 1) =~= Seq::<Seq<char>>::empty());
            assert(lines_from(s, i) =~= seq![first]);
        }
    } else {
        assert(lines_from(s, i) =~= seq![s.subrange(i, k)]);
        assert(s.last() == s[s.len() - 1]);
    }
}

/// `next_nl` is the same whatever text precedes.
pub proof fn lemma_next_nl_shift(q: Seq<char>, r: Seq<char>, i: int)
    requires
        0 <= i,
    ensures
        next_nl(q + r, q.len() + i) == q.len() + next_nl(r, i),
    decreases r.len() - i,
{
    if i < r.len() && r[i] != '\n' {
        lemma_next_nl_shift(q, r, i + 1);
    }
    if i < r.len() {
        assert((q + r)[q.len() + i] == r[i]);
    }
}

/// The lines from a position are the same whatever text precedes.
pub proof fn lemma_lines_shift(q: Seq<char>, r: Seq<char>, i: int)
    requires
        0 <= i,
    ensures
        lines_from(q + r, q.len() + i) == lines_from(r, i),
    decreases r.len() - i,
{
    let s = q + r;
    if i < r.len() {
        let k = next_nl(r, i);
        lemma_next_nl(r, i);
        lemma_next_nl_shift(q, r, i);
        assert(s.subrange(q.len() + i, q.len() + k) =~= r.subrange(i, k));
        if k < r.len() {
            lemma_lines_shift(q, r, k + 1);
            assert(q.len() + k + 1 == q.len() + (k + 1));
        }
    }
}

/// No line holds a line break.
pub proof fn lemma_lines_no_nl(s: Seq<char>, i: int)
    requires
        0 <= i,
    ensures
        forall|k: int, j: int|
            0 <= k < lines_from(s, i).len() && 0 <= j < lines_from(s, i)[k].len() ==> lines_from(
                s,
                i,
            )[k][j] != '\n',
    decreases s.len() - i,
{
    if i < s.len() {
        let k = next_nl(s, i);
        lemma_next_nl(s, i);
        let first = s.subrange(i, k);
        if k < s.len() {
            lemma_lines_no_nl(s, k + 1);
            let rest = lines_from(s, k + 1);
            assert forall|a: int, j: int|
                0 <= a < lines_from(s, i).len() && 0 <= j < lines_from(s, i)[a].len() implies
                lines_from(s, i)[a][j] != '\n' by {
                if a == 0 {
                    assert(lines_from(s, i)[0] == strip_cr(first));
                    assert(strip_cr(first)[j] == first[j]);
                    assert(first[j] == s[i + j]);
                } else {
                    assert(lines_from(s, i)[a] == rest[a - 1]);
                }
            }
        } else {
            assert forall|a: int, j: int|
                0 <= a < lines_from(s, i).len() && 0 <= j < lines_from(s, i)[a].len() implies
                lines_from(s, i)[a][j] != '\n' by {
                assert(lines_from(s, i)[a] == first);
                assert(first[j] == s[i + j]);
            }
        }
    }
}

/// Trimming the end keeps everything up to a non-whitespace character.
pub proof fn lemma_trim_end_keeps(x: Seq<char>, j: int)
    requires
        0 <= j < x.len(),
        !is_ws(x[j]),
    ensures
        trim_end(x).len() > j,
        forall|i: int| 0 <= i <= j ==> trim_end(x)[i] == x[i],
    decreases x.len(),
{
    if is_ws(x.last()) {
        assert(j < x.len() - 1);
        lemma_trim_end_keeps(x.drop_last(), j);
        assert forall|i: int| 0 <= i <= j implies trim_end(x)[i] == x[i] by {
            assert(x.drop_last()[i] == x[i]);
        }
    } else {
        assert(trim_end(x) == x);
    }
}

/// Lines of text without carriage returns hold no line break and no
/// carriage return.
pub proof fn lemma_lines_clean(s: Seq<char>, i: int)
    requires
        0 <= i,
        forall|j: int| 0 <= j < s.len() ==> s[j] != '\r',
    ensures
        forall|k: int, j: int|
            0 <= k < lines_from(s, i).len() && 0 <= j < lines_from(s, i)[k].len() ==> lines_from(
                s,
                i,
            )[k][j] != '\n' && lines_from(s, i)[k][j] != '\r',
    decreases s.len() - i,
{
    if i < s.len() {
        let k = next_nl(s, i);
        lemma_next_nl(s, i);
        let first = s.subrange(i, k);
        assert(strip_cr(first) == first) by {
            if first.len() > 0 {
                assert(first.last() == s[k - 1]);
            }
        }
        if k < s.len() {
            lemma_lines_clean(s, k + 1);
            let rest = lines_from(s, k + 1);
            assert forall|a: int, j: int|
                0 <= a < lines_from(s, i).len() && 0 <= j < lines_from(s, i)[a].len() implies
                lines_from(s, i)[a][j] != '\n' && lines_from(s, i)[a][j] != '\r' by {
                if a == 0 {
                    assert(lines_from(s, i)[0] == first);
                    assert(first[j] == s[i + j]);
                } else {
                    assert(lines_from(s, i)[a] == rest[a - 1]);
                }
            }
        } else {
            assert forall|a: int, j: int|
                0 <= a < lines_from(s, i).len() && 0 <= j < lines_from(s, i)[a].len() implies
                lines_from(s, i)[a][j] != '\n' && lines_from(s, i)[a][j] != '\r' by {
                assert(lines_from(s, i)[a] == first);
                assert(first[j] == s[i + j]);
            }
        }
    }
}

/// A line without line break, then `"\n"`, then more: its first line is
/// that line less a final carriage return.
pub proof fn lemma_lines_cons(x: Seq<char>, r: Seq<char>)
    requires
        forall|j: int| 0 <= j < x.len() ==> x[j] != '\n',
    ensures
        lines(x + "\n"@ + r) == seq![strip_cr(x)] + lines(r),
{
    reveal_strlit("\n");
    let s = x + "\n"@ + r;
    let k = next_nl(s, 0);
    lemma_next_nl(s, 0);
    assert(s[x.len() as int] == '\n');
    if k < x.len() {
        assert(s[k] == x[k]);
    }
    assert(k == x.len());
    assert(s.subrange(0, k) =~= x);
    assert(s =~= (x + "\n"@) + r);
    lemma_lines_shift(x + "\n"@, r, 0);
}

/// Lines without line breaks, joined with `"\n"` and ended by one, read
/// back as the same lines less their final carriage returns.
pub proof fn lemma_lines_of_joined_cr(ls: Seq<Seq<char>>)
    requires
        ls.len() > 0,
        forall|k: int, j: int| 0 <= k < ls.len() && 0 <= j < ls[k].len() ==> ls[k][j] != '\n',
    ensures
        lines(join(ls, "\n"@) + "\n"@) == ls.map_values(|l: Seq<char>| strip_cr(l)),
    decreases ls.len(),
{
    reveal_strlit("\n");
    let x = ls[0];
    assert forall|j: int| 0 <= j < x.len() implies x[j] != '\n' by {
        assert(ls[0][j] == x[j]);
    }
    if ls.len() == 1 {
        assert(join(ls, "\n"@) == x);
        lemma_lines_cons(x, Seq::empty());
        assert(x + "\n"@ + Seq::<char>::empty() =~= x + "\n"@);
        assert(lines(Seq::<char>::empty()) =~= Seq::<Seq<char>>::empty());
        assert(seq![strip_cr(x)] + Seq::<Seq<char>>::empty() =~= ls.map_values(
            |l: Seq<char>| strip_cr(l),
        ));
    } else {
        let rest = ls.drop_first();
        assert(ls =~= seq![x] + rest);
        lemma_join_cons(x, rest, "\n"@);
        assert forall|k: int, j: int| 0 <= k < rest.len() && 0 <= j < rest[k].len() implies rest[k][j]
            != '\n' by {
            assert(rest[k] == ls[k + 1]);
        }
        lemma_lines_of_joined_cr(rest);
        lemma_lines_cons(x, join(rest, "\n"@) + "\n"@);
        assert(join(ls, "\n"@) + "\n"@ =~= x + "\n"@ + (join(rest, "\n"@) + "\n"@));
        assert(seq![strip_cr(x)] + rest.map_values(|l: Seq<char>| strip_cr(l)) =~= ls.map_values(
            |l: Seq<char>| strip_cr(l),
        ));
    }
}

/// Lines without line breaks or carriage returns, joined with `"\n"` and
/// ended by one, give back the same lines.
pub proof fn lemma_lines_of_joined(ls: Seq<Seq<char>>)
    requires
        ls.len() > 0,
        forall|k: int, j: int|
            0 <= k < ls.len() && 0 <= j < ls[k].len() ==> ls[k][j] != '\n' && ls[k][j] != '\r',
    ensures
        lines(join(ls, "\n"@) + "\n"@) == ls,
{
    lemma_lines_of_joined_cr(ls);
    assert forall|k: int| 0 <= k < ls.len() implies strip_cr(ls[k]) == ls[k] by {
        if ls[k].len() > 0 {
            assert(ls[k].last() == ls[k][ls[k].len() - 1]);
        }
    }
    assert(ls.map_values(|l: Seq<char>| strip_cr(l)) =~= ls);
}

/// Replacing in text where the pattern does not occur from `i` on keeps it.
pub proof fn lemma_replace_absent(t: Seq<char>, p: Seq<char>, r: Seq<char>, i: int)
    requires
        0 <= i <= t.len(),
        p.len() > 0,
        forall|j: int| i <= j ==> !match_at(t, p, j),
    ensures
        replace_from(t, p, r, i) == t.skip(i),
    decreases t.len() - i,
{
    if i < t.len() {
        lemma_replace_absent(t, p, r, i + 1);
        assert(seq![t[i]] + t.skip(i + 1) =~= t.skip(i));
    }
}

/// Replacing from a position is the same whatever text precedes.
pub proof fn lemma_replace_shift(q: Seq<char>, t: Seq<char>, p: Seq<char>, r: Seq<char>, i: int)
    requires
        0 <= i <= t.len(),
        p.len() > 0,
    ensures
        replace_from(q + t, p, r, q.len() + i) == replace_from(t, p, r, i),
    decreases t.len() - i,
{
    let s = q + t;
    assert(match_at(s, p, q.len() + i) == match_at(t, p, i)) by {
        if q.len() + i + p.len() <= s.len() {
            assert(s.subrange(q.len() + i, q.len() + i + p.len()) =~= t.subrange(i, i + p.len()));
        }
    }
    if i < t.len() {
        if match_at(t, p, i) {
            if i + p.len() <= t.len() {
                lemma_replace_shift(q, t, p, r, i + p.len());
            }
        } else {
            assert(s[q.len() + i] == t[i]);
            lemma_replace_shift(q, t, p, r, i + 1);
        }
    } else {
        assert(s.skip(q.len() + i) =~= t.skip(i));
    }
}

/// Views of a vector of character vectors.
pub open spec fn views(v: Seq<Vec<char>>) -> Seq<Seq<char>> {
    v.map_values(|x: Vec<char>| x@)
}

/// Views of a vector of strings.
pub open spec fn string_views(v: Seq<String>) -> Seq<Seq<char>> {
    v.map_values(|x: String| x@)
}

/// Pushes a line onto a vector of lines.
pub fn push_line(lines: &mut Vec<Vec<char>>, l: Vec<char>)
    ensures
        views(final(lines)@) == views(old(lines)@).push(l@),
{
    let ghost before = views(lines@);
    let ghost lv = l@;
    lines.push(l);
    assert(views(lines@) =~= before.push(lv));
}

/// Executable `lines`.
pub fn lines_vec(s: &Vec<char>) -> (r: Vec<Vec<char>>)
    ensures
        views(r@) == lines(s@),
{
    let mut r: Vec<Vec<char>> = Vec::new();
    let mut i: usize = 0;
    while i < s.len()
        invariant
            i <= s.len(),
            views(r@) + lines_from(s@, i as int) == lines(s@),
        decreases s.len() - i,
    {
        let mut k: usize = i;
        while k < s.len() && s[k] != '\n'
            invariant
                i <= k <= s.len(),
                next_nl(s@, i as int) == next_nl(s@, k as int),
            decreases s.len() - k,
        {
            k = k + 1;
        }
        proof {
            lemma_next_nl(s@, i as int);
        }
        let ghost old_r = views(r@);
        if k < s.len() {
            let mut line = subvec(s, i, k);
            if line.len() > 0 && line[line.len() - 1] == '\r' {
                line.pop();
            }
            assert(line@ =~= strip_cr(s@.subrange(i as int, k as int)));
            r.push(line);
            assert(views(r@) =~= old_r.push(strip_cr(s@.subrange(i as int, k as int))));
            assert(views(r@) + lines_from(s@, k + 1) =~= old_r + lines_from(s@, i as int));
            i = k + 1;
        } else {
            let line = subvec(s, i, k);
            r.push(line);
            assert(views(r@) =~= old_r.push(s@.subrange(i as int, k as int)));
            assert(lines_from(s@, k as int) =~= Seq::<Seq<char>>::empty());
            assert(views(r@) + lines_from(s@, k as int) =~= old_r + lines_from(s@, i as int));
            i = k;
        }
    }
    assert(lines_from(s@, i as int) =~= Seq::<Seq<char>>::empty());
    assert(views(r@) + Seq::<Seq<char>>::empty() =~= views(r@));
    r
}

/// Executable `join`.
pub fn join_vec(parts: &Vec<Vec<char>>, sep: &Vec<char>) -> (r: Vec<char>)
    ensures
        r@ == join(views(parts@), sep@),
{
    let mut r: Vec<char> = Vec::new();
    let mut i: usize = 0;
    while i < parts.len()
        invariant
            i <= parts.len(),
            r@ == join(views(parts@).take(i as int), sep@),
        decreases parts.len() - i,
    {
        if i > 0 {
            append(&mut r, sep);
        }
        append(&mut r, &parts[i]);
        assert(views(parts@).take(i + 1).drop_last() =~= views(parts@).take(i as int));
        assert(views(parts@).take(i + 1).last() == parts@[i as int]@);
        if i == 0 {
            assert(views(parts@).take(1) =~= seq![parts@[0]@]);
        }
        i = i + 1;
    }
    assert(views(parts@).take(parts.len() as int) =~= views(parts@));
    r
}

} // verus!
