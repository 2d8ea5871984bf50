//! Reading vault markdown: frontmatter framing, H1 title and body, legacy
//! syntax clean-up, and the assembly of a parsed entity.

use vstd::prelude::*;

use crate::text::{
    append, chars_of, copy_vec, ends_with, ends_with_exec, find, find_from_exec, join, join_vec,
    lemma_find_from, lemma_join_lines, lines, lines_vec, replace_all, replace_vec, starts_with,
    starts_with_exec, str_eq, string_of, string_views, subvec, trim, trim_start, trim_start_char,
    trim_start_char_vec, trim_start_vec, trim_vec, vec_eq, views,
};

verus! {

// ---------------------------------------------------------------------------
// Frontmatter framing
// ---------------------------------------------------------------------------

/// The text between the opening `---` (after leading whitespace) and the
/// first following `"\n---"`.
pub open spec fn spec_extract_frontmatter(m: Seq<char>) -> Option<Seq<char>> {
    let t = trim_start(m);
    if !starts_with(t, "---"@) {
        None
    } else {
        let a = t.skip(3);
        match find(a, "\n---"@) {
            Some(c) => Some(a.take(c)),
            None => None,
        }
    }
}

/// The text after the closing `"\n---"` of the frontmatter, or the whole
/// markdown when it has no complete frontmatter.
pub open spec fn spec_skip_frontmatter(m: Seq<char>) -> Seq<char> {
    let t = trim_start(m);
    if !starts_with(t, "---"@) {
        m
    } else {
        let a = t.skip(3);
        match find(a, "\n---"@) {
            Some(c) => a.skip(c + 4),
            None => m,
        }
    }
}

/// Splits `m` at its frontmatter: `(frontmatter, rest)` when it has one.
fn frontmatter_parts(m: &Vec<char>) -> (r: Option<(Vec<char>, Vec<char>)>)
    ensures
        r is Some <==> spec_extract_frontmatter(m@) is Some,
        r matches Some(p) ==> spec_extract_frontmatter(m@) == Some(p.0@) && p.1@
            == spec_skip_frontmatter(m@),
{
    proof {
        reveal_strlit("---");
        reveal_strlit("\n---");
    }
    let t = trim_start_vec(m);
    let dashes = chars_of("---");
    if !starts_with_exec(&t, &dashes) {
        return None;
    }
    let a = subvec(&t, 3, t.len());
    assert(a@ =~= t@.skip(3));
    let close = chars_of("\n---");
    match find_from_exec(&a, &close, 0) {
        Some(c) => {
            proof {
                lemma_find_from(a@, close@, 0);
            }
            let fm = subvec(&a, 0, c);
            let rest = subvec(&a, c + 4, a.len());
            assert(fm@ =~= a@.take(c as int));
            assert(rest@ =~= a@.skip(c + 4));
            Some((fm, rest))
        },
        None => None,
    }
}

/// The YAML text of the frontmatter of `markdown`, if it has one.
pub fn extract_frontmatter(markdown: &str) -> (r: Option<String>)
    ensures
        r is Some <==> spec_extract_frontmatter(markdown@) is Some,
        r matches Some(s) ==> Some(s@) == spec_extract_frontmatter(markdown@),
{
    let m = chars_of(markdown);
    match frontmatter_parts(&m) {
        Some((fm, _)) => Some(string_of(fm.as_slice())),
        None => None,
    }
}

/// The markdown after its frontmatter (all of it when it has none).
pub fn skip_frontmatter(markdown: &str) -> (r: String)
    ensures
        r@ == spec_skip_frontmatter(markdown@),
{
    let m = chars_of(markdown);
    match frontmatter_parts(&m) {
        Some((_, rest)) => string_of(rest.as_slice()),
        None => {
            proof {
                reveal_strlit("---");
                reveal_strlit("\n---");
            }
            string_of(m.as_slice())
        },
    }
}

// ---------------------------------------------------------------------------
// Title and body
// ---------------------------------------------------------------------------

/// The file markers stripped from H1 titles.
pub open spec fn markers_removed(x: Seq<char>) -> Seq<char> {
    replace_all(
        replace_all(
            replace_all(replace_all(x, "【ATC】"@, Seq::empty()), "【NOTE】"@, Seq::empty()),
            "【TASK】"@,
            Seq::empty(),
        ),
        "【QUE】"@,
        Seq::empty(),
    )
}

/// A line that, once trimmed, starts with `"# "`.
pub open spec fn is_h1(line: Seq<char>) -> bool {
    starts_with(trim(line), "# "@)
}

/// Index of the first H1 line at or after `i`.
pub open spec fn first_h1_from(ls: Seq<Seq<char>>, i: int) -> Option<int>
    decreases ls.len() - i,
{
    if i < 0 || i >= ls.len() {
        None
    } else if is_h1(ls[i]) {
        Some(i)
    } else {
        first_h1_from(ls, i + 1)
    }
}

/// Index of the first line at or after `i` that is not blank.
pub open spec fn first_nonblank_from(ls: Seq<Seq<char>>, i: int) -> Option<int>
    decreases ls.len() - i,
{
    if i < 0 || i >= ls.len() {
        None
    } else if trim(ls[i]).len() > 0 {
        Some(i)
    } else {
        first_nonblank_from(ls, i + 1)
    }
}

/// The title an H1 line carries: text after `"# "`, markers removed, trimmed.
pub open spec fn h1_title(line: Seq<char>) -> Seq<char> {
    trim(markers_removed(trim(line).skip(2)))
}

/// The body after line `i`: following lines joined, leading newlines
/// dropped, and one final newline when anything is left.
pub open spec fn body_after(ls: Seq<Seq<char>>, i: int) -> Seq<char> {
    let b = trim_start_char(join(ls.skip(i + 1), "\n"@), '\n');
    if b.len() == 0 {
        b
    } else {
        b + "\n"@
    }
}

/// `(title, body)` of the text after the frontmatter: the first H1 line gives
/// the title and what follows it the body; without an H1 the first non-blank
/// line, trimmed, is the title and the body is empty.
pub open spec fn spec_title_and_body(text: Seq<char>) -> (Seq<char>, Seq<char>) {
    let ls = lines(text);
    match first_h1_from(ls, 0) {
        Some(i) => (h1_title(ls[i]), body_after(ls, i)),
        None => match first_nonblank_from(ls, 0) {
            Some(j) => (trim(ls[j]), Seq::empty()),
            None => (Seq::empty(), Seq::empty()),
        },
    }
}

fn remove_markers(x: &Vec<char>) -> (r: Vec<char>)
    ensures
        r@ == markers_removed(x@),
{
    let empty: Vec<char> = Vec::new();
    let a = replace_vec(x, &chars_of("【ATC】"), &empty);
    let b = replace_vec(&a, &chars_of("【NOTE】"), &empty);
    let c = replace_vec(&b, &chars_of("【TASK】"), &empty);
    replace_vec(&c, &chars_of("【QUE】"), &empty)
}

/// The title and the body of the text that follows the frontmatter.
pub fn extract_title_and_body(text: &str) -> (r: (String, String))
    ensures
        (r.0@, r.1@) == spec_title_and_body(text@),
{
    let t = chars_of(text);
    let ls = lines_vec(&t);
    let ghost gl = views(ls@);
    let h1 = chars_of("# ");
    let mut i: usize = 0;
    while i < ls.len()
        invariant
            i <= ls.len(),
            gl == views(ls@),
            gl.len() == ls.len(),
            first_h1_from(gl, 0) == first_h1_from(gl, i as int),
            h1@ == "# "@,
            gl == lines(text@),
        decreases ls.len() - i,
    {
        let tl = trim_vec(&ls[i]);
        assert(gl[i as int] == ls@[i as int]@);
        if starts_with_exec(&tl, &h1) {
            assert(first_h1_from(gl, i as int) == Some(i as int));
            proof {
                reveal_strlit("# ");
            }
            let after = subvec(&tl, 2, tl.len());
            assert(after@ =~= trim(gl[i as int]).skip(2));
            let title = trim_vec(&remove_markers(&after));
            let mut rest: Vec<Vec<char>> = Vec::new();
            let mut k: usize = i + 1;
            while k < ls.len()
                invariant
                    i < k <= ls.len(),
                    gl == views(ls@),
                    gl.len() == ls.len(),
                    views(rest@) == gl.subrange(i + 1, k as int),
                decreases ls.len() - k,
            {
                assert(gl[k as int] == ls@[k as int]@);
                let ghost old_rest = views(rest@);
                rest.push(copy_vec(&ls[k]));
                assert(views(rest@) =~= old_rest.push(gl[k as int]));
                assert(views(rest@) =~= gl.subrange(i + 1, k + 1));
                k = k + 1;
            }
            assert(gl.subrange(i + 1, ls.len() as int) =~= gl.skip(i + 1));
            let joined = join_vec(&rest, &chars_of("\n"));
            let b = trim_start_char_vec(&joined, '\n');
            let mut body = b;
            if body.len() > 0 {
                append(&mut body, &chars_of("\n"));
            }
            assert(title@ == h1_title(gl[i as int]));
            assert(body@ == body_after(gl, i as int));
            assert(gl == lines(text@));
            assert(spec_title_and_body(text@) == (h1_title(gl[i as int]), body_after(gl, i as int)));
            return (string_of(title.as_slice()), string_of(body.as_slice()));
        }
        i = i + 1;
    }
    assert(first_h1_from(gl, i as int) is None);
    let mut j: usize = 0;
    while j < ls.len()
        invariant
            j <= ls.len(),
            gl == views(ls@),
            gl.len() == ls.len(),
            first_h1_from(gl, 0) is None,
            first_nonblank_from(gl, 0) == first_nonblank_from(gl, j as int),
            gl == lines(text@),
        decreases ls.len() - j,
    {
        let tl = trim_vec(&ls[j]);
        assert(gl[j as int] == ls@[j as int]@);
        if tl.len() > 0 {
            assert(first_nonblank_from(gl, j as int) == Some(j as int));
            return (string_of(tl.as_slice()), String::new());
        }
        j = j + 1;
    }
    assert(first_nonblank_from(gl, j as int) is None);
    (String::new(), String::new())
}

// ---------------------------------------------------------------------------
// Escapes in card titles
// ---------------------------------------------------------------------------

/// ASCII punctuation (std's `char::is_ascii_punctuation`).
pub open spec fn is_ascii_punct(c: char) -> bool {
    let n = c as u32;
    (0x21 <= n && n <= 0x2f) || (0x3a <= n && n <= 0x40) || (0x5b <= n && n <= 0x60) || (0x7b
        <= n && n <= 0x7e)
}

fn is_ascii_punct_exec(c: char) -> (r: bool)
    ensures
        r == is_ascii_punct(c),
{
    let n = c as u32;
    (0x21 <= n && n <= 0x2f) || (0x3a <= n && n <= 0x40) || (0x5b <= n && n <= 0x60) || (0x7b
        <= n && n <= 0x7e)
}

/// `s` with each `\` + ASCII punctuation (other than `*` and `\`) replaced by
/// the punctuation alone; `\\` and every other backslash are kept.
pub open spec fn unescape_title(s: Seq<char>) -> Seq<char>
    decreases s.len(),
{
    if s.len() == 0 {
        Seq::empty()
    } else if s[0] != '\\' {
        seq![s[0]] + unescape_title(s.drop_first())
    } else if s.len() >= 2 && s[1] == '\\' {
        seq!['\\', '\\'] + unescape_title(s.skip(2))
    } else if s.len() >= 2 && is_ascii_punct(s[1]) && s[1] != '*' {
        seq![s[1]] + unescape_title(s.skip(2))
    } else {
        seq!['\\'] + unescape_title(s.drop_first())
    }
}

/// Removes the markdown escapes of ASCII punctuation left in old card titles.
pub fn normalize_title_markdown_escapes(title: &str) -> (r: String)
    ensures
        r@ == unescape_title(title@),
{
    let s = chars_of(title);
    let mut out: Vec<char> = Vec::new();
    let mut i: usize = 0;
    assert(s@.skip(0) =~= s@);
    while i < s.len()
        invariant
            i <= s.len(),
            out@ + unescape_title(s@.skip(i as int)) == unescape_title(s@),
        decreases s.len() - i,
    {
        let ghost rest = s@.skip(i as int);
        let ch = s[i];
        if ch != '\\' {
            out.push(ch);
            assert(rest.drop_first() =~= s@.skip(i + 1));
            i = i + 1;
        } else if i + 1 < s.len() && s[i + 1] == '\\' {
            out.push('\\');
            out.push('\\');
            assert(rest.skip(2) =~= s@.skip(i + 2));
            i = i + 2;
        } else if i + 1 < s.len() && is_ascii_punct_exec(s[i + 1]) && s[i + 1] != '*' {
            out.push(s[i + 1]);
            assert(rest.skip(2) =~= s@.skip(i + 2));
            i = i + 2;
        } else {
            out.push('\\');
            assert(rest.drop_first() =~= s@.skip(i + 1));
            i = i + 1;
        }
        assert(out@ + unescape_title(s@.skip(i as int)) =~= unescape_title(s@));
    }
    assert(s@.skip(s.len() as int) =~= Seq::<char>::empty());
    assert(out@ + Seq::<char>::empty() =~= out@);
    string_of(out.as_slice())
}

// ---------------------------------------------------------------------------
// Legacy <details>/<summary> blocks
// ---------------------------------------------------------------------------

/// The summary text of a `<summary>…</summary>` line.
pub open spec fn summary_inner(line: Seq<char>) -> Option<Seq<char>> {
    let t = trim(line);
    if starts_with(t, "<summary>"@) && ends_with(t.skip(9), "</summary>"@) {
        Some(t.skip(9).take(t.len() - 9 - 10))
    } else {
        None
    }
}

/// A line that is blank once trimmed.
pub open spec fn is_blank(line: Seq<char>) -> bool {
    trim(line).len() == 0
}

/// First index `>= c` whose line is not blank (or the line count).
pub open spec fn skip_blank(ls: Seq<Seq<char>>, c: int) -> int
    decreases ls.len() - c,
{
    if 0 <= c < ls.len() && is_blank(ls[c]) {
        skip_blank(ls, c + 1)
    } else {
        c
    }
}

/// First index `>= c` whose trimmed line is `</details>`.
pub open spec fn find_close(ls: Seq<Seq<char>>, c: int) -> Option<int>
    decreases ls.len() - c,
{
    if c < 0 || c >= ls.len() {
        None
    } else if trim(ls[c]) == "</details>"@ {
        Some(c)
    } else {
        find_close(ls, c + 1)
    }
}

pub proof fn lemma_skip_blank(ls: Seq<Seq<char>>, c: int)
    ensures
        c <= skip_blank(ls, c),
        0 <= c <= ls.len() ==> skip_blank(ls, c) <= ls.len(),
    decreases ls.len() - c,
{
    if 0 <= c < ls.len() && is_blank(ls[c]) {
        lemma_skip_blank(ls, c + 1);
    }
}

pub proof fn lemma_find_close(ls: Seq<Seq<char>>, c: int)
    ensures
        find_close(ls, c) matches Some(k) ==> c <= k < ls.len() && trim(ls[k]) == "</details>"@,
    decreases ls.len() - c,
{
    if c < 0 || c >= ls.len() {
    } else if trim(ls[c]) == "</details>"@ {
    } else {
        lemma_find_close(ls, c + 1);
    }
}

/// `xs` without its trailing blank lines.
pub open spec fn drop_trailing_blank(xs: Seq<Seq<char>>) -> Seq<Seq<char>>
    decreases xs.len(),
{
    if xs.len() > 0 && is_blank(xs.last()) {
        drop_trailing_blank(xs.drop_last())
    } else {
        xs
    }
}

/// A `<details>` line followed by a `<summary>` line, starting at `i`.
pub open spec fn opens_toggle(ls: Seq<Seq<char>>, i: int) -> bool {
    0 <= i && i + 1 < ls.len() && starts_with(trim(ls[i]), "<details"@) && summary_inner(
        ls[i + 1],
    ) is Some
}

/// Lines `ls[i..]` with every complete legacy block rewritten: the summary
/// becomes `?>> summary`, the content (leading and trailing blank lines
/// dropped) follows, and `?<<` closes it.
pub open spec fn toggle_from(ls: Seq<Seq<char>>, i: int) -> Seq<Seq<char>>
    decreases ls.len() - i,
{
    if i < 0 || i >= ls.len() {
        Seq::empty()
    } else if !opens_toggle(ls, i) {
        seq![ls[i]] + toggle_from(ls, i + 1)
    } else {
        let c0 = skip_blank(ls, i + 2);
        proof {
            lemma_skip_blank(ls, i + 2);
            lemma_find_close(ls, c0);
        }
        match find_close(ls, c0) {
            None => seq![ls[i]] + toggle_from(ls, i + 1),
            Some(c) => seq!["?>> "@ + trim(summary_inner(ls[i + 1]).unwrap())]
                + drop_trailing_blank(ls.subrange(c0, c)) + seq!["?<<"@] + toggle_from(ls, c + 1),
        }
    }
}

/// The markdown with legacy `<details><summary>` blocks in `?>>`/`?<<` form,
/// keeping a final newline when the input had one and the output is not empty.
pub open spec fn spec_normalize_toggle(m: Seq<char>) -> Seq<char> {
    let r = join(toggle_from(lines(m), 0), "\n"@);
    if ends_with(m, "\n"@) && r.len() > 0 {
        r + "\n"@
    } else {
        r
    }
}

/// No line opens a legacy block from `i` on.
pub open spec fn no_details_from(ls: Seq<Seq<char>>, i: int) -> bool {
    forall|j: int| i <= j < ls.len() ==> !starts_with(trim(#[trigger] ls[j]), "<details"@)
}

proof fn lemma_toggle_identity(ls: Seq<Seq<char>>, i: int)
    requires
        0 <= i <= ls.len(),
        no_details_from(ls, i),
    ensures
        toggle_from(ls, i) == ls.skip(i),
    decreases ls.len() - i,
{
    if i < ls.len() {
        assert(!starts_with(trim(ls[i]), "<details"@));
        lemma_toggle_identity(ls, i + 1);
        assert(seq![ls[i]] + ls.skip(i + 1) =~= ls.skip(i));
    } else {
        assert(ls.skip(i) =~= Seq::<Seq<char>>::empty());
    }
}

/// Markdown with no legacy `<details>` line comes back unchanged, as long
/// as it has no carriage returns (lines lose a `'\r'` before `'\n'`) and is
/// not a lone newline (which becomes empty).
pub proof fn law_toggle_normalization_keeps_plain_markdown(m: Seq<char>)
    requires
        forall|j: int| 0 <= j < m.len() ==> m[j] != '\r',
        m != "\n"@,
        no_details_from(lines(m), 0),
    ensures
        spec_normalize_toggle(m) == m,
{
    let ls = lines(m);
    lemma_toggle_identity(ls, 0);
    assert(ls.skip(0) =~= ls);
    if m.len() == 0 {
        assert(ls =~= Seq::<Seq<char>>::empty());
        assert(!ends_with(m, "\n"@)) by {
            reveal_strlit("\n");
        }
    } else {
        lemma_join_lines(m, 0);
        if m.last() == '\n' {
            assert(ends_with(m, "\n"@)) by {
                reveal_strlit("\n");
                assert(m.subrange(m.len() - 1, m.len() as int) =~= "\n"@);
            }
            if m.len() == 1 {
                assert(m =~= "\n"@) by {
                    reveal_strlit("\n");
                }
            }
            assert(m.subrange(0, m.len() - 1) + "\n"@ =~= m) by {
                reveal_strlit("\n");
            }
        } else {
            assert(!ends_with(m, "\n"@)) by {
                reveal_strlit("\n");
                if ends_with(m, "\n"@) {
                    assert(m.subrange(m.len() - 1, m.len() as int)[0] == m.last());
                }
            }
            assert(m.subrange(0, m.len() as int) =~= m);
        }
    }
}

/// Once normalization has left no legacy block, normalizing again changes
/// nothing (for output without carriage returns that is not a lone newline).
pub proof fn law_toggle_normalization_settles(m: Seq<char>)
    requires
        forall|j: int|
            0 <= j < spec_normalize_toggle(m).len() ==> spec_normalize_toggle(m)[j] != '\r',
        spec_normalize_toggle(m) != "\n"@,
        no_details_from(lines(spec_normalize_toggle(m)), 0),
    ensures
        spec_normalize_toggle(spec_normalize_toggle(m)) == spec_normalize_toggle(m),
{
    law_toggle_normalization_keeps_plain_markdown(spec_normalize_toggle(m));
}

fn summary_inner_exec(line: &Vec<char>) -> (r: Option<Vec<char>>)
    ensures
        r is Some <==> summary_inner(line@) is Some,
        r matches Some(v) ==> summary_inner(line@) == Some(v@),
{
    proof {
        reveal_strlit("<summary>");
        reveal_strlit("</summary>");
    }
    let t = trim_vec(line);
    if !starts_with_exec(&t, &chars_of("<summary>")) {
        return None;
    }
    let rest = subvec(&t, 9, t.len());
    assert(rest@ =~= t@.skip(9));
    if !ends_with_exec(&rest, &chars_of("</summary>")) {
        return None;
    }
    let inner = subvec(&rest, 0, rest.len() - 10);
    assert(inner@ =~= t@.skip(9).take(t@.len() - 9 - 10));
    Some(inner)
}

fn is_blank_exec(line: &Vec<char>) -> (r: bool)
    ensures
        r == is_blank(line@),
{
    trim_vec(line).len() == 0
}

/// Rewrites legacy `<details>/<summary>` blocks as `?>> summary` … `?<<`.
pub fn normalize_legacy_toggle_syntax(markdown: &str) -> (r: String)
    ensures
        r@ == spec_normalize_toggle(markdown@),
{
    let m = chars_of(markdown);
    let ls = lines_vec(&m);
    let ghost gl = views(ls@);
    let details = chars_of("<details");
    let close = chars_of("</details>");
    let mut result: Vec<Vec<char>> = Vec::new();
    let mut i: usize = 0;
    while i < ls.len()
        invariant
            i <= ls.len(),
            gl == views(ls@),
            gl.len() == ls.len(),
            gl == lines(markdown@),
            details@ == "<details"@,
            close@ == "</details>"@,
            views(result@) + toggle_from(gl, i as int) == toggle_from(gl, 0),
        decreases ls.len() - i,
    {
        let ghost before = views(result@);
        assert(gl[i as int] == ls@[i as int]@);
        assert(i + 1 < ls.len() ==> gl[i + 1] == ls@[i + 1]@);
        let opens = i + 1 < ls.len() && starts_with_exec(&trim_vec(&ls[i]), &details) && {
            let s = summary_inner_exec(&ls[i + 1]);
            s.is_some()
        };
        if !opens {
            result.push(copy_vec(&ls[i]));
            assert(views(result@) =~= before.push(gl[i as int]));
            assert(views(result@) + toggle_from(gl, i + 1) =~= before + toggle_from(gl, i as int));
            i = i + 1;
        } else {
            let inner = match summary_inner_exec(&ls[i + 1]) {
                Some(v) => v,
                None => Vec::new(),
            };
            assert(opens_toggle(gl, i as int));
            assert(inner@ == summary_inner(gl[i + 1]).unwrap());
            let mut c0: usize = i + 2;
            proof {
                lemma_skip_blank(gl, i + 2);
            }
            while c0 < ls.len() && is_blank_exec(&ls[c0])
                invariant
                    i + 2 <= c0 <= ls.len(),
                    gl == views(ls@),
                    gl.len() == ls.len(),
                    skip_blank(gl, c0 as int) == skip_blank(gl, i + 2),
                decreases ls.len() - c0,
            {
                assert(gl[c0 as int] == ls@[c0 as int]@);
                c0 = c0 + 1;
            }
            assert(c0 < ls.len() ==> gl[c0 as int] == ls@[c0 as int]@);
            assert(skip_blank(gl, c0 as int) == c0);
            let mut c: usize = c0;
            while c < ls.len() && !vec_eq(&trim_vec(&ls[c]), &close)
                invariant
                    c0 <= c <= ls.len(),
                    gl == views(ls@),
                    gl.len() == ls.len(),
                    close@ == "</details>"@,
                    find_close(gl, c as int) == find_close(gl, c0 as int),
                decreases ls.len() - c,
            {
                assert(gl[c as int] == ls@[c as int]@);
                c = c + 1;
            }
            assert(c < ls.len() ==> gl[c as int] == ls@[c as int]@);
            if c >= ls.len() {
                assert(find_close(gl, c as int) is None);
                result.push(copy_vec(&ls[i]));
                assert(views(result@) =~= before.push(gl[i as int]));
                assert(views(result@) + toggle_from(gl, i + 1) =~= before + toggle_from(
                    gl,
                    i as int,
                ));
                i = i + 1;
            } else {
                assert(find_close(gl, c as int) == Some(c as int));
                let mut end: usize = c;
                while end > c0 && is_blank_exec(&ls[end - 1])
                    invariant
                        c0 <= end <= c < ls.len(),
                        gl == views(ls@),
                        gl.len() == ls.len(),
                        drop_trailing_blank(gl.subrange(c0 as int, end as int))
                            == drop_trailing_blank(gl.subrange(c0 as int, c as int)),
                    decreases end,
                {
                    assert(gl[end - 1] == ls@[end - 1]@);
                    assert(gl.subrange(c0 as int, end as int).drop_last() =~= gl.subrange(
                        c0 as int,
                        end - 1,
                    ));
                    end = end - 1;
                }
                assert(end > c0 ==> gl[end - 1] == ls@[end - 1]@);
                assert(drop_trailing_blank(gl.subrange(c0 as int, end as int)) =~= gl.subrange(
                    c0 as int,
                    end as int,
                ));
                let mut head = chars_of("?>> ");
                append(&mut head, &trim_vec(&inner));
                let ghost old_res0 = views(result@);
                result.push(head);
                assert(views(result@) =~= old_res0.push(head@));
                let mut k: usize = c0;
                while k < end
                    invariant
                        c0 <= k <= end <= c < ls.len(),
                        gl == views(ls@),
                        gl.len() == ls.len(),
                        views(result@) == before.push("?>> "@ + trim(
                            summary_inner(gl[i + 1]).unwrap(),
                        )) + gl.subrange(c0 as int, k as int),
                    decreases end - k,
                {
                    assert(gl[k as int] == ls@[k as int]@);
                    let ghost old_res = views(result@);
                    result.push(copy_vec(&ls[k]));
                    assert(views(result@) =~= old_res.push(gl[k as int]));
                    assert(views(result@) =~= before.push(
                        "?>> "@ + trim(summary_inner(gl[i + 1]).unwrap()),
                    ) + gl.subrange(c0 as int, k + 1));
                    k = k + 1;
                }
                let ghost old_res1 = views(result@);
                let tail = chars_of("?<<");
                result.push(tail);
                assert(views(result@) =~= old_res1.push("?<<"@));
                assert(views(result@) + toggle_from(gl, c + 1) =~= before + toggle_from(
                    gl,
                    i as int,
                ));
                i = c + 1;
            }
        }
    }
    assert(toggle_from(gl, i as int) =~= Seq::<Seq<char>>::empty());
    assert(views(result@) + Seq::<Seq<char>>::empty() =~= views(result@));
    let mut out = join_vec(&result, &chars_of("\n"));
    if ends_with_exec(&m, &chars_of("\n")) && out.len() > 0 {
        append(&mut out, &chars_of("\n"));
    }
    string_of(out.as_slice())
}

// ---------------------------------------------------------------------------
// Parsed entities
// ---------------------------------------------------------------------------

/// The frontmatter fields the library reads, as the YAML reader delivers them.
#[derive(Debug, Clone, PartialEq, Eq, Default)]
pub struct RawEntityFrontmatter {
    pub entity_type: Option<String>,
    pub id: Option<String>,
    pub uuid: Option<String>,
    pub tags: Vec<String>,
    pub understanding: Option<String>,
    pub link_to: Vec<String>,
    pub related: Vec<String>,
    pub source: Option<String>,
    pub see_also: Vec<String>,
    pub status: Option<String>,
    pub area: Option<String>,
    pub project: Option<String>,
}

/// A vault markdown file read as an entity.
#[derive(Debug, Clone, PartialEq, Eq)]
pub struct ParsedEntity {
    pub entity_type: String,
    pub id: Option<String>,
    pub title: String,
    pub content: String,
    pub tags: Vec<String>,
    pub link_to: Vec<String>,
    pub related: Vec<String>,
    pub see_also: Vec<String>,
    pub understanding: String,
    pub source: String,
    pub task_status: Option<String>,
    pub task_area: Option<String>,
    pub task_project: Option<String>,
    pub question_status: Option<String>,
}

/// The entity `type` values the library knows.
pub open spec fn is_known_type(t: Seq<char>) -> bool {
    t == "atomic-card"@ || t == "note"@ || t == "project-task"@ || t == "question"@
}

/// The characters of an optional string (empty when absent).
pub open spec fn opt_text(o: Option<String>) -> Seq<char> {
    match o {
        Some(s) => s@,
        None => Seq::empty(),
    }
}

/// Markdown with a frontmatter whose fields name a known entity type.
pub open spec fn is_entity_markdown(m: Seq<char>, raw: Option<RawEntityFrontmatter>) -> bool {
    &&& spec_extract_frontmatter(m) is Some
    &&& raw is Some
    &&& raw.unwrap().entity_type is Some
    &&& is_known_type(raw.unwrap().entity_type.unwrap()@)
}

/// Title of an entity of type `t` stored as markdown `m`; card titles lose
/// their old punctuation escapes.
pub open spec fn spec_entity_title(t: Seq<char>, m: Seq<char>) -> Seq<char> {
    let raw = spec_title_and_body(spec_skip_frontmatter(m)).0;
    if t == "atomic-card"@ {
        unescape_title(raw)
    } else {
        raw
    }
}

/// Content of an entity stored as markdown `m`: its body with legacy blocks
/// rewritten.
pub open spec fn spec_entity_content(m: Seq<char>) -> Seq<char> {
    spec_normalize_toggle(spec_title_and_body(spec_skip_frontmatter(m)).1)
}

/// Reads markdown `markdown`, whose frontmatter the YAML reader turned into
/// `raw` (`None` when it was not valid YAML for these fields), as an entity.
pub fn parse_entity_with(markdown: &str, raw: Option<RawEntityFrontmatter>) -> (r: Option<
    ParsedEntity,
>)
    ensures
        r is Some <==> is_entity_markdown(markdown@, raw),
        r matches Some(p) ==> ({
            let f = raw.unwrap();
            let t = f.entity_type.unwrap()@;
            &&& p.entity_type@ == t
            &&& p.id == (if f.id is Some {
                f.id
            } else {
                f.uuid
            })
            &&& p.title@ == spec_entity_title(t, markdown@)
            &&& p.content@ == spec_entity_content(markdown@)
            &&& p.tags == f.tags
            &&& p.link_to == f.link_to
            &&& p.related == f.related
            &&& p.see_also == f.see_also
            &&& p.understanding@ == opt_text(f.understanding)
            &&& p.source@ == opt_text(f.source)
            &&& p.task_status == (if t == "project-task"@ {
                f.status
            } else {
                None
            })
            &&& p.task_area == (if t == "project-task"@ {
                f.area
            } else {
                None
            })
            &&& p.task_project == (if t == "project-task"@ {
                f.project
            } else {
                None
            })
            &&& p.question_status == (if t == "question"@ {
                f.status
            } else {
                None
            })
        }),
{
    let m = chars_of(markdown);
    if frontmatter_parts(&m).is_none() {
        return None;
    }
    let f = match raw {
        Some(f) => f,
        None => return None,
    };
    let t = match &f.entity_type {
        Some(t) => t.clone(),
        None => return None,
    };
    let is_card = str_eq(t.as_str(), "atomic-card");
    let is_task = str_eq(t.as_str(), "project-task");
    let is_question = str_eq(t.as_str(), "question");
    let is_note = str_eq(t.as_str(), "note");
    if !(is_card || is_note || is_task || is_question) {
        return None;
    }
    proof {
        reveal_strlit("question");
        reveal_strlit("project-task");
        assert("project-task"@[0] != "question"@[0]);
    }
    let after = skip_frontmatter(markdown);
    let (raw_title, body) = extract_title_and_body(after.as_str());
    let content = normalize_legacy_toggle_syntax(body.as_str());
    let title = if is_card {
        normalize_title_markdown_escapes(raw_title.as_str())
    } else {
        raw_title
    };
    let id = if f.id.is_some() {
        f.id
    } else {
        f.uuid
    };
    let understanding = match f.understanding {
        Some(u) => u,
        None => String::new(),
    };
    let source = match f.source {
        Some(s) => s,
        None => String::new(),
    };
    let (task_status, task_area, task_project, question_status) = if is_task {
        (f.status, f.area, f.project, None)
    } else if is_question {
        (None, None, None, f.status)
    } else {
        (None, None, None, None)
    };
    Some(
        ParsedEntity {
            entity_type: t,
            id,
            title,
            content,
            tags: f.tags,
            link_to: f.link_to,
            related: f.related,
            see_also: f.see_also,
            understanding,
            source,
            task_status,
            task_area,
            task_project,
            question_status,
        },
    )
}

/// The `understanding` text of a frontmatter that lists it line by line.
pub fn understanding_from_list(parts: &Vec<String>) -> (r: String)
    ensures
        r@ == join(string_views(parts@), "\n"@),
{
    let mut vs: Vec<Vec<char>> = Vec::new();
    let mut i: usize = 0;
    while i < parts.len()
        invariant
            i <= parts.len(),
            views(vs@) == string_views(parts@).take(i as int),
        decreases parts.len() - i,
    {
        let ghost old_vs = views(vs@);
        vs.push(chars_of(parts[i].as_str()));
        assert(views(vs@) =~= old_vs.push(parts@[i as int]@));
        assert(string_views(parts@).take(i + 1) =~= string_views(parts@).take(i as int).push(
            parts@[i as int]@,
        ));
        i = i + 1;
    }
    assert(string_views(parts@).take(parts.len() as int) =~= string_views(parts@));
    let r = join_vec(&vs, &chars_of("\n"));
    string_of(r.as_slice())
}

// ---------------------------------------------------------------------------
// Rewriting frontmatter
// ---------------------------------------------------------------------------

/// Fields to (re)write in a frontmatter; `None` leaves a field as it is.
#[derive(Debug, Clone, PartialEq, Eq, Default)]
pub struct FrontmatterUpdate {
    pub id: Option<String>,
    pub link_to: Option<Vec<String>>,
    pub related: Option<Vec<String>>,
    pub understanding: Option<String>,
    pub see_also: Option<Vec<String>>,
}

/// One change to a frontmatter mapping.
#[derive(Debug, Clone, PartialEq, Eq)]
pub enum FrontmatterEdit {
    /// Drop the key.
    Remove(String),
    /// Set the key to a string.
    SetText(String, String),
    /// Set the key to a list of strings.
    SetList(String, Vec<String>),
}

/// A frontmatter change over plain character sequences.
pub enum EditView {
    Remove(Seq<char>),
    SetText(Seq<char>, Seq<char>),
    SetList(Seq<char>, Seq<Seq<char>>),
}

impl FrontmatterEdit {
    pub open spec fn view_of(self) -> EditView {
        match self {
            FrontmatterEdit::Remove(k) => EditView::Remove(k@),
            FrontmatterEdit::SetText(k, v) => EditView::SetText(k@, v@),
            FrontmatterEdit::SetList(k, v) => EditView::SetList(k@, string_views(v@)),
        }
    }
}

pub open spec fn edit_views(es: Seq<FrontmatterEdit>) -> Seq<EditView> {
    es.map_values(|e: FrontmatterEdit| e.view_of())
}

/// The changes an update makes, in order: a new `id` drops `uuid` and sets
/// `id`; then `linkTo`, `related`, `understanding` and `see-also` are set when
/// given.
pub open spec fn spec_frontmatter_edits(u: FrontmatterUpdate) -> Seq<EditView> {
    (match u.id {
        Some(id) => seq![EditView::Remove("uuid"@), EditView::SetText("id"@, id@)],
        None => Seq::empty(),
    }) + (match u.link_to {
        Some(v) => seq![EditView::SetList("linkTo"@, string_views(v@))],
        None => Seq::empty(),
    }) + (match u.related {
        Some(v) => seq![EditView::SetList("related"@, string_views(v@))],
        None => Seq::empty(),
    }) + (match u.understanding {
        Some(s) => seq![EditView::SetText("understanding"@, s@)],
        None => Seq::empty(),
    }) + (match u.see_also {
        Some(v) => seq![EditView::SetList("see-also"@, string_views(v@))],
        None => Seq::empty(),
    })
}

/// The key an edit changes.
pub open spec fn edit_key(e: EditView) -> Seq<char> {
    match e {
        EditView::Remove(k) => k,
        EditView::SetText(k, _) => k,
        EditView::SetList(k, _) => k,
    }
}

/// An update writes each field it gives and no other: a given `id` sets
/// `id` and drops `uuid`; given links set `linkTo`, `related`, `see-also`;
/// a given understanding sets `understanding`; a field left out leaves its
/// key alone.
pub proof fn law_update_writes_each_given_field(u: FrontmatterUpdate)
    ensures
        u.id matches Some(id) ==> spec_frontmatter_edits(u).contains(EditView::SetText("id"@, id@))
            && spec_frontmatter_edits(u).contains(EditView::Remove("uuid"@)),
        u.link_to matches Some(v) ==> spec_frontmatter_edits(u).contains(
            EditView::SetList("linkTo"@, string_views(v@)),
        ),
        u.related matches Some(v) ==> spec_frontmatter_edits(u).contains(
            EditView::SetList("related"@, string_views(v@)),
        ),
        u.understanding matches Some(s) ==> spec_frontmatter_edits(u).contains(
            EditView::SetText("understanding"@, s@),
        ),
        u.see_also matches Some(v) ==> spec_frontmatter_edits(u).contains(
            EditView::SetList("see-also"@, string_views(v@)),
        ),
        forall|k: int|
            0 <= k < spec_frontmatter_edits(u).len() ==> {
                let key = edit_key(#[trigger] spec_frontmatter_edits(u)[k]);
                &&& (key == "id"@ || key == "uuid"@) ==> u.id is Some
                &&& key == "linkTo"@ ==> u.link_to is Some
                &&& key == "related"@ ==> u.related is Some
                &&& key == "understanding"@ ==> u.understanding is Some
                &&& key == "see-also"@ ==> u.see_also is Some
            },
{
    reveal_strlit("id");
    reveal_strlit("uuid");
    reveal_strlit("linkTo");
    reveal_strlit("related");
    reveal_strlit("understanding");
    reveal_strlit("see-also");
    let a = match u.id {
        Some(id) => seq![EditView::Remove("uuid"@), EditView::SetText("id"@, id@)],
        None => Seq::<EditView>::empty(),
    };
    let b = match u.link_to {
        Some(v) => seq![EditView::SetList("linkTo"@, string_views(v@))],
        None => Seq::<EditView>::empty(),
    };
    let c = match u.related {
        Some(v) => seq![EditView::SetList("related"@, string_views(v@))],
        None => Seq::<EditView>::empty(),
    };
    let d = match u.understanding {
        Some(s) => seq![EditView::SetText("understanding"@, s@)],
        None => Seq::<EditView>::empty(),
    };
    let e = match u.see_also {
        Some(v) => seq![EditView::SetList("see-also"@, string_views(v@))],
        None => Seq::<EditView>::empty(),
    };
    let all = spec_frontmatter_edits(u);
    assert(all =~= a + b + c + d + e);
    assert("id"@.len() == 2 && "uuid"@.len() == 4 && "linkTo"@.len() == 6);
    assert("related"@.len() == 7 && "see-also"@.len() == 8 && "understanding"@.len() == 13);
    let (na, nb, nc, nd) = (a.len() as int, b.len() as int, c.len() as int, d.len() as int);
    if u.id is Some {
        assert(all[0] == a[0] && all[1] == a[1]);
    }
    if u.link_to is Some {
        assert(all[na] == b[0]);
    }
    if u.related is Some {
        assert(all[na + nb] == c[0]);
    }
    if u.understanding is Some {
        assert(all[na + nb + nc] == d[0]);
    }
    if u.see_also is Some {
        assert(all[na + nb + nc + nd] == e[0]);
    }
    assert forall|k: int| 0 <= k < all.len() implies {
        let key = edit_key(#[trigger] all[k]);
        &&& (key == "id"@ || key == "uuid"@) ==> u.id is Some
        &&& key == "linkTo"@ ==> u.link_to is Some
        &&& key == "related"@ ==> u.related is Some
        &&& key == "understanding"@ ==> u.understanding is Some
        &&& key == "see-also"@ ==> u.see_also is Some
    } by {
        if k < na {
            assert(all[k] == a[k]);
        } else if k < na + nb {
            assert(all[k] == b[k - na]);
        } else if k < na + nb + nc {
            assert(all[k] == c[k - na - nb]);
        } else if k < na + nb + nc + nd {
            assert(all[k] == d[k - na - nb - nc]);
        } else {
            assert(all[k] == e[k - na - nb - nc - nd]);
        }
    }
}

fn owned(s: &str) -> (r: String)
    ensures
        r@ == s@,
{
    string_of(chars_of(s).as_slice())
}

/// The mapping changes that carry out `updates`.
pub fn frontmatter_edits(updates: FrontmatterUpdate) -> (r: Vec<FrontmatterEdit>)
    ensures
        edit_views(r@) == spec_frontmatter_edits(updates),
{
    let ghost u = updates;
    let mut r: Vec<FrontmatterEdit> = Vec::new();
    let ghost mut acc: Seq<EditView> = Seq::empty();
    if let Some(id) = updates.id {
        r.push(FrontmatterEdit::Remove(owned("uuid")));
        r.push(FrontmatterEdit::SetText(owned("id"), id));
    }
    assert(edit_views(r@) =~= match u.id {
        Some(id) => seq![EditView::Remove("uuid"@), EditView::SetText("id"@, id@)],
        None => Seq::<EditView>::empty(),
    });
    proof {
        acc = edit_views(r@);
    }
    if let Some(v) = updates.link_to {
        r.push(FrontmatterEdit::SetList(owned("linkTo"), v));
    }
    assert(edit_views(r@) =~= acc + match u.link_to {
        Some(v) => seq![EditView::SetList("linkTo"@, string_views(v@))],
        None => Seq::<EditView>::empty(),
    });
    proof {
        acc = edit_views(r@);
    }
    if let Some(v) = updates.related {
        r.push(FrontmatterEdit::SetList(owned("related"), v));
    }
    assert(edit_views(r@) =~= acc + match u.related {
        Some(v) => seq![EditView::SetList("related"@, string_views(v@))],
        None => Seq::<EditView>::empty(),
    });
    proof {
        acc = edit_views(r@);
    }
    if let Some(s) = updates.understanding {
        r.push(FrontmatterEdit::SetText(owned("understanding"), s));
    }
    assert(edit_views(r@) =~= acc + match u.understanding {
        Some(s) => seq![EditView::SetText("understanding"@, s@)],
        None => Seq::<EditView>::empty(),
    });
    proof {
        acc = edit_views(r@);
    }
    if let Some(v) = updates.see_also {
        r.push(FrontmatterEdit::SetList(owned("see-also"), v));
    }
    assert(edit_views(r@) =~= acc + match u.see_also {
        Some(v) => seq![EditView::SetList("see-also"@, string_views(v@))],
        None => Seq::<EditView>::empty(),
    });
    r
}

/// The frontmatter change that sets a colour: `"default"` drops the `color`
/// key, any other value becomes its text.
pub fn color_edit(color: &str) -> (r: FrontmatterEdit)
    ensures
        color@ == "default"@ ==> r.view_of() == EditView::Remove("color"@),
        color@ != "default"@ ==> r.view_of() == EditView::SetText("color"@, color@),
{
    if str_eq(color, "default") {
        FrontmatterEdit::Remove(owned("color"))
    } else {
        FrontmatterEdit::SetText(owned("color"), owned(color))
    }
}

/// Markdown whose frontmatter is the YAML text `yaml` and whose rest is what
/// follows the frontmatter of `markdown`.
pub fn wrap_frontmatter(yaml: &str, markdown: &str) -> (r: String)
    ensures
        r@ == "---\n"@ + yaml@ + "---\n"@ + spec_skip_frontmatter(markdown@),
{
    let mut out = chars_of("---\n");
    append(&mut out, &chars_of(yaml));
    append(&mut out, &chars_of("---\n"));
    let rest = skip_frontmatter(markdown);
    append(&mut out, &chars_of(rest.as_str()));
    string_of(out.as_slice())
}

/// The YAML text of the mapping read from `yaml` (an empty mapping when
/// there is no text or it is not a YAML mapping) after `edits`, as
/// `serde_yaml` reads, edits and writes it.
pub uninterp spec fn yaml_edited(yaml: Option<Seq<char>>, edits: Seq<EditView>) -> Seq<char>;

pub open spec fn opt_text_view(o: Option<&str>) -> Option<Seq<char>> {
    match o {
        Some(s) => Some(s@),
        None => None,
    }
}

/// `serde_yaml::from_str::<Mapping>` (an empty `Mapping::new()` when there is
/// no text or it does not parse), then `Mapping::remove` or `Mapping::insert`
/// for each edit in order, then `serde_yaml::to_string` (empty should it
/// fail). The result is named, not stated: it is a function of the text and
/// the edits alone.
#[verifier::external_body]
fn yaml_apply_edits(yaml: Option<&str>, edits: Vec<FrontmatterEdit>) -> (r: String)
    ensures
        r@ == yaml_edited(opt_text_view(yaml), edit_views(edits@)),
{
    let mut map: serde_yaml::Mapping = yaml.and_then(|s| serde_yaml::from_str(s).ok()).unwrap_or_default();
    for edit in edits {
        match edit {
            FrontmatterEdit::Remove(k) => { map.remove(k); },
            FrontmatterEdit::SetText(k, v) => { map.insert(k.into(), v.into()); },
            FrontmatterEdit::SetList(k, vs) => { map.insert(k.into(), vs.into()); },
        }
    }
    serde_yaml::to_string(&map).unwrap_or_default()
}

fn frontmatter_with_edits(markdown: &str, edits: Vec<FrontmatterEdit>) -> (r: String)
    ensures
        r@ == "---\n"@ + yaml_edited(spec_extract_frontmatter(markdown@), edit_views(edits@))
            + "---\n"@ + spec_skip_frontmatter(markdown@),
{
    let fm = extract_frontmatter(markdown);
    let yaml = match &fm {
        Some(t) => yaml_apply_edits(Some(t.as_str()), edits),
        None => yaml_apply_edits(None, edits),
    };
    wrap_frontmatter(yaml.as_str(), markdown)
}

/// The markdown with `updates` applied to its frontmatter (a frontmatter
/// that is missing or not a mapping is started afresh); everything after
/// the frontmatter is kept.
pub fn write_frontmatter(markdown: &str, updates: FrontmatterUpdate) -> (r: String)
    ensures
        r@ == "---\n"@ + yaml_edited(
            spec_extract_frontmatter(markdown@),
            spec_frontmatter_edits(updates),
        ) + "---\n"@ + spec_skip_frontmatter(markdown@),
{
    frontmatter_with_edits(markdown, frontmatter_edits(updates))
}

/// The markdown with its frontmatter `color` set, or dropped for
/// `"default"`; everything after the frontmatter is kept.
pub fn write_color_frontmatter(markdown: &str, color: &str) -> (r: String)
    ensures
        r@ == "---\n"@ + yaml_edited(
            spec_extract_frontmatter(markdown@),
            if color@ == "default"@ {
                seq![EditView::Remove("color"@)]
            } else {
                seq![EditView::SetText("color"@, color@)]
            },
        ) + "---\n"@ + spec_skip_frontmatter(markdown@),
{
    let e = color_edit(color);
    let edits = vec![e];
    assert(edit_views(edits@) =~= seq![e.view_of()]);
    frontmatter_with_edits(markdown, edits)
}

} // verus!
