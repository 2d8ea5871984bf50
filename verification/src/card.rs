//! Atomic cards: rewriting a card's title and body in its markdown, the
//! full-text query a search sends, the rank of a search hit, and the order
//! of cards fetched by a list of ids.

use vstd::prelude::*;

use crate::errors::KeysightError;
use crate::parser::{
    ParsedEntity, first_h1_from, h1_title, is_h1, markers_removed, normalize_legacy_toggle_syntax,
    spec_normalize_toggle, spec_title_and_body,
};
use crate::text::{
    append, chars_of, contains, is_ws, join, join_vec, lemma_lines_clean, lemma_lines_cons, lemma_lines_no_nl, lemma_lines_of_joined,
    lemma_lines_of_joined_cr, lemma_trim_end_keeps, strip_cr,
    lemma_replace_absent, lemma_replace_shift, lines, lines_vec, match_at, push_line,
    replace_all, starts_with_exec, str_eq, string_of, subvec, trim, trim_start, trim_vec, views,
};

verus! {

// ---------------------------------------------------------------------------
// Title and body of a card's markdown
// ---------------------------------------------------------------------------

/// The H1 line of a card titled `title`.
pub open spec fn card_heading(title: Seq<char>) -> Seq<char> {
    "# 【ATC】"@ + title
}

/// The markdown with its first H1 line replaced by the card heading for
/// `title` (or the heading appended when there is none), lines joined with
/// `\n` and ended by one.
pub open spec fn spec_rewrite_card_title(content: Seq<char>, title: Seq<char>) -> Seq<char> {
    let ls = lines(content);
    let ls2 = match first_h1_from(ls, 0) {
        Some(k) => ls.update(k, card_heading(title)),
        None => ls.push(card_heading(title)),
    };
    join(ls2, "\n"@) + "\n"@
}

/// Index of the first H1 line.
fn find_h1(ls: &Vec<Vec<char>>) -> (r: Option<usize>)
    ensures
        r matches Some(j) ==> j < ls.len() && first_h1_from(views(ls@), 0) == Some(j as int),
        r is None ==> first_h1_from(views(ls@), 0) is None,
{
    let ghost gl = views(ls@);
    let h1 = chars_of("# ");
    let mut i: usize = 0;
    while i < ls.len()
        invariant
            i <= ls.len(),
            gl == views(ls@),
            h1@ == "# "@,
            first_h1_from(gl, 0) == first_h1_from(gl, i as int),
        decreases ls.len() - i,
    {
        let tl = trim_vec(&ls[i]);
        assert(gl[i as int] == ls@[i as int]@);
        if starts_with_exec(&tl, &h1) {
            assert(first_h1_from(gl, i as int) == Some(i as int));
            return Some(i);
        }
        i = i + 1;
    }
    None
}

/// Sets the title of a card's markdown: the first H1 line becomes
/// `# 【ATC】{title}`, or that line is added at the end.
pub fn rewrite_card_title_markdown(content: &str, new_title: &str) -> (r: String)
    ensures
        r@ == spec_rewrite_card_title(content@, new_title@),
{
    let mut ls = lines_vec(&chars_of(content));
    let ghost gl = views(ls@);
    let mut heading = chars_of("# 【ATC】");
    append(&mut heading, &chars_of(new_title));
    match find_h1(&ls) {
        Some(k) => {
            ls.set(k, heading);
            assert(views(ls@) =~= gl.update(k as int, card_heading(new_title@)));
        },
        None => {
            push_line(&mut ls, heading);
        },
    }
    let mut out = join_vec(&ls, &chars_of("\n"));
    append(&mut out, &chars_of("\n"));
    string_of(out.as_slice())
}

/// The markdown of a card whose body is replaced: everything up to and
/// including the first H1 line (or the whole markdown when there is none),
/// a blank line, and the new body with its legacy toggles rewritten.
pub open spec fn spec_replace_card_body(content: Seq<char>, new_body: Seq<char>) -> Seq<char> {
    let ls = lines(content);
    let prefix = match first_h1_from(ls, 0) {
        Some(k) => join(ls.take(k + 1), "\n"@),
        None => content,
    };
    prefix + "\n\n"@ + spec_normalize_toggle(new_body)
}

/// The body stored for a card after an edit: legacy toggles rewritten.
pub fn normalized_card_body(new_body: &str) -> (r: String)
    ensures
        r@ == spec_normalize_toggle(new_body@),
{
    normalize_legacy_toggle_syntax(new_body)
}

/// Replaces the body of a card's markdown, keeping everything up to the
/// heading.
pub fn replace_card_body_markdown(content: &str, new_body: &str) -> (r: String)
    ensures
        r@ == spec_replace_card_body(content@, new_body@),
{
    let body = normalize_legacy_toggle_syntax(new_body);
    let c = chars_of(content);
    let ls = lines_vec(&c);
    let mut out = match find_h1(&ls) {
        Some(k) => {
            let mut head: Vec<Vec<char>> = Vec::new();
            let mut j: usize = 0;
            while j <= k
                invariant
                    j <= k + 1,
                    k < ls.len(),
                    views(head@) == views(ls@).take(j as int),
                decreases k + 1 - j,
            {
                let ghost before = views(head@);
                let l = subvec(&ls[j], 0, ls[j].len());
                assert(ls@[j as int]@.subrange(0, ls@[j as int]@.len() as int) =~= ls@[j as int]@);
                head.push(l);
                assert(views(head@) =~= before.push(ls@[j as int]@));
                assert(views(ls@).take(j + 1) =~= views(ls@).take(j as int).push(ls@[j as int]@));
                j = j + 1;
            }
            join_vec(&head, &chars_of("\n"))
        },
        None => c,
    };
    append(&mut out, &chars_of("\n\n"));
    append(&mut out, &chars_of(body.as_str()));
    string_of(out.as_slice())
}

/// The title a card is renamed to: trimmed, and not empty.
pub fn card_title_for_edit(new_title: &str) -> (r: Result<String, KeysightError>)
    ensures
        trim(new_title@).len() == 0 <==> r is Err,
        r matches Err(e) ==> e == KeysightError::EmptyTitle,
        r matches Ok(s) ==> s@ == trim(new_title@),
{
    crate::naming::validate_title(new_title)
}

/// The color stored for a card: `"default"` clears it.
pub fn stored_card_color(color: &str) -> (r: Option<String>)
    ensures
        color@ == "default"@ ==> r is None,
        color@ != "default"@ ==> (r matches Some(c) && c@ == color@),
{
    if str_eq(color, "default") {
        None
    } else {
        Some(color.to_string())
    }
}


/// What cleaning a card's title needs: the rewritten markdown when the file
/// changes, and whether the stored title changes. Neither means the card is
/// already clean.
#[derive(Debug, Clone, PartialEq, Eq)]
pub struct TitleCleanup {
    pub rewritten: Option<String>,
    pub update_db: bool,
}

/// The cleanup of a card whose markdown is `content`, whose title as parsed
/// from that markdown is `clean_title`, and whose stored title is `db_title`.
pub fn title_cleanup(content: &str, clean_title: &str, db_title: &str) -> (r: TitleCleanup)
    ensures
        r.rewritten is Some <==> spec_rewrite_card_title(content@, clean_title@) != content@,
        r.rewritten matches Some(m) ==> m@ == spec_rewrite_card_title(content@, clean_title@),
        r.update_db <==> db_title@ != clean_title@,
{
    let updated = rewrite_card_title_markdown(content, clean_title);
    let file_changed = !str_eq(updated.as_str(), content);
    let db_changed = !str_eq(db_title, clean_title);
    TitleCleanup { rewritten: if file_changed { Some(updated) } else { None }, update_db: db_changed }
}

/// The cleanup of one indexed card during a cleanup pass: `content` is its
/// file, `parsed` that file read as an entity, `db_title` its stored title.
/// A file that is not a card, or a card already clean, needs nothing.
pub fn plan_card_cleanup(content: &str, parsed: &Option<ParsedEntity>, db_title: &str) -> (r: Option<
    TitleCleanup,
>)
    ensures
        r is Some <==> (parsed matches Some(p) && p.entity_type@ == "atomic-card"@ && (
        spec_rewrite_card_title(content@, p.title@) != content@ || db_title@ != p.title@)),
        r matches Some(c) ==> (parsed matches Some(p) && c.update_db == (db_title@ != p.title@) && (
        c.rewritten is Some <==> spec_rewrite_card_title(content@, p.title@) != content@) && (
        c.rewritten matches Some(m) ==> m@ == spec_rewrite_card_title(content@, p.title@))),
{
    match parsed {
        None => None,
        Some(p) => {
            if !str_eq(p.entity_type.as_str(), "atomic-card") {
                return None;
            }
            let c = title_cleanup(content, p.title.as_str(), db_title);
            if c.rewritten.is_none() && !c.update_db {
                None
            } else {
                Some(c)
            }
        },
    }
}

// ---------------------------------------------------------------------------
// Reading a rewritten title back
// ---------------------------------------------------------------------------

proof fn lemma_first_h1_facts(ls: Seq<Seq<char>>, i: int)
    requires
        0 <= i,
    ensures
        first_h1_from(ls, i) matches Some(k) ==> i <= k < ls.len() && is_h1(ls[k]) && forall|
            j: int,
        | i <= j < k ==> !is_h1(ls[j]),
        first_h1_from(ls, i) is None ==> forall|j: int| i <= j < ls.len() ==> !is_h1(ls[j]),
    decreases ls.len() - i,
{
    if i < ls.len() && !is_h1(ls[i]) {
        lemma_first_h1_facts(ls, i + 1);
    }
}

proof fn lemma_first_h1_at(ls: Seq<Seq<char>>, i: int, k: int)
    requires
        0 <= i <= k < ls.len(),
        is_h1(ls[k]),
        forall|j: int| i <= j < k ==> !is_h1(ls[j]),
    ensures
        first_h1_from(ls, i) == Some(k),
    decreases k - i,
{
    if i < k {
        lemma_first_h1_at(ls, i + 1, k);
    }
}

/// Text with neither leading nor trailing whitespace is its own trim.
proof fn lemma_trim_clean(t: Seq<char>)
    requires
        t.len() > 0 ==> !is_ws(t[0]) && !is_ws(t.last()),
    ensures
        trim(t) == t,
{
    assert(trim_start(t) == t);
}

/// Removing a marker that does not occur keeps the text.
proof fn lemma_remove_absent(t: Seq<char>, p: Seq<char>)
    requires
        p.len() > 0,
        !contains(t, p),
    ensures
        replace_all(t, p, Seq::empty()) == t,
{
    assert forall|j: int| 0 <= j implies !match_at(t, p, j) by {
        if match_at(t, p, j) {
            assert(contains(t, p));
        }
    }
    lemma_replace_absent(t, p, Seq::empty(), 0);
    assert(t.skip(0) =~= t);
}

/// After a title is rewritten, reading the title of the markdown gives the
/// new title back, for markdown without carriage returns and a title on one
/// line, without surrounding whitespace and without file markers.
pub proof fn law_rewritten_title_reads_back(text: Seq<char>, title: Seq<char>)
    requires
        forall|j: int| 0 <= j < text.len() ==> text[j] != '\r',
        forall|j: int| 0 <= j < title.len() ==> title[j] != '\n' && title[j] != '\r',
        title.len() > 0 ==> !is_ws(title[0]) && !is_ws(title.last()),
        !contains(title, "【ATC】"@),
        !contains(title, "【NOTE】"@),
        !contains(title, "【TASK】"@),
        !contains(title, "【QUE】"@),
    ensures
        spec_title_and_body(spec_rewrite_card_title(text, title)).0 == title,
{
    reveal_strlit("# 【ATC】");
    reveal_strlit("【ATC】");
    reveal_strlit("【NOTE】");
    reveal_strlit("【TASK】");
    reveal_strlit("【QUE】");
    reveal_strlit("# ");
    let ls = lines(text);
    let h = card_heading(title);
    lemma_lines_clean(text, 0);
    lemma_first_h1_facts(ls, 0);
    let k = match first_h1_from(ls, 0) {
        Some(k) => k,
        None => ls.len() as int,
    };
    let ls2 = match first_h1_from(ls, 0) {
        Some(k) => ls.update(k, h),
        None => ls.push(h),
    };
    assert(ls2.len() > 0 && 0 <= k < ls2.len() && ls2[k] == h);
    assert forall|a: int, j: int| 0 <= a < ls2.len() && 0 <= j < ls2[a].len() implies ls2[a][j]
        != '\n' && ls2[a][j] != '\r' by {
        if a == k {
            if j >= 7 {
                assert(h[j] == title[j - 7]);
            }
        } else {
            assert(ls2[a] == ls[a]);
        }
    }
    lemma_lines_of_joined(ls2);
    assert(lines(spec_rewrite_card_title(text, title)) == ls2);
    // the heading is the first H1 line
    assert(trim(h) == h) by {
        lemma_trim_clean(h);
    }
    assert(h.subrange(0, 2) =~= "# "@);
    assert(is_h1(h));
    assert forall|j: int| 0 <= j < k implies !is_h1(ls2[j]) by {
        assert(ls2[j] == ls[j]);
    }
    lemma_first_h1_at(ls2, 0, k);
    // its title is the new title
    let atc = "【ATC】"@;
    let after = h.skip(2);
    assert(after =~= atc + title);
    assert(match_at(after, atc, 0)) by {
        assert(after.subrange(0, 5) =~= atc);
    }
    lemma_replace_shift(atc, title, atc, Seq::empty(), 0);
    lemma_remove_absent(title, atc);
    assert(replace_all(after, atc, Seq::empty()) == title) by {
        assert(Seq::<char>::empty() + title =~= title);
    }
    lemma_remove_absent(title, "【NOTE】"@);
    lemma_remove_absent(title, "【TASK】"@);
    lemma_remove_absent(title, "【QUE】"@);
    assert(markers_removed(after) == title);
    lemma_trim_clean(title);
    assert(h1_title(h) == title);
}

/// One of the file markers written after `# ` in an entity's heading.
pub open spec fn is_file_marker(m: Seq<char>) -> bool {
    m == "【ATC】"@ || m == "【NOTE】"@ || m == "【TASK】"@ || m == "【QUE】"@
}

proof fn lemma_marker_shape(m: Seq<char>)
    requires
        is_file_marker(m),
    ensures
        m.len() >= 5,
        m[0] == '【',
        !is_ws(m.last()),
        forall|i: int| 1 <= i < m.len() ==> m[i] != '【',
        forall|i: int| 0 <= i < m.len() ==> m[i] != '\n',
        m == "【ATC】"@ ==> m[1] == 'A',
        m == "【NOTE】"@ ==> m[1] == 'N',
        m == "【TASK】"@ ==> m[1] == 'T',
        m == "【QUE】"@ ==> m[1] == 'Q',
{
    reveal_strlit("【ATC】");
    reveal_strlit("【NOTE】");
    reveal_strlit("【TASK】");
    reveal_strlit("【QUE】");
}

/// Removing the marker `p` from `m + t`, `m` a marker and `t` free of `p`,
/// removes `m` when it is `p` and changes nothing otherwise.
proof fn lemma_strip_marker(m: Seq<char>, p: Seq<char>, t: Seq<char>)
    requires
        is_file_marker(m),
        is_file_marker(p),
        !contains(t, p),
    ensures
        replace_all(m + t, p, Seq::empty()) == (if m == p {
            t
        } else {
            m + t
        }),
        replace_all(t, p, Seq::empty()) == t,
{
    lemma_marker_shape(m);
    lemma_marker_shape(p);
    lemma_remove_absent(t, p);
    let s = m + t;
    if m == p {
        assert(match_at(s, p, 0)) by {
            assert(s.subrange(0, p.len() as int) =~= p);
        }
        lemma_replace_shift(m, t, p, Seq::empty(), 0);
        assert(Seq::<char>::empty() + t =~= t);
    } else {
        assert(m[1] != p[1]);
        assert forall|j: int| 0 <= j implies !match_at(s, p, j) by {
            if match_at(s, p, j) {
                let w = s.subrange(j, j + p.len());
                assert(w[0] == s[j] && w[0] == p[0]);
                if j == 0 {
                    assert(w[1] == s[1] && s[1] == m[1]);
                } else if j < m.len() {
                    assert(s[j] == m[j]);
                } else {
                    assert(w =~= t.subrange(j - m.len(), j - m.len() + p.len()));
                    assert(match_at(t, p, j - m.len()));
                }
            }
        }
        lemma_replace_absent(s, p, Seq::empty(), 0);
        assert(s.skip(0) =~= s);
    }
}

/// Blank lines before a text read as that many empty lines.
proof fn lemma_lines_after_blank(n: nat, x: Seq<char>)
    ensures
        lines(Seq::new(n, |i: int| '\n') + x) == Seq::new(n, |i: int| Seq::<char>::empty()) + lines(x),
    decreases n,
{
    reveal_strlit("\n");
    if n > 0 {
        let rest = Seq::new((n - 1) as nat, |i: int| '\n') + x;
        lemma_lines_after_blank((n - 1) as nat, x);
        lemma_lines_cons(Seq::empty(), rest);
        assert(Seq::new(n, |i: int| '\n') + x =~= Seq::<char>::empty() + "\n"@ + rest);
        assert(strip_cr(Seq::<char>::empty()) == Seq::<char>::empty());
        assert(seq![Seq::<char>::empty()] + (Seq::new((n - 1) as nat, |i: int| Seq::<char>::empty())
            + lines(x)) =~= Seq::new(n, |i: int| Seq::<char>::empty()) + lines(x));
    }
}

/// The heading an entity file carries, `# ` then one of the four file
/// markers (【ATC】, 【NOTE】, 【TASK】, 【QUE】) then the title, reads back as
/// the title alone, after any number of blank lines and whatever follows
/// it: for a title on one line, without surrounding whitespace and without
/// file markers.
pub proof fn law_marked_heading_reads_back(
    blank_lines: nat,
    marker: Seq<char>,
    title: Seq<char>,
    rest: Seq<char>,
)
    requires
        is_file_marker(marker),
        forall|j: int| 0 <= j < title.len() ==> title[j] != '\n' && title[j] != '\r',
        title.len() > 0 ==> !is_ws(title[0]) && !is_ws(title.last()),
        !contains(title, "【ATC】"@),
        !contains(title, "【NOTE】"@),
        !contains(title, "【TASK】"@),
        !contains(title, "【QUE】"@),
    ensures
        spec_title_and_body(
            Seq::new(blank_lines, |i: int| '\n') + "# "@ + marker + title + "\n"@ + rest,
        ).0 == title,
{
    reveal_strlit("# ");
    reveal_strlit("\n");
    lemma_marker_shape(marker);
    let h = "# "@ + marker + title;
    assert forall|j: int| 0 <= j < h.len() implies h[j] != '\n' by {
        if j >= 2 + marker.len() {
            assert(h[j] == title[j - 2 - marker.len()]);
        } else if j >= 2 {
            assert(h[j] == marker[j - 2]);
        } else {
            assert(h[j] == "# "@[j]);
        }
    }
    lemma_lines_cons(h, rest);
    assert(strip_cr(h) == h) by {
        if title.len() > 0 {
            assert(h.last() == title.last());
        } else {
            assert(h.last() == marker.last());
        }
    }
    lemma_lines_after_blank(blank_lines, h + "\n"@ + rest);
    let text = Seq::new(blank_lines, |i: int| '\n') + "# "@ + marker + title + "\n"@ + rest;
    assert(text =~= Seq::new(blank_lines, |i: int| '\n') + (h + "\n"@ + rest));
    let ls = lines(text);
    assert(ls =~= Seq::new(blank_lines, |i: int| Seq::<char>::empty()) + (seq![h] + lines(rest)));
    let k = blank_lines as int;
    assert(ls[k] == h);
    // the heading is the first H1 line
    assert(trim(h) == h) by {
        assert(h[0] == '#');
        if title.len() > 0 {
            assert(h.last() == title.last());
        } else {
            assert(h.last() == marker.last());
        }
        lemma_trim_clean(h);
    }
    assert(h.subrange(0, 2) =~= "# "@);
    assert(is_h1(h));
    assert forall|j: int| 0 <= j < k implies !is_h1(ls[j]) by {
        assert(ls[j] == Seq::<char>::empty());
        assert(trim_start(Seq::<char>::empty()) == Seq::<char>::empty());
    }
    lemma_first_h1_at(ls, 0, k);
    // its title is the title
    let after = h.skip(2);
    assert(after =~= marker + title);
    lemma_strip_marker(marker, "【ATC】"@, title);
    lemma_strip_marker(marker, "【NOTE】"@, title);
    lemma_strip_marker(marker, "【TASK】"@, title);
    lemma_strip_marker(marker, "【QUE】"@, title);
    assert(markers_removed(after) == title);
    lemma_trim_clean(title);
    assert(h1_title(h) == title);
}

/// A line that ends with a carriage return.
pub open spec fn ends_cr(l: Seq<char>) -> bool {
    l.len() > 0 && l.last() == '\r'
}

/// The card heading stays an H1 line when a final carriage return is cut.
proof fn lemma_heading_is_h1(title: Seq<char>)
    ensures
        is_h1(card_heading(title)),
        is_h1(strip_cr(card_heading(title))),
{
    reveal_strlit("# 【ATC】");
    reveal_strlit("# ");
    let h = card_heading(title);
    let y = strip_cr(h);
    assert(h[0] == '#' && h[1] == ' ' && h[2] == '【');
    assert(y[0] == '#' && y[1] == ' ' && y[2] == '【');
    assert(trim_start(h) == h);
    assert(trim_start(y) == y);
    lemma_trim_end_keeps(h, 2);
    lemma_trim_end_keeps(y, 2);
    assert(trim(h).subrange(0, 2) =~= "# "@);
    assert(trim(y).subrange(0, 2) =~= "# "@);
}

/// Rewriting a card's title a second time with the same title changes
/// nothing, for a title on one line and markdown whose lines do not end with
/// a carriage return (its first H1 line, which is replaced, aside).
pub proof fn law_rewrite_card_title_idempotent(text: Seq<char>, title: Seq<char>)
    requires
        forall|j: int| 0 <= j < title.len() ==> title[j] != '\n',
        forall|j: int|
            0 <= j < lines(text).len() && ends_cr(#[trigger] lines(text)[j]) ==> first_h1_from(
                lines(text),
                0,
            ) == Some(j),
    ensures
        spec_rewrite_card_title(spec_rewrite_card_title(text, title), title)
            == spec_rewrite_card_title(text, title),
{
    reveal_strlit("# 【ATC】");
    let ls = lines(text);
    let h = card_heading(title);
    lemma_lines_no_nl(text, 0);
    lemma_first_h1_facts(ls, 0);
    let k = match first_h1_from(ls, 0) {
        Some(k) => k,
        None => ls.len() as int,
    };
    let ls2 = match first_h1_from(ls, 0) {
        Some(k) => ls.update(k, h),
        None => ls.push(h),
    };
    assert(ls2.len() > 0 && 0 <= k < ls2.len() && ls2[k] == h);
    assert forall|a: int, j: int| 0 <= a < ls2.len() && 0 <= j < ls2[a].len() implies ls2[a][j]
        != '\n' by {
        if a == k {
            if j >= 7 {
                assert(h[j] == title[j - 7]);
            }
        } else {
            assert(ls2[a] == ls[a]);
        }
    }
    let r1 = spec_rewrite_card_title(text, title);
    lemma_lines_of_joined_cr(ls2);
    let ls2c = ls2.map_values(|l: Seq<char>| strip_cr(l));
    assert(lines(r1) == ls2c);
    // lines other than the heading come back unchanged
    assert forall|j: int| 0 <= j < ls2.len() && j != k implies ls2c[j] == ls2[j] by {
        assert(ls2[j] == ls[j]);
        if ends_cr(ls[j]) {
            assert(first_h1_from(ls, 0) == Some(j));
        }
        assert(!ends_cr(ls2[j]));
    }
    lemma_heading_is_h1(title);
    assert(is_h1(ls2c[k]));
    assert forall|j: int| 0 <= j < k implies !is_h1(ls2c[j]) by {
        assert(ls2c[j] == ls2[j]);
        assert(ls2[j] == ls[j]);
    }
    lemma_first_h1_at(ls2c, 0, k);
    assert(ls2c.update(k, h) =~= ls2);
}

} // verus!
