//! Card search: the words of a query, the full-text query sent to the
//! index, and the rank of a hit (lower ranks first).

use vstd::prelude::*;

use crate::text::{
    append, chars_of, contains, contains_exec, match_at, is_ws, is_ws_char, join, join_vec, push_line,
    replace_all, replace_vec, str_eq, string_of, string_views, trim, trim_vec, vec_eq, views,
};

verus! {

// ---------------------------------------------------------------------------
// Words
// ---------------------------------------------------------------------------

/// The whitespace-separated words of `s[i..]`, `cur` being the part of a
/// word read so far.
pub open spec fn words_from(s: Seq<char>, i: int, cur: Seq<char>) -> Seq<Seq<char>>
    decreases s.len() - i,
{
    if i < 0 || i >= s.len() {
        if cur.len() > 0 {
            seq![cur]
        } else {
            Seq::empty()
        }
    } else if is_ws(s[i]) {
        (if cur.len() > 0 {
            seq![cur]
        } else {
            Seq::empty()
        }) + words_from(s, i + 1, Seq::empty())
    } else {
        words_from(s, i + 1, cur.push(s[i]))
    }
}

/// The maximal runs of non-whitespace characters of `s`, in order.
pub open spec fn words(s: Seq<char>) -> Seq<Seq<char>> {
    words_from(s, 0, Seq::empty())
}

/// The whitespace-separated words of `s`.
pub fn split_words(s: &Vec<char>) -> (r: Vec<Vec<char>>)
    ensures
        views(r@) == words(s@),
{
    let mut r: Vec<Vec<char>> = Vec::new();
    let mut cur: Vec<char> = Vec::new();
    let mut i: usize = 0;
    while i < s.len()
        invariant
            i <= s.len(),
            views(r@) + words_from(s@, i as int, cur@) == words(s@),
        decreases s.len() - i,
    {
        let ghost before = views(r@);
        let ghost c0 = cur@;
        if is_ws_char(s[i]) {
            if cur.len() > 0 {
                push_line(&mut r, cur);
                assert(views(r@) + words_from(s@, i + 1, Seq::empty()) =~= before + (seq![c0]
                    + words_from(s@, i + 1, Seq::empty())));
            } else {
                assert(before + words_from(s@, i as int, c0) =~= before + words_from(
                    s@,
                    i + 1,
                    Seq::empty(),
                ));
            }
            cur = Vec::new();
        } else {
            cur.push(s[i]);
        }
        i = i + 1;
    }
    let ghost before = views(r@);
    if cur.len() > 0 {
        push_line(&mut r, cur);
        assert(views(r@) =~= before + seq![cur@]);
    } else {
        assert(before + Seq::<Seq<char>>::empty() =~= before);
    }
    r
}

// ---------------------------------------------------------------------------
// The full-text query
// ---------------------------------------------------------------------------

/// A word as a quoted phrase of the index, its own quotes removed.
pub open spec fn quoted(w: Seq<char>) -> Seq<char> {
    "\""@ + replace_all(w, "\""@, Seq::empty()) + "\""@
}

/// Each word quoted.
pub open spec fn quoted_words(ws: Seq<Seq<char>>) -> Seq<Seq<char>> {
    ws.map_values(|w: Seq<char>| quoted(w))
}

/// The index query for a search text: its words quoted and joined with
/// ` AND `; `None` for a text that is blank, which matches nothing.
pub open spec fn spec_fts_query(text: Seq<char>) -> Option<Seq<char>> {
    let t = trim(text);
    if t.len() == 0 {
        None
    } else {
        Some(join(quoted_words(words(t)), " AND "@))
    }
}

/// The index query for a search text.
pub fn fts_query(text: &str) -> (r: Option<String>)
    ensures
        r is None <==> spec_fts_query(text@) is None,
        r matches Some(q) ==> spec_fts_query(text@) == Some(q@),
{
    let t = trim_vec(&chars_of(text));
    if t.len() == 0 {
        return None;
    }
    let ws = split_words(&t);
    let quote = chars_of("\"");
    let nothing: Vec<char> = Vec::new();
    let mut parts: Vec<Vec<char>> = Vec::new();
    let mut i: usize = 0;
    while i < ws.len()
        invariant
            i <= ws.len(),
            quote@ == "\""@,
            nothing@ == Seq::<char>::empty(),
            views(parts@) == quoted_words(views(ws@)).take(i as int),
        decreases ws.len() - i,
    {
        let mut q = chars_of("\"");
        append(&mut q, &replace_vec(&ws[i], &quote, &nothing));
        append(&mut q, &quote);
        let ghost before = views(parts@);
        push_line(&mut parts, q);
        assert(views(ws@)[i as int] == ws@[i as int]@);
        assert(quoted_words(views(ws@)).take(i + 1) =~= before.push(quoted(ws@[i as int]@)));
        i = i + 1;
    }
    assert(quoted_words(views(ws@)).take(ws.len() as int) =~= quoted_words(views(ws@)));
    let q = join_vec(&parts, &chars_of(" AND "));
    Some(string_of(q.as_slice()))
}

// ---------------------------------------------------------------------------
// Rank of a hit
// ---------------------------------------------------------------------------

/// The lowercase form of a text (std's `str::to_lowercase`).
pub uninterp spec fn lowercase(s: Seq<char>) -> Seq<char>;

/// `str::to_lowercase`: the text with every character mapped to its
/// lowercase form as Unicode defines it.
#[verifier::external_body]
fn to_lowercase(s: &str) -> (r: String)
    ensures
        r@ == lowercase(s@),
{
    s.to_lowercase()
}

/// Every word occurs in `title`.
pub open spec fn all_in(ws: Seq<Seq<char>>, title: Seq<char>) -> bool {
    forall|k: int| 0 <= k < ws.len() ==> contains(title, #[trigger] ws[k])
}

/// The rank of a hit from its lowercase title and content and the lowercase
/// query: 0 the title is the query, 1 the title contains it, 2 the title
/// contains each of its words, 3 the content contains it, 4 otherwise.
pub open spec fn spec_rank(title: Seq<char>, content: Seq<char>, query: Seq<char>) -> usize {
    let ws = words(query);
    if title == query {
        0
    } else if contains(title, query) {
        1
    } else if ws.len() > 0 && all_in(ws, title) {
        2
    } else if contains(content, query) {
        3
    } else {
        4
    }
}

/// The rank of a hit, given its lowercase title and content and the
/// lowercase query.
pub fn rank_lowered(title: &str, content: &str, query: &str) -> (r: usize)
    ensures
        r == spec_rank(title@, content@, query@),
{
    let t = chars_of(title);
    let c = chars_of(content);
    let q = chars_of(query);
    if vec_eq(&t, &q) {
        return 0;
    }
    if contains_exec(&t, &q) {
        return 1;
    }
    let ws = split_words(&q);
    if ws.len() > 0 {
        let mut all = true;
        let mut k: usize = 0;
        while k < ws.len()
            invariant
                k <= ws.len(),
                all == all_in(views(ws@).take(k as int), t@),
            decreases ws.len() - k,
        {
            let found = contains_exec(&t, &ws[k]);
            assert(views(ws@)[k as int] == ws@[k as int]@);
            assert(views(ws@).take(k + 1) =~= views(ws@).take(k as int).push(ws@[k as int]@));
            proof {
                let a = views(ws@).take(k as int);
                let b = views(ws@).take(k + 1);
                if all_in(b, t@) {
                    assert forall|j: int| 0 <= j < a.len() implies contains(t@, #[trigger] a[j]) by {
                        assert(a[j] == b[j]);
                    }
                }
                if all_in(a, t@) && found {
                    assert forall|j: int| 0 <= j < b.len() implies contains(t@, #[trigger] b[j]) by {
                        if j < a.len() {
                            assert(a[j] == b[j]);
                        }
                    }
                }
                if !found {
                    assert(b[k as int] == ws@[k as int]@);
                }
            }
            all = all && found;
            k = k + 1;
        }
        assert(views(ws@).take(ws.len() as int) =~= views(ws@));
        if all {
            return 2;
        }
    }
    if contains_exec(&c, &q) {
        return 3;
    }
    4
}

/// The rank of a hit with this title and content for the search `text`:
/// all three are lowercased, the text after trimming.
pub fn search_rank(title: &str, content: &str, text: &str) -> (r: usize)
    ensures
        r == spec_rank(lowercase(title@), lowercase(content@), lowercase(trim(text@))),
{
    let t = to_lowercase(title);
    let c = to_lowercase(content);
    let trimmed = string_of(trim_vec(&chars_of(text)).as_slice());
    let q = to_lowercase(trimmed.as_str());
    rank_lowered(t.as_str(), c.as_str(), q.as_str())
}


// ---------------------------------------------------------------------------
// Order of cards fetched by id
// ---------------------------------------------------------------------------

/// The last position of `id` among the first `m` ids.
pub open spec fn last_pos(ids: Seq<Seq<char>>, id: Seq<char>, m: int) -> Option<int>
    decreases m,
{
    if m <= 0 {
        None
    } else if m <= ids.len() && ids[m - 1] == id {
        Some(m - 1)
    } else {
        last_pos(ids, id, m - 1)
    }
}

/// The positions among the first `n` cards whose id is `id`, ascending.
pub open spec fn matching(cards: Seq<Seq<char>>, id: Seq<char>, n: int) -> Seq<int>
    decreases n,
{
    if n <= 0 {
        Seq::empty()
    } else {
        matching(cards, id, n - 1) + if n - 1 < cards.len() && cards[n - 1] == id {
            seq![n - 1]
        } else {
            Seq::empty()
        }
    }
}

/// The cards grouped by the first `kk` ids: for each id at its last
/// position `k < kk`, in order of `k`, the cards with that id in their
/// fetched order.
pub open spec fn grouped(cards: Seq<Seq<char>>, ids: Seq<Seq<char>>, kk: int) -> Seq<int>
    decreases kk,
{
    if kk <= 0 {
        Seq::empty()
    } else {
        grouped(cards, ids, kk - 1) + if kk - 1 < ids.len() && last_pos(
            ids,
            ids[kk - 1],
            ids.len() as int,
        ) == Some(kk - 1) {
            matching(cards, ids[kk - 1], cards.len() as int)
        } else {
            Seq::empty()
        }
    }
}

/// The positions among the first `n` cards whose id is not listed.
pub open spec fn unlisted(cards: Seq<Seq<char>>, ids: Seq<Seq<char>>, n: int) -> Seq<int>
    decreases n,
{
    if n <= 0 {
        Seq::empty()
    } else {
        unlisted(cards, ids, n - 1) + if n - 1 < cards.len() && last_pos(
            ids,
            cards[n - 1],
            ids.len() as int,
        ) is None {
            seq![n - 1]
        } else {
            Seq::empty()
        }
    }
}

/// The cards in order of the requested ids: each card is ranked by the last
/// position of its id in `ids`, unlisted cards last, and cards of equal rank
/// keep their order.
pub open spec fn spec_id_order(cards: Seq<Seq<char>>, ids: Seq<Seq<char>>) -> Seq<int> {
    grouped(cards, ids, ids.len() as int) + unlisted(cards, ids, cards.len() as int)
}

/// The last position of `id` in `ids`.
fn last_position(ids: &Vec<String>, id: &str) -> (r: Option<usize>)
    ensures
        r is None <==> last_pos(string_views(ids@), id@, ids.len() as int) is None,
        r matches Some(k) ==> last_pos(string_views(ids@), id@, ids.len() as int) == Some(
            k as int,
        ) && k < ids.len(),
{
    let ghost g = string_views(ids@);
    let mut m: usize = ids.len();
    while m > 0
        invariant
            m <= ids.len(),
            g == string_views(ids@),
            last_pos(g, id@, ids.len() as int) == last_pos(g, id@, m as int),
        decreases m,
    {
        assert(g[m - 1] == ids@[m - 1]@);
        if str_eq(ids[m - 1].as_str(), id) {
            return Some(m - 1);
        }
        m = m - 1;
    }
    None
}

/// Pushes `x` onto an index vector, as a sequence of integers.
fn push_index(v: &mut Vec<usize>, x: usize)
    ensures
        final(v)@.map_values(|i: usize| i as int) == old(v)@.map_values(|i: usize| i as int).push(
            x as int,
        ),
{
    let ghost before = v@.map_values(|i: usize| i as int);
    v.push(x);
    assert(v@.map_values(|i: usize| i as int) =~= before.push(x as int));
}

/// The order in which cards fetched for the list `ids` are returned, as
/// positions into `card_ids` (the cards' ids in fetched order).
pub fn order_by_ids(card_ids: &Vec<String>, ids: &Vec<String>) -> (r: Vec<usize>)
    ensures
        r@.map_values(|i: usize| i as int) == spec_id_order(
            string_views(card_ids@),
            string_views(ids@),
        ),
{
    let ghost cs = string_views(card_ids@);
    let ghost is = string_views(ids@);
    let mut r: Vec<usize> = Vec::new();
    let mut k: usize = 0;
    while k < ids.len()
        invariant
            k <= ids.len(),
            cs == string_views(card_ids@),
            is == string_views(ids@),
            r@.map_values(|i: usize| i as int) == grouped(cs, is, k as int),
        decreases ids.len() - k,
    {
        assert(is[k as int] == ids@[k as int]@);
        let lp = last_position(ids, ids[k].as_str());
        if lp == Some(k) {
            let mut j: usize = 0;
            let ghost base = r@.map_values(|i: usize| i as int);
            while j < card_ids.len()
                invariant
                    j <= card_ids.len(),
                    k < ids.len(),
                    cs == string_views(card_ids@),
                    is == string_views(ids@),
                    r@.map_values(|i: usize| i as int) == base + matching(cs, is[k as int], j as int),
                decreases card_ids.len() - j,
            {
                assert(cs[j as int] == card_ids@[j as int]@);
                assert(is[k as int] == ids@[k as int]@);
                let ghost before = r@.map_values(|i: usize| i as int);
                if str_eq(card_ids[j].as_str(), ids[k].as_str()) {
                    push_index(&mut r, j);
                    assert(base + matching(cs, is[k as int], j + 1) =~= before.push(j as int));
                } else {
                    assert(base + matching(cs, is[k as int], j + 1) =~= before);
                }
                j = j + 1;
            }
            assert(grouped(cs, is, k + 1) =~= grouped(cs, is, k as int) + matching(
                cs,
                is[k as int],
                cs.len() as int,
            ));
        } else {
            assert(grouped(cs, is, k + 1) =~= grouped(cs, is, k as int));
        }
        k = k + 1;
    }
    let ghost g = r@.map_values(|i: usize| i as int);
    let mut j: usize = 0;
    while j < card_ids.len()
        invariant
            j <= card_ids.len(),
            cs == string_views(card_ids@),
            is == string_views(ids@),
            r@.map_values(|i: usize| i as int) == g + unlisted(cs, is, j as int),
        decreases card_ids.len() - j,
    {
        assert(cs[j as int] == card_ids@[j as int]@);
        let ghost before = r@.map_values(|i: usize| i as int);
        if last_position(ids, card_ids[j].as_str()).is_none() {
            push_index(&mut r, j);
            assert(g + unlisted(cs, is, j + 1) =~= before.push(j as int));
        } else {
            assert(g + unlisted(cs, is, j + 1) =~= before);
        }
        j = j + 1;
    }
    r
}

// ---------------------------------------------------------------------------
// Laws of the rank
// ---------------------------------------------------------------------------

/// How a hit ranks, whatever its content: a title equal to the query ranks
/// 0, a title holding the query at most 1, a title holding every word of a
/// query with words at most 2; a rank of 3 means the title misses a word and
/// the content holds the query, a rank of 4 that neither holds it. Ranks up
/// to 2 are decided by the title alone: any content gives the same rank.
pub proof fn law_rank_orders_title_before_content(
    title: Seq<char>,
    content: Seq<char>,
    other_content: Seq<char>,
    query: Seq<char>,
)
    ensures
        title == query ==> spec_rank(title, content, query) == 0,
        contains(title, query) ==> spec_rank(title, content, query) <= 1,
        words(query).len() > 0 && (forall|k: int|
            0 <= k < words(query).len() ==> contains(title, #[trigger] words(query)[k]))
            ==> spec_rank(title, content, query) <= 2,
        spec_rank(title, content, query) == 3 ==> contains(content, query) && !contains(
            title,
            query,
        ),
        spec_rank(title, content, query) == 4 ==> !contains(content, query) && !contains(
            title,
            query,
        ),
        spec_rank(title, content, query) <= 2 ==> spec_rank(title, other_content, query)
            == spec_rank(title, content, query),
        spec_rank(title, content, query) <= 4,
{
    if title == query {
        assert(match_at(title, query, 0)) by {
            assert(title.subrange(0, query.len() as int) =~= query);
        }
    }
}

} // verus!
