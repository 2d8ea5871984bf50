//! The overview of all whiteboards, built from the index's entity rows
//! `(id, kind, whiteboard_id, title, file_path)` and edge rows
//! `(to_id, edge_type)`.
//!
//! Whiteboards come in the order they first appear among the entity rows,
//! and each whiteboard's cards in row order: reading the rows ordered by
//! whiteboard and title gives the whiteboards in ascending order and each
//! whiteboard's cards by title.

use vstd::prelude::*;

use crate::models::{CardSummary, GraphOverviewResponse, WhiteboardOverview};
use crate::text::{str_eq, string_views};

verus! {

pub open spec fn entity_views(rows: Seq<(String, String, String, String, String)>) -> Seq<
    (Seq<char>, Seq<char>, Seq<char>, Seq<char>, Seq<char>),
> {
    rows.map_values(|r: (String, String, String, String, String)| (r.0@, r.1@, r.2@, r.3@, r.4@))
}

pub open spec fn link_views(rows: Seq<(String, String)>) -> Seq<(Seq<char>, Seq<char>)> {
    rows.map_values(|r: (String, String)| (r.0@, r.1@))
}

/// `a` sorts strictly before `b` in code-point order, the order of SQLite's
/// binary collation on UTF-8 text.
pub open spec fn text_lt(a: Seq<char>, b: Seq<char>) -> bool
    decreases a.len(),
{
    if a.len() == 0 {
        b.len() > 0
    } else if b.len() == 0 {
        false
    } else if a[0] != b[0] {
        (a[0] as u32) < (b[0] as u32)
    } else {
        text_lt(a.drop_first(), b.drop_first())
    }
}

/// `a` sorts before `b` or equals it.
pub open spec fn text_le(a: Seq<char>, b: Seq<char>) -> bool {
    a == b || text_lt(a, b)
}

/// Row `a` comes before row `b` ordered by whiteboard, then title.
pub open spec fn row_before(
    a: (Seq<char>, Seq<char>, Seq<char>, Seq<char>, Seq<char>),
    b: (Seq<char>, Seq<char>, Seq<char>, Seq<char>, Seq<char>),
) -> bool {
    text_lt(a.2, b.2) || (a.2 == b.2 && text_le(a.3, b.3))
}

/// The rows are ordered by whiteboard, then title.
pub open spec fn rows_sorted(rows: Seq<(Seq<char>, Seq<char>, Seq<char>, Seq<char>, Seq<char>)>) -> bool {
    forall|i: int, j: int| 0 <= i < j < rows.len() ==> row_before(#[trigger] rows[i], #[trigger] rows[j])
}

/// The whiteboards of the entity rows, each once, in order of first
/// appearance.
pub open spec fn whiteboards_of(rows: Seq<(Seq<char>, Seq<char>, Seq<char>, Seq<char>, Seq<char>)>) -> Seq<
    Seq<char>,
>
    decreases rows.len(),
{
    if rows.len() == 0 {
        Seq::empty()
    } else {
        let prev = whiteboards_of(rows.drop_last());
        if prev.contains(rows.last().2) {
            prev
        } else {
            prev.push(rows.last().2)
        }
    }
}

/// The number of entity rows of kind `kind` on whiteboard `wb`.
pub open spec fn kind_count(
    rows: Seq<(Seq<char>, Seq<char>, Seq<char>, Seq<char>, Seq<char>)>,
    wb: Seq<char>,
    kind: Seq<char>,
) -> nat
    decreases rows.len(),
{
    if rows.len() == 0 {
        0
    } else {
        kind_count(rows.drop_last(), wb, kind) + if rows.last().2 == wb && rows.last().1 == kind {
            1nat
        } else {
            0nat
        }
    }
}

/// The card rows of whiteboard `wb`, in row order.
pub open spec fn cards_on(rows: Seq<(Seq<char>, Seq<char>, Seq<char>, Seq<char>, Seq<char>)>, wb: Seq<char>) -> Seq<
    (Seq<char>, Seq<char>, Seq<char>, Seq<char>, Seq<char>),
>
    decreases rows.len(),
{
    if rows.len() == 0 {
        Seq::empty()
    } else {
        let prev = cards_on(rows.drop_last(), wb);
        if rows.last().2 == wb && rows.last().1 == "card"@ {
            prev.push(rows.last())
        } else {
            prev
        }
    }
}

/// The number of `link_to` edges whose target is `id`.
pub open spec fn incoming_links(links: Seq<(Seq<char>, Seq<char>)>, id: Seq<char>) -> nat
    decreases links.len(),
{
    if links.len() == 0 {
        0
    } else {
        incoming_links(links.drop_last(), id) + if links.last().0 == id && links.last().1
            == "link_to"@ {
            1nat
        } else {
            0nat
        }
    }
}

/// The summary of the card row `row`.
pub open spec fn summary_of(
    s: CardSummary,
    row: (Seq<char>, Seq<char>, Seq<char>, Seq<char>, Seq<char>),
    links: Seq<(Seq<char>, Seq<char>)>,
) -> bool {
    &&& s.id@ == row.0
    &&& s.title@ == row.3
    &&& s.file_path@ == row.4
    &&& s.incoming_link_count == incoming_links(links, row.0)
}

/// The overview of whiteboard `wb`: its counts of cards, sections, notes
/// and aliases, and a summary of each of its cards in row order.
pub open spec fn overview_of(
    o: WhiteboardOverview,
    rows: Seq<(Seq<char>, Seq<char>, Seq<char>, Seq<char>, Seq<char>)>,
    links: Seq<(Seq<char>, Seq<char>)>,
    wb: Seq<char>,
) -> bool {
    &&& o.whiteboard_id@ == wb
    &&& o.cards == kind_count(rows, wb, "card"@)
    &&& o.sections == kind_count(rows, wb, "section"@)
    &&& o.notes == kind_count(rows, wb, "note"@)
    &&& o.aliases == kind_count(rows, wb, "alias"@)
    &&& o.card_summaries@.len() == cards_on(rows, wb).len()
    &&& forall|j: int|
        0 <= j < o.card_summaries@.len() ==> summary_of(
            #[trigger] o.card_summaries@[j],
            cards_on(rows, wb)[j],
            links,
        )
}

/// The number of `link_to` edges into `id`.
fn count_incoming(links: &Vec<(String, String)>, id: &str) -> (r: u64)
    ensures
        r == incoming_links(link_views(links@), id@),
{
    let ghost lv = link_views(links@);
    let mut n: u64 = 0;
    let mut i: usize = 0;
    while i < links.len()
        invariant
            i <= links.len(),
            lv == link_views(links@),
            n == incoming_links(lv.take(i as int), id@),
            n <= i,
        decreases links.len() - i,
    {
        assert(lv.take(i + 1).drop_last() =~= lv.take(i as int));
        if str_eq(links[i].0.as_str(), id) && str_eq(links[i].1.as_str(), "link_to") {
            n = n + 1;
        }
        i = i + 1;
    }
    assert(lv.take(links.len() as int) =~= lv);
    n
}

/// One step of a count over the entity rows.
fn bump(n: u64, row: &(String, String, String, String, String), wb: &str, kind: &str) -> (r: u64)
    requires
        n < u64::MAX,
    ensures
        r == n + if row.2@ == wb@ && row.1@ == kind@ {
            1int
        } else {
            0int
        },
{
    if str_eq(row.2.as_str(), wb) && str_eq(row.1.as_str(), kind) {
        n + 1
    } else {
        n
    }
}

/// The overview of whiteboard `wb`.
pub fn whiteboard_overview_from_rows(
    entities: &Vec<(String, String, String, String, String)>,
    links: &Vec<(String, String)>,
    wb: &String,
) -> (r: WhiteboardOverview)
    ensures
        overview_of(r, entity_views(entities@), link_views(links@), wb@),
{
    let ghost ev = entity_views(entities@);
    let ghost lv = link_views(links@);
    let mut cards: u64 = 0;
    let mut sections: u64 = 0;
    let mut notes: u64 = 0;
    let mut aliases: u64 = 0;
    let mut summaries: Vec<CardSummary> = Vec::new();
    let mut i: usize = 0;
    while i < entities.len()
        invariant
            i <= entities.len(),
            ev == entity_views(entities@),
            lv == link_views(links@),
            cards == kind_count(ev.take(i as int), wb@, "card"@),
            sections == kind_count(ev.take(i as int), wb@, "section"@),
            notes == kind_count(ev.take(i as int), wb@, "note"@),
            aliases == kind_count(ev.take(i as int), wb@, "alias"@),
            cards <= i && sections <= i && notes <= i && aliases <= i,
            summaries@.len() == cards_on(ev.take(i as int), wb@).len(),
            forall|j: int|
                0 <= j < summaries@.len() ==> summary_of(
                    #[trigger] summaries@[j],
                    cards_on(ev.take(i as int), wb@)[j],
                    lv,
                ),
        decreases entities.len() - i,
    {
        let row = &entities[i];
        assert(ev.take(i + 1).drop_last() =~= ev.take(i as int));
        assert(ev.take(i + 1).last() == ev[i as int]);
        assert(ev[i as int] == (row.0@, row.1@, row.2@, row.3@, row.4@));
        if str_eq(row.2.as_str(), wb.as_str()) && str_eq(row.1.as_str(), "card") {
            let n = count_incoming(links, row.0.as_str());
            summaries.push(
                CardSummary {
                    id: row.0.clone(),
                    title: row.3.clone(),
                    file_path: row.4.clone(),
                    incoming_link_count: n,
                },
            );
        }
        cards = bump(cards, row, wb.as_str(), "card");
        sections = bump(sections, row, wb.as_str(), "section");
        notes = bump(notes, row, wb.as_str(), "note");
        aliases = bump(aliases, row, wb.as_str(), "alias");
        i = i + 1;
    }
    assert(ev.take(entities.len() as int) =~= ev);
    WhiteboardOverview {
        whiteboard_id: wb.clone(),
        cards,
        sections,
        notes,
        aliases,
        card_summaries: summaries,
    }
}

fn contains_string(v: &Vec<String>, s: &str) -> (r: bool)
    ensures
        r == string_views(v@).contains(s@),
{
    let mut i: usize = 0;
    while i < v.len()
        invariant
            i <= v.len(),
            forall|j: int| 0 <= j < i ==> string_views(v@)[j] != s@,
        decreases v.len() - i,
    {
        if str_eq(v[i].as_str(), s) {
            assert(string_views(v@)[i as int] == s@);
            return true;
        }
        i = i + 1;
    }
    false
}

/// The whiteboards of the entity rows, each once, in order of first
/// appearance.
pub fn whiteboard_ids(entities: &Vec<(String, String, String, String, String)>) -> (r: Vec<String>)
    ensures
        string_views(r@) == whiteboards_of(entity_views(entities@)),
{
    let ghost ev = entity_views(entities@);
    let mut out: Vec<String> = Vec::new();
    let mut i: usize = 0;
    while i < entities.len()
        invariant
            i <= entities.len(),
            ev == entity_views(entities@),
            string_views(out@) == whiteboards_of(ev.take(i as int)),
        decreases entities.len() - i,
    {
        assert(ev.take(i + 1).drop_last() =~= ev.take(i as int));
        assert(ev.take(i + 1).last() == ev[i as int]);
        let w = &entities[i].2;
        if !contains_string(&out, w.as_str()) {
            let ghost before = string_views(out@);
            out.push(w.clone());
            assert(string_views(out@) =~= before.push(w@));
        }
        i = i + 1;
    }
    assert(ev.take(entities.len() as int) =~= ev);
    out
}

/// The overview of every whiteboard of the entity rows: one entry per
/// whiteboard, in order of first appearance.
///
/// Rows ordered by whiteboard, then title, give the whiteboards in
/// ascending order and each whiteboard's cards in title order.
pub fn graph_overview_from_rows(
    entities: &Vec<(String, String, String, String, String)>,
    links: &Vec<(String, String)>,
) -> (r: GraphOverviewResponse)
    ensures
        rows_sorted(entity_views(entities@)) ==> forall|k: int, l: int|
            0 <= k < l < r.whiteboards@.len() ==> text_lt(
                #[trigger] r.whiteboards@[k].whiteboard_id@,
                #[trigger] r.whiteboards@[l].whiteboard_id@,
            ),
        rows_sorted(entity_views(entities@)) ==> forall|k: int, j: int, l: int|
            0 <= k < r.whiteboards@.len() && 0 <= j < l < r.whiteboards@[k].card_summaries@.len()
                ==> text_le(
                #[trigger] r.whiteboards@[k].card_summaries@[j].title@,
                #[trigger] r.whiteboards@[k].card_summaries@[l].title@,
            ),
        r.whiteboards@.len() == whiteboards_of(entity_views(entities@)).len(),
        forall|k: int|
            0 <= k < r.whiteboards@.len() ==> overview_of(
                #[trigger] r.whiteboards@[k],
                entity_views(entities@),
                link_views(links@),
                whiteboards_of(entity_views(entities@))[k],
            ),
{
    let wbs = whiteboard_ids(entities);
    let ghost ws = whiteboards_of(entity_views(entities@));
    let mut out: Vec<WhiteboardOverview> = Vec::new();
    let mut k: usize = 0;
    while k < wbs.len()
        invariant
            k <= wbs.len(),
            string_views(wbs@) == ws,
            ws == whiteboards_of(entity_views(entities@)),
            out@.len() == k,
            forall|j: int|
                0 <= j < k ==> overview_of(
                    #[trigger] out@[j],
                    entity_views(entities@),
                    link_views(links@),
                    ws[j],
                ),
        decreases wbs.len() - k,
    {
        assert(string_views(wbs@)[k as int] == wbs@[k as int]@);
        out.push(whiteboard_overview_from_rows(entities, links, &wbs[k]));
        k = k + 1;
    }
    proof {
        let ev = entity_views(entities@);
        if rows_sorted(ev) {
            law_overview_sorted(ev);
            assert forall|k: int, j: int, l: int|
                0 <= k < out@.len() && 0 <= j < l < out@[k].card_summaries@.len() implies text_le(
                #[trigger] out@[k].card_summaries@[j].title@,
                #[trigger] out@[k].card_summaries@[l].title@,
            ) by {
                let c = cards_on(ev, ws[k]);
                assert(summary_of(out@[k].card_summaries@[j], c[j], link_views(links@)));
                assert(summary_of(out@[k].card_summaries@[l], c[l], link_views(links@)));
            }
        }
    }
    GraphOverviewResponse { whiteboards: out }
}

// ---------------------------------------------------------------------------
// Laws
// ---------------------------------------------------------------------------

/// The overview lists every whiteboard that holds an entity, each exactly
/// once, and no other.
pub proof fn law_overview_whiteboards(rows: Seq<(Seq<char>, Seq<char>, Seq<char>, Seq<char>, Seq<char>)>)
    ensures
        forall|i: int, j: int|
            0 <= i < j < whiteboards_of(rows).len() ==> whiteboards_of(rows)[i] != whiteboards_of(
                rows,
            )[j],
        forall|i: int| 0 <= i < rows.len() ==> whiteboards_of(rows).contains(#[trigger] rows[i].2),
        forall|w: Seq<char>|
            whiteboards_of(rows).contains(w) ==> exists|i: int| 0 <= i < rows.len() && #[trigger] rows[i].2 == w,
    decreases rows.len(),
{
    if rows.len() > 0 {
        let d = rows.drop_last();
        law_overview_whiteboards(d);
        let prev = whiteboards_of(d);
        let cur = whiteboards_of(rows);
        assert forall|i: int| 0 <= i < rows.len() implies cur.contains(#[trigger] rows[i].2) by {
            if i < rows.len() - 1 {
                assert(d[i] == rows[i]);
                assert(prev.contains(d[i].2));
                let k = choose|k: int| 0 <= k < prev.len() && prev[k] == d[i].2;
                if !prev.contains(rows.last().2) {
                    assert(cur[k] == prev[k]);
                }
            } else if prev.contains(rows.last().2) {
            } else {
                assert(cur[prev.len() as int] == rows.last().2);
            }
        }
        assert forall|w: Seq<char>| cur.contains(w) implies exists|i: int|
            0 <= i < rows.len() && #[trigger] rows[i].2 == w by {
            let k = choose|k: int| 0 <= k < cur.len() && cur[k] == w;
            if k < prev.len() {
                assert(prev.contains(w));
                let i = choose|i: int| 0 <= i < d.len() && #[trigger] d[i].2 == w;
                assert(rows[i] == d[i]);
            } else {
                assert(rows[rows.len() - 1].2 == w);
            }
        }
    }
}

/// A whiteboard's cards counted in the overview are exactly the cards it
/// summarises.
pub proof fn law_overview_card_count(
    rows: Seq<(Seq<char>, Seq<char>, Seq<char>, Seq<char>, Seq<char>)>,
    wb: Seq<char>,
)
    ensures
        kind_count(rows, wb, "card"@) == cards_on(rows, wb).len(),
    decreases rows.len(),
{
    if rows.len() > 0 {
        law_overview_card_count(rows.drop_last(), wb);
    }
}

proof fn lemma_text_lt_irreflexive(a: Seq<char>)
    ensures
        !text_lt(a, a),
    decreases a.len(),
{
    if a.len() > 0 {
        lemma_text_lt_irreflexive(a.drop_first());
    }
}

/// Each card row of a whiteboard is one of the rows, on that whiteboard.
proof fn lemma_cards_on_from_rows(
    rows: Seq<(Seq<char>, Seq<char>, Seq<char>, Seq<char>, Seq<char>)>,
    wb: Seq<char>,
)
    ensures
        forall|k: int|
            0 <= k < cards_on(rows, wb).len() ==> exists|i: int|
                0 <= i < rows.len() && rows[i] == #[trigger] cards_on(rows, wb)[k] && rows[i].2 == wb,
    decreases rows.len(),
{
    if rows.len() > 0 {
        let d = rows.drop_last();
        lemma_cards_on_from_rows(d, wb);
        let prev = cards_on(d, wb);
        let cur = cards_on(rows, wb);
        assert forall|k: int| 0 <= k < cur.len() implies exists|i: int|
            0 <= i < rows.len() && rows[i] == #[trigger] cur[k] && rows[i].2 == wb by {
            if k < prev.len() {
                assert(cur[k] == prev[k]);
                let i = choose|i: int| 0 <= i < d.len() && d[i] == #[trigger] prev[k] && d[i].2 == wb;
                assert(rows[i] == d[i]);
            } else {
                assert(rows[rows.len() - 1] == cur[k]);
            }
        }
    }
}

/// Rows ordered by whiteboard, then title, list the whiteboards in strictly
/// ascending order and each whiteboard's cards in title order.
pub proof fn law_overview_sorted(rows: Seq<(Seq<char>, Seq<char>, Seq<char>, Seq<char>, Seq<char>)>)
    requires
        rows_sorted(rows),
    ensures
        forall|k: int, l: int|
            0 <= k < l < whiteboards_of(rows).len() ==> text_lt(
                #[trigger] whiteboards_of(rows)[k],
                #[trigger] whiteboards_of(rows)[l],
            ),
        forall|wb: Seq<char>, j: int, l: int|
            0 <= j < l < cards_on(rows, wb).len() ==> text_le(
                #[trigger] cards_on(rows, wb)[j].3,
                #[trigger] cards_on(rows, wb)[l].3,
            ),
    decreases rows.len(),
{
    if rows.len() > 0 {
        let n = rows.len() - 1;
        let d = rows.drop_last();
        let x = rows.last();
        assert forall|i: int, j: int| 0 <= i < j < d.len() implies row_before(
            #[trigger] d[i],
            #[trigger] d[j],
        ) by {
            assert(d[i] == rows[i] && d[j] == rows[j]);
        }
        law_overview_sorted(d);
        law_overview_whiteboards(d);
        let prev = whiteboards_of(d);
        let cur = whiteboards_of(rows);
        assert forall|k: int, l: int| 0 <= k < l < cur.len() implies text_lt(
            #[trigger] cur[k],
            #[trigger] cur[l],
        ) by {
            if l < prev.len() {
                assert(cur[k] == prev[k] && cur[l] == prev[l]);
            } else {
                assert(!prev.contains(x.2));
                assert(cur[l] == x.2);
                assert(cur[k] == prev[k]);
                assert(prev.contains(prev[k]));
                let i = choose|i: int| 0 <= i < d.len() && #[trigger] d[i].2 == prev[k];
                assert(rows[i] == d[i]);
                assert(row_before(rows[i], rows[n]));
            }
        }
        assert forall|wb: Seq<char>, j: int, l: int|
            0 <= j < l < cards_on(rows, wb).len() implies text_le(
            #[trigger] cards_on(rows, wb)[j].3,
            #[trigger] cards_on(rows, wb)[l].3,
        ) by {
            let pc = cards_on(d, wb);
            let cc = cards_on(rows, wb);
            if l < pc.len() {
                assert(cc[j] == pc[j] && cc[l] == pc[l]);
            } else {
                assert(cc[l] == x && x.2 == wb);
                assert(cc[j] == pc[j]);
                lemma_cards_on_from_rows(d, wb);
                let i = choose|i: int| 0 <= i < d.len() && d[i] == #[trigger] pc[j] && d[i].2 == wb;
                assert(rows[i] == d[i]);
                assert(row_before(rows[i], rows[n]));
                lemma_text_lt_irreflexive(wb);
            }
        }
    }
}

} // verus!
