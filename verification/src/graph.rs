//! Edges between entities: how a user-drawn edge is typed, which file an edge
//! change rewrites, and how edge rows and counts are grouped.

use vstd::prelude::*;

use crate::models::{
    CardAlias, CardLinksResponse, EdgeType, GraphNote, GraphSection, StatsResponse,
};
use crate::parser::{normalize_legacy_toggle_syntax, spec_normalize_toggle};
use crate::text::{chars_of, starts_with, starts_with_exec, str_eq, string_views};

verus! {

/// The edge type stored for an edge the user drew from `from_id`: notes
/// always get `NoteLink`, aliases `AliasLink`, every other source keeps the
/// caller's type.
pub open spec fn spec_resolve_edge_type(from_id: Seq<char>, caller: EdgeType) -> EdgeType {
    if starts_with(from_id, "note_"@) {
        EdgeType::NoteLink
    } else if starts_with(from_id, "alias_"@) {
        EdgeType::AliasLink
    } else {
        caller
    }
}

/// The edge type stored for an edge the user drew from `from_id`.
pub fn resolve_user_drawn_edge_type(from_id: &str, caller_edge_type: EdgeType) -> (r: EdgeType)
    ensures
        r == spec_resolve_edge_type(from_id@, caller_edge_type),
{
    let f = chars_of(from_id);
    if starts_with_exec(&f, &chars_of("note_")) {
        EdgeType::NoteLink
    } else if starts_with_exec(&f, &chars_of("alias_")) {
        EdgeType::AliasLink
    } else {
        caller_edge_type
    }
}

/// Whose file must be rewritten after an edge change.
#[derive(Debug, Clone, Copy, PartialEq, Eq, Structural)]
pub enum FileSync {
    /// The source card's frontmatter links.
    Card,
    /// The source note's links.
    Note,
    /// The source question's links.
    Question,
    /// No file holds the edge.
    Nothing,
}

/// The file rewrite after removing an edge of type `et` from `from_id`:
/// cards for their frontmatter relations, notes for note links, nothing else.
pub open spec fn spec_disconnect_sync(from_id: Seq<char>, et: EdgeType) -> FileSync {
    if starts_with(from_id, "card_"@) && (et == EdgeType::LinkTo || et == EdgeType::Related || et
        == EdgeType::SeeAlso) {
        FileSync::Card
    } else if starts_with(from_id, "note_"@) && et == EdgeType::NoteLink {
        FileSync::Note
    } else {
        FileSync::Nothing
    }
}

/// Which file to rewrite after removing an edge.
pub fn disconnect_file_sync(from_id: &str, et: EdgeType) -> (r: FileSync)
    ensures
        r == spec_disconnect_sync(from_id@, et),
{
    let f = chars_of(from_id);
    if starts_with_exec(&f, &chars_of("card_")) && (et == EdgeType::LinkTo || et
        == EdgeType::Related || et == EdgeType::SeeAlso) {
        FileSync::Card
    } else if starts_with_exec(&f, &chars_of("note_")) && et == EdgeType::NoteLink {
        FileSync::Note
    } else {
        FileSync::Nothing
    }
}

// ---------------------------------------------------------------------------
// Links of a card
// ---------------------------------------------------------------------------

pub open spec fn row_views(rows: Seq<(String, String)>) -> Seq<(Seq<char>, Seq<char>)> {
    rows.map_values(|r: (String, String)| (r.0@, r.1@))
}

/// The ids of the rows whose type is `t`, in row order.
pub open spec fn ids_of_type(rows: Seq<(Seq<char>, Seq<char>)>, t: Seq<char>) -> Seq<Seq<char>>
    decreases rows.len(),
{
    if rows.len() == 0 {
        Seq::empty()
    } else if rows.last().1 == t {
        ids_of_type(rows.drop_last(), t).push(rows.last().0)
    } else {
        ids_of_type(rows.drop_last(), t)
    }
}

fn collect_ids_of_type(rows: &Vec<(String, String)>, t: &str) -> (r: Vec<String>)
    ensures
        string_views(r@) == ids_of_type(row_views(rows@), t@),
{
    let mut r: Vec<String> = Vec::new();
    let mut i: usize = 0;
    while i < rows.len()
        invariant
            i <= rows.len(),
            string_views(r@) == ids_of_type(row_views(rows@).take(i as int), t@),
        decreases rows.len() - i,
    {
        let ghost before = string_views(r@);
        assert(row_views(rows@).take(i + 1).drop_last() =~= row_views(rows@).take(i as int));
        if str_eq(rows[i].1.as_str(), t) {
            r.push(rows[i].0.clone());
            assert(string_views(r@) =~= before.push(rows@[i as int].0@));
        }
        i = i + 1;
    }
    assert(row_views(rows@).take(rows.len() as int) =~= row_views(rows@));
    r
}

/// The links of a card from its outgoing `(to_id, edge_type)` rows and its
/// incoming `(from_id, edge_type)` rows, each grouped by type in row order.
pub fn card_links_from_rows(
    outgoing: &Vec<(String, String)>,
    incoming: &Vec<(String, String)>,
) -> (r: CardLinksResponse)
    ensures
        string_views(r.link_to@) == ids_of_type(row_views(outgoing@), "link_to"@),
        string_views(r.related@) == ids_of_type(row_views(outgoing@), "related"@),
        string_views(r.see_also@) == ids_of_type(row_views(outgoing@), "see_also"@),
        string_views(r.linked_from@) == ids_of_type(row_views(incoming@), "link_to"@),
        string_views(r.related_from@) == ids_of_type(row_views(incoming@), "related"@),
        string_views(r.see_also_from@) == ids_of_type(row_views(incoming@), "see_also"@),
{
    CardLinksResponse {
        link_to: collect_ids_of_type(outgoing, "link_to"),
        related: collect_ids_of_type(outgoing, "related"),
        see_also: collect_ids_of_type(outgoing, "see_also"),
        linked_from: collect_ids_of_type(incoming, "link_to"),
        related_from: collect_ids_of_type(incoming, "related"),
        see_also_from: collect_ids_of_type(incoming, "see_also"),
    }
}

// ---------------------------------------------------------------------------
// Counts
// ---------------------------------------------------------------------------

pub open spec fn count_views(rows: Seq<(String, u64)>) -> Seq<(Seq<char>, u64)> {
    rows.map_values(|r: (String, u64)| (r.0@, r.1))
}

/// The count of the last row named `k` (0 when none is).
pub open spec fn last_count(rows: Seq<(Seq<char>, u64)>, k: Seq<char>) -> u64
    decreases rows.len(),
{
    if rows.len() == 0 {
        0
    } else if rows.last().0 == k {
        rows.last().1
    } else {
        last_count(rows.drop_last(), k)
    }
}

fn last_count_exec(rows: &Vec<(String, u64)>, k: &str) -> (r: u64)
    ensures
        r == last_count(count_views(rows@), k@),
{
    let mut r: u64 = 0;
    let mut i: usize = 0;
    while i < rows.len()
        invariant
            i <= rows.len(),
            r == last_count(count_views(rows@).take(i as int), k@),
        decreases rows.len() - i,
    {
        assert(count_views(rows@).take(i + 1).drop_last() =~= count_views(rows@).take(i as int));
        if str_eq(rows[i].0.as_str(), k) {
            r = rows[i].1;
        }
        i = i + 1;
    }
    assert(count_views(rows@).take(rows.len() as int) =~= count_views(rows@));
    r
}

/// Entity counts from `(kind, count)` rows and the number of edges; a kind
/// without a row counts 0, unknown kinds are ignored.
pub fn stats_from_counts(kind_counts: &Vec<(String, u64)>, edges: u64) -> (r: StatsResponse)
    ensures
        r.cards == last_count(count_views(kind_counts@), "card"@),
        r.notes == last_count(count_views(kind_counts@), "note"@),
        r.sections == last_count(count_views(kind_counts@), "section"@),
        r.aliases == last_count(count_views(kind_counts@), "alias"@),
        r.tasks == last_count(count_views(kind_counts@), "task"@),
        r.questions == last_count(count_views(kind_counts@), "question"@),
        r.edges == edges,
{
    StatsResponse {
        cards: last_count_exec(kind_counts, "card"),
        notes: last_count_exec(kind_counts, "note"),
        sections: last_count_exec(kind_counts, "section"),
        aliases: last_count_exec(kind_counts, "alias"),
        tasks: last_count_exec(kind_counts, "task"),
        questions: last_count_exec(kind_counts, "question"),
        edges,
    }
}

// ---------------------------------------------------------------------------
// Link targets of notes, aliases and sections
// ---------------------------------------------------------------------------

/// The group of a link target by its id: 0 cards and aliases, 1 sections,
/// 2 notes, 3 none of these.
pub open spec fn target_group(t: Seq<char>) -> int {
    if starts_with(t, "card_"@) || starts_with(t, "alias_"@) {
        0
    } else if starts_with(t, "sec_"@) {
        1
    } else if starts_with(t, "note_"@) {
        2
    } else {
        3
    }
}

/// The targets in group `g`, in order.
pub open spec fn targets_in(ts: Seq<Seq<char>>, g: int) -> Seq<Seq<char>>
    decreases ts.len(),
{
    if ts.len() == 0 {
        Seq::empty()
    } else if target_group(ts.last()) == g {
        targets_in(ts.drop_last(), g).push(ts.last())
    } else {
        targets_in(ts.drop_last(), g)
    }
}

/// A list, or nothing when it is empty.
pub open spec fn nonempty_or_none(s: Seq<Seq<char>>) -> Option<Seq<Seq<char>>> {
    if s.len() == 0 {
        None
    } else {
        Some(s)
    }
}

pub open spec fn opt_views(o: Option<Vec<String>>) -> Option<Seq<Seq<char>>> {
    match o {
        Some(v) => Some(string_views(v@)),
        None => None,
    }
}

fn group_exec(t: &str) -> (r: u8)
    ensures
        r as int == target_group(t@),
{
    let v = chars_of(t);
    if starts_with_exec(&v, &chars_of("card_")) || starts_with_exec(&v, &chars_of("alias_")) {
        0
    } else if starts_with_exec(&v, &chars_of("sec_")) {
        1
    } else if starts_with_exec(&v, &chars_of("note_")) {
        2
    } else {
        3
    }
}

fn some_if_nonempty(v: Vec<String>) -> (r: Option<Vec<String>>)
    ensures
        opt_views(r) == nonempty_or_none(string_views(v@)),
{
    if v.len() == 0 {
        None
    } else {
        Some(v)
    }
}

/// Link targets grouped by kind; an empty group is absent.
#[derive(Debug, Clone, PartialEq, Eq)]
pub struct LinkGroups {
    pub cards: Option<Vec<String>>,
    pub sections: Option<Vec<String>>,
    pub notes: Option<Vec<String>>,
}

/// Groups link targets by kind, keeping their order and dropping ids of
/// other kinds.
pub fn group_link_targets(targets: &Vec<String>) -> (r: LinkGroups)
    ensures
        opt_views(r.cards) == nonempty_or_none(targets_in(string_views(targets@), 0)),
        opt_views(r.sections) == nonempty_or_none(targets_in(string_views(targets@), 1)),
        opt_views(r.notes) == nonempty_or_none(targets_in(string_views(targets@), 2)),
{
    let ghost ts = string_views(targets@);
    let mut cards: Vec<String> = Vec::new();
    let mut sections: Vec<String> = Vec::new();
    let mut notes: Vec<String> = Vec::new();
    let mut i: usize = 0;
    while i < targets.len()
        invariant
            i <= targets.len(),
            ts == string_views(targets@),
            string_views(cards@) == targets_in(ts.take(i as int), 0),
            string_views(sections@) == targets_in(ts.take(i as int), 1),
            string_views(notes@) == targets_in(ts.take(i as int), 2),
        decreases targets.len() - i,
    {
        let t = &targets[i];
        assert(ts.take(i + 1).drop_last() =~= ts.take(i as int));
        assert(ts.take(i + 1).last() == t@);
        let g = group_exec(t.as_str());
        if g == 0 {
            let ghost before = string_views(cards@);
            cards.push(t.clone());
            assert(string_views(cards@) =~= before.push(t@));
        } else if g == 1 {
            let ghost before = string_views(sections@);
            sections.push(t.clone());
            assert(string_views(sections@) =~= before.push(t@));
        } else if g == 2 {
            let ghost before = string_views(notes@);
            notes.push(t.clone());
            assert(string_views(notes@) =~= before.push(t@));
        }
        i = i + 1;
    }
    assert(ts.take(targets.len() as int) =~= ts);
    LinkGroups {
        cards: some_if_nonempty(cards),
        sections: some_if_nonempty(sections),
        notes: some_if_nonempty(notes),
    }
}

/// A note as read back: its content with legacy toggles rewritten, its
/// `note_link` targets grouped by kind.
pub fn graph_note(
    id: String,
    title: String,
    raw_content: &str,
    color: Option<String>,
    targets: &Vec<String>,
) -> (r: GraphNote)
    ensures
        r.id == id,
        r.title == title,
        r.content@ == spec_normalize_toggle(raw_content@),
        r.color == color,
        opt_views(r.linked_card_ids) == nonempty_or_none(targets_in(string_views(targets@), 0)),
        opt_views(r.linked_section_ids) == nonempty_or_none(
            targets_in(string_views(targets@), 1),
        ),
        opt_views(r.linked_note_ids) == nonempty_or_none(targets_in(string_views(targets@), 2)),
        r.linked_question_ids is None,
        r.linked_task_ids is None,
{
    let g = group_link_targets(targets);
    GraphNote {
        id,
        title,
        content: normalize_legacy_toggle_syntax(raw_content),
        color,
        linked_section_ids: g.sections,
        linked_card_ids: g.cards,
        linked_note_ids: g.notes,
        linked_question_ids: None,
        linked_task_ids: None,
    }
}

/// An alias as read back: its `alias_link` targets grouped by kind, and the
/// cards pointing at it (absent when none).
pub fn card_alias(
    alias_id: String,
    card_id: String,
    targets: &Vec<String>,
    incoming: Vec<String>,
) -> (r: CardAlias)
    ensures
        r.alias_id == alias_id,
        r.card_id == card_id,
        opt_views(r.linked_card_ids) == nonempty_or_none(targets_in(string_views(targets@), 0)),
        opt_views(r.linked_section_ids) == nonempty_or_none(
            targets_in(string_views(targets@), 1),
        ),
        opt_views(r.linked_note_ids) == nonempty_or_none(targets_in(string_views(targets@), 2)),
        r.linked_question_ids is None,
        r.linked_task_ids is None,
        opt_views(r.incoming_card_ids) == nonempty_or_none(string_views(incoming@)),
{
    let g = group_link_targets(targets);
    CardAlias {
        alias_id,
        card_id,
        linked_card_ids: g.cards,
        linked_section_ids: g.sections,
        linked_note_ids: g.notes,
        linked_question_ids: None,
        linked_task_ids: None,
        incoming_card_ids: some_if_nonempty(incoming),
    }
}

/// A section as read back: its members, and its `section_link` targets
/// (absent when none).
pub fn graph_section(
    id: String,
    title: String,
    card_ids: Vec<String>,
    color: Option<String>,
    linked: Vec<String>,
) -> (r: GraphSection)
    ensures
        r.id == id,
        r.title == title,
        r.card_ids == card_ids,
        r.color == color,
        opt_views(r.linked_section_ids) == nonempty_or_none(string_views(linked@)),
{
    GraphSection { id, title, card_ids, color, linked_section_ids: some_if_nonempty(linked) }
}

} // verus!
