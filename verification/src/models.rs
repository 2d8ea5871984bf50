//! Entity kinds, edge kinds, statuses and the records the library hands out.

use vstd::prelude::*;

use crate::text::{chars_of, starts_with, starts_with_exec, str_eq};

verus! {

/// Kind of a vault entity.
#[derive(Debug, Clone, Copy, PartialEq, Eq, Structural)]
pub enum EntityKind {
    Card,
    Note,
    Alias,
    Section,
    Task,
    Question,
}

/// Where an entity's data lives.
#[derive(Debug, Clone, Copy, PartialEq, Eq, Structural)]
pub enum EntitySource {
    FileBacked,
    DbOnly,
}

impl EntityKind {
    pub open spec fn spec_source(self) -> EntitySource {
        match self {
            EntityKind::Card | EntityKind::Note | EntityKind::Task | EntityKind::Question => {
                EntitySource::FileBacked
            },
            EntityKind::Section | EntityKind::Alias => EntitySource::DbOnly,
        }
    }

    pub open spec fn spec_id_prefix(self) -> Seq<char> {
        match self {
            EntityKind::Card => "card_"@,
            EntityKind::Note => "note_"@,
            EntityKind::Alias => "alias_"@,
            EntityKind::Section => "sec_"@,
            EntityKind::Task => "task_"@,
            EntityKind::Question => "q_"@,
        }
    }

    /// The kind whose id prefix `id` starts with, tried in the order
    /// card, note, alias, section, task, question.
    pub open spec fn spec_from_id(id: Seq<char>) -> Option<EntityKind> {
        if starts_with(id, "card_"@) {
            Some(EntityKind::Card)
        } else if starts_with(id, "note_"@) {
            Some(EntityKind::Note)
        } else if starts_with(id, "alias_"@) {
            Some(EntityKind::Alias)
        } else if starts_with(id, "sec_"@) {
            Some(EntityKind::Section)
        } else if starts_with(id, "task_"@) {
            Some(EntityKind::Task)
        } else if starts_with(id, "q_"@) {
            Some(EntityKind::Question)
        } else {
            None
        }
    }

    pub open spec fn spec_db_str(self) -> Seq<char> {
        match self {
            EntityKind::Card => "card"@,
            EntityKind::Note => "note"@,
            EntityKind::Alias => "alias"@,
            EntityKind::Section => "section"@,
            EntityKind::Task => "task"@,
            EntityKind::Question => "question"@,
        }
    }

    pub open spec fn spec_from_db_str(s: Seq<char>) -> Option<EntityKind> {
        if s == "card"@ {
            Some(EntityKind::Card)
        } else if s == "note"@ {
            Some(EntityKind::Note)
        } else if s == "alias"@ {
            Some(EntityKind::Alias)
        } else if s == "section"@ {
            Some(EntityKind::Section)
        } else if s == "task"@ {
            Some(EntityKind::Task)
        } else if s == "question"@ {
            Some(EntityKind::Question)
        } else {
            None
        }
    }

    /// Where this kind's data lives.
    pub fn source(&self) -> (r: EntitySource)
        ensures
            r == self.spec_source(),
    {
        match self {
            EntityKind::Card | EntityKind::Note | EntityKind::Task | EntityKind::Question => {
                EntitySource::FileBacked
            },
            EntityKind::Section | EntityKind::Alias => EntitySource::DbOnly,
        }
    }

    /// Prefix of the ids of this kind.
    pub fn id_prefix(&self) -> (r: &'static str)
        ensures
            r@ == self.spec_id_prefix(),
    {
        match self {
            EntityKind::Card => "card_",
            EntityKind::Note => "note_",
            EntityKind::Alias => "alias_",
            EntityKind::Section => "sec_",
            EntityKind::Task => "task_",
            EntityKind::Question => "q_",
        }
    }

    /// The kind an id belongs to, read from its prefix.
    pub fn from_id(id: &str) -> (r: Option<EntityKind>)
        ensures
            r == EntityKind::spec_from_id(id@),
    {
        let v = chars_of(id);
        if starts_with_exec(&v, &chars_of("card_")) {
            Some(EntityKind::Card)
        } else if starts_with_exec(&v, &chars_of("note_")) {
            Some(EntityKind::Note)
        } else if starts_with_exec(&v, &chars_of("alias_")) {
            Some(EntityKind::Alias)
        } else if starts_with_exec(&v, &chars_of("sec_")) {
            Some(EntityKind::Section)
        } else if starts_with_exec(&v, &chars_of("task_")) {
            Some(EntityKind::Task)
        } else if starts_with_exec(&v, &chars_of("q_")) {
            Some(EntityKind::Question)
        } else {
            None
        }
    }

    /// The value of the database's `kind` column for this kind.
    pub fn as_db_str(&self) -> (r: &'static str)
        ensures
            r@ == self.spec_db_str(),
    {
        match self {
            EntityKind::Card => "card",
            EntityKind::Note => "note",
            EntityKind::Alias => "alias",
            EntityKind::Section => "section",
            EntityKind::Task => "task",
            EntityKind::Question => "question",
        }
    }

    /// The kind named by a `kind` column value.
    pub fn from_db_str(s: &str) -> (r: Option<EntityKind>)
        ensures
            r == EntityKind::spec_from_db_str(s@),
    {
        if str_eq(s, "card") {
            Some(EntityKind::Card)
        } else if str_eq(s, "note") {
            Some(EntityKind::Note)
        } else if str_eq(s, "alias") {
            Some(EntityKind::Alias)
        } else if str_eq(s, "section") {
            Some(EntityKind::Section)
        } else if str_eq(s, "task") {
            Some(EntityKind::Task)
        } else if str_eq(s, "question") {
            Some(EntityKind::Question)
        } else {
            None
        }
    }
}

/// Relation between two entities.
#[derive(Debug, Clone, Copy, PartialEq, Eq, Structural)]
pub enum EdgeType {
    LinkTo,
    Related,
    SeeAlso,
    SectionLink,
    NoteLink,
    AliasLink,
    CardToAlias,
}

impl EdgeType {
    pub open spec fn spec_db_str(self) -> Seq<char> {
        match self {
            EdgeType::LinkTo => "link_to"@,
            EdgeType::Related => "related"@,
            EdgeType::SeeAlso => "see_also"@,
            EdgeType::SectionLink => "section_link"@,
            EdgeType::NoteLink => "note_link"@,
            EdgeType::AliasLink => "alias_link"@,
            EdgeType::CardToAlias => "card_to_alias"@,
        }
    }

    pub open spec fn spec_from_db_str(s: Seq<char>) -> Option<EdgeType> {
        if s == "link_to"@ {
            Some(EdgeType::LinkTo)
        } else if s == "related"@ {
            Some(EdgeType::Related)
        } else if s == "see_also"@ {
            Some(EdgeType::SeeAlso)
        } else if s == "section_link"@ {
            Some(EdgeType::SectionLink)
        } else if s == "note_link"@ {
            Some(EdgeType::NoteLink)
        } else if s == "alias_link"@ {
            Some(EdgeType::AliasLink)
        } else if s == "card_to_alias"@ {
            Some(EdgeType::CardToAlias)
        } else {
            None
        }
    }

    /// The value of the database's `edge_type` column for this relation.
    pub fn as_db_str(&self) -> (r: &'static str)
        ensures
            r@ == self.spec_db_str(),
    {
        match self {
            EdgeType::LinkTo => "link_to",
            EdgeType::Related => "related",
            EdgeType::SeeAlso => "see_also",
            EdgeType::SectionLink => "section_link",
            EdgeType::NoteLink => "note_link",
            EdgeType::AliasLink => "alias_link",
            EdgeType::CardToAlias => "card_to_alias",
        }
    }

    /// The relation named by an `edge_type` column value.
    pub fn from_db_str(s: &str) -> (r: Option<EdgeType>)
        ensures
            r == EdgeType::spec_from_db_str(s@),
    {
        if str_eq(s, "link_to") {
            Some(EdgeType::LinkTo)
        } else if str_eq(s, "related") {
            Some(EdgeType::Related)
        } else if str_eq(s, "see_also") {
            Some(EdgeType::SeeAlso)
        } else if str_eq(s, "section_link") {
            Some(EdgeType::SectionLink)
        } else if str_eq(s, "note_link") {
            Some(EdgeType::NoteLink)
        } else if str_eq(s, "alias_link") {
            Some(EdgeType::AliasLink)
        } else if str_eq(s, "card_to_alias") {
            Some(EdgeType::CardToAlias)
        } else {
            None
        }
    }
}

/// How an edge is drawn.
#[derive(Debug, Clone, Copy, PartialEq, Eq, Structural)]
pub enum EdgeStyle {
    Solid,
    Dashed,
    Dotted,
}

impl EdgeStyle {
    pub open spec fn spec_db_str(self) -> Seq<char> {
        match self {
            EdgeStyle::Solid => "solid"@,
            EdgeStyle::Dashed => "dashed"@,
            EdgeStyle::Dotted => "dotted"@,
        }
    }

    pub open spec fn spec_from_db_str(s: Seq<char>) -> Option<EdgeStyle> {
        if s == "solid"@ {
            Some(EdgeStyle::Solid)
        } else if s == "dashed"@ {
            Some(EdgeStyle::Dashed)
        } else if s == "dotted"@ {
            Some(EdgeStyle::Dotted)
        } else {
            None
        }
    }

    /// The value of the database's `style` column for this style.
    pub fn as_db_str(&self) -> (r: &'static str)
        ensures
            r@ == self.spec_db_str(),
    {
        match self {
            EdgeStyle::Solid => "solid",
            EdgeStyle::Dashed => "dashed",
            EdgeStyle::Dotted => "dotted",
        }
    }

    /// The style named by a `style` column value.
    pub fn from_db_str(s: &str) -> (r: Option<EdgeStyle>)
        ensures
            r == EdgeStyle::spec_from_db_str(s@),
    {
        if str_eq(s, "solid") {
            Some(EdgeStyle::Solid)
        } else if str_eq(s, "dashed") {
            Some(EdgeStyle::Dashed)
        } else if str_eq(s, "dotted") {
            Some(EdgeStyle::Dotted)
        } else {
            None
        }
    }
}

/// Stage of a task; `Inbox` collects work not yet planned.
#[derive(Debug, Clone, Copy, PartialEq, Eq, Structural)]
pub enum TaskStatus {
    Inbox,
    Next,
    Active,
    Done,
    Blocked,
}

/// Stage of a question.
#[derive(Debug, Clone, Copy, PartialEq, Eq, Structural)]
pub enum QuestionStatus {
    Pending,
    Doing,
    Done,
    Understood,
}

// ---------------------------------------------------------------------------
// Records
// ---------------------------------------------------------------------------

/// A section of the graph.
#[derive(Debug, Clone, PartialEq, Eq)]
pub struct GraphSection {
    pub id: String,
    pub title: String,
    pub card_ids: Vec<String>,
    pub color: Option<String>,
    pub linked_section_ids: Option<Vec<String>>,
}

/// A note on the graph.
#[derive(Debug, Clone, PartialEq, Eq)]
pub struct GraphNote {
    pub id: String,
    pub title: String,
    pub content: String,
    pub color: Option<String>,
    pub linked_section_ids: Option<Vec<String>>,
    /// Cards and aliases together (aliases are drawn as cards).
    pub linked_card_ids: Option<Vec<String>>,
    pub linked_note_ids: Option<Vec<String>>,
    pub linked_question_ids: Option<Vec<String>>,
    pub linked_task_ids: Option<Vec<String>>,
}

/// An alias of a card.
#[derive(Debug, Clone, PartialEq, Eq)]
pub struct CardAlias {
    pub alias_id: String,
    pub card_id: String,
    /// Cards and aliases together (aliases are drawn as cards).
    pub linked_card_ids: Option<Vec<String>>,
    pub linked_section_ids: Option<Vec<String>>,
    pub linked_note_ids: Option<Vec<String>>,
    pub linked_question_ids: Option<Vec<String>>,
    pub linked_task_ids: Option<Vec<String>>,
    pub incoming_card_ids: Option<Vec<String>>,
}

/// A task with its task fields.
#[derive(Debug, Clone, PartialEq, Eq)]
pub struct TaskEntity {
    pub id: String,
    pub title: String,
    pub content: String,
    pub whiteboard_id: String,
    pub status: TaskStatus,
    pub area: Option<String>,
    pub project: Option<String>,
    /// Background colour; `None` is the default colour.
    pub color: Option<String>,
}

/// A question with its question fields.
#[derive(Debug, Clone, PartialEq, Eq)]
pub struct QuestionEntity {
    pub id: String,
    pub title: String,
    pub content: String,
    pub whiteboard_id: String,
    pub status: String,
    /// Background colour; `None` is the default colour.
    pub color: Option<String>,
    pub linked_section_ids: Option<Vec<String>>,
    pub linked_card_ids: Option<Vec<String>>,
    pub linked_note_ids: Option<Vec<String>>,
    pub linked_question_ids: Option<Vec<String>>,
    pub linked_task_ids: Option<Vec<String>>,
}

/// One row of the `edges` table.
#[derive(Debug, Clone, PartialEq, Eq)]
pub struct EdgeRow {
    pub from_id: String,
    pub to_id: String,
    pub edge_type: String,
    pub style: Option<String>,
    pub label: Option<String>,
}

/// Outcome of synchronising one file.
#[derive(Debug, Clone, PartialEq, Eq)]
pub struct SyncFileResponse {
    pub updated: u32,
    pub inserted: u32,
    pub deleted: u32,
    pub needs_id_backfill: bool,
    pub assigned_id: String,
}

/// Outcome of synchronising the whole vault.
#[derive(Debug, Clone, PartialEq, Eq)]
pub struct SyncVaultReport {
    /// Markdown files found.
    pub scanned: u32,
    /// Files synchronised (new or changed).
    pub synced: u32,
    /// Database entries whose file is gone.
    pub removed: u32,
    /// Files whose mtime did not change.
    pub skipped: u32,
    /// Files that got an id written back.
    pub backfilled: u32,
}

/// Outcome of rewriting legacy toggle syntax.
#[derive(Debug, Clone, PartialEq, Eq)]
pub struct ToggleSyntaxMigrationReport {
    pub files_updated: u32,
    pub db_notes_updated: u32,
}

/// Outcome of moving database-only notes into files.
#[derive(Debug, Clone, PartialEq, Eq)]
pub struct NoteFileMigrationReport {
    pub migrated_notes: u32,
    pub skipped_notes: u32,
    pub db_backup_path: String,
    pub whiteboard_backup_path: String,
}

/// Number of entities of each kind, and of edges.
#[derive(Debug, Clone, PartialEq, Eq)]
pub struct StatsResponse {
    pub cards: u64,
    pub notes: u64,
    pub sections: u64,
    pub aliases: u64,
    pub tasks: u64,
    pub questions: u64,
    pub edges: u64,
}

/// The links of one card, out and in.
#[derive(Debug, Clone, PartialEq, Eq)]
pub struct CardLinksResponse {
    pub link_to: Vec<String>,
    pub related: Vec<String>,
    pub see_also: Vec<String>,
    pub linked_from: Vec<String>,
    pub related_from: Vec<String>,
    pub see_also_from: Vec<String>,
}

/// A card as listed in an overview.
#[derive(Debug, Clone, PartialEq, Eq)]
pub struct CardSummary {
    pub id: String,
    pub title: String,
    pub file_path: String,
    pub incoming_link_count: u64,
}

/// Counts and cards of one whiteboard.
#[derive(Debug, Clone, PartialEq, Eq)]
pub struct WhiteboardOverview {
    pub whiteboard_id: String,
    pub cards: u64,
    pub sections: u64,
    pub notes: u64,
    pub aliases: u64,
    pub card_summaries: Vec<CardSummary>,
}

/// All whiteboards.
#[derive(Debug, Clone, PartialEq, Eq)]
pub struct GraphOverviewResponse {
    pub whiteboards: Vec<WhiteboardOverview>,
}

/// Counts of one sub-whiteboard.
#[derive(Debug, Clone, PartialEq, Eq)]
pub struct WhiteboardSummary {
    pub whiteboard_id: String,
    pub cards: i64,
    pub notes: i64,
    pub sections: i64,
    pub aliases: i64,
    pub tasks: i64,
    pub questions: i64,
}

/// The vault in use.
#[derive(Debug, Clone, PartialEq, Eq)]
pub struct VaultInfoResponse {
    pub vault_path: String,
}

/// A section of the old database's graph metadata.
#[derive(Debug, Clone, PartialEq, Eq)]
pub struct LegacySection {
    pub id: String,
    pub title: String,
    pub color: Option<String>,
    pub card_ids: Vec<String>,
    pub linked_section_ids: Vec<String>,
}

/// A note of the old database's graph metadata.
#[derive(Debug, Clone, PartialEq, Eq)]
pub struct LegacyNote {
    pub id: String,
    pub title: String,
    pub content: String,
    pub linked_card_ids: Vec<String>,
    pub linked_note_ids: Vec<String>,
    pub linked_section_ids: Vec<String>,
}

/// An alias of the old database's graph metadata.
#[derive(Debug, Clone, PartialEq, Eq)]
pub struct LegacyAlias {
    pub alias_id: String,
    pub card_id: String,
    pub linked_card_ids: Vec<String>,
    pub linked_section_ids: Vec<String>,
    pub incoming_card_ids: Vec<String>,
}

/// Which old metadata key suffix becomes which whiteboard.
#[derive(Debug, Clone, PartialEq, Eq)]
pub struct WhiteboardMapping {
    /// `None` for the root (no suffix).
    pub meta_suffix: Option<String>,
    /// `wb_root` or the sub-whiteboard's name.
    pub whiteboard_id: String,
}

/// Counts of an import from the old database.
#[derive(Debug, Clone, PartialEq, Eq)]
pub struct ImportSummary {
    pub cards: usize,
    pub sections: usize,
    pub notes: usize,
    pub aliases: usize,
    pub edges: usize,
    pub positions: usize,
    pub section_members: usize,
    pub skipped: Vec<SkippedItem>,
}

/// An entry an import left out, and why.
#[derive(Debug, Clone, PartialEq, Eq)]
pub struct SkippedItem {
    pub entity_id: String,
    pub reason: String,
}

// ---------------------------------------------------------------------------
// Laws of the string encodings
// ---------------------------------------------------------------------------

/// Reading back the `kind` column value of a kind gives that kind.
pub proof fn law_entity_kind_db_roundtrip(k: EntityKind)
    ensures
        EntityKind::spec_from_db_str(k.spec_db_str()) == Some(k),
{
    reveal_strlit("card");
    reveal_strlit("note");
    reveal_strlit("alias");
    reveal_strlit("section");
    reveal_strlit("task");
    reveal_strlit("question");
    let s = k.spec_db_str();
    assert(s[0] != "card"@[0] ==> s != "card"@);
    assert(s[0] != "note"@[0] ==> s != "note"@);
    assert(s[0] != "alias"@[0] ==> s != "alias"@);
    assert(s[0] != "section"@[0] ==> s != "section"@);
    assert(s[0] != "task"@[0] ==> s != "task"@);
}

/// A `kind` column value that parses names exactly the kind it parses to.
pub proof fn law_entity_kind_db_parse_exact(s: Seq<char>)
    ensures
        EntityKind::spec_from_db_str(s) matches Some(k) ==> k.spec_db_str() == s,
{
}

/// Reading back the `edge_type` column value of a relation gives that relation.
pub proof fn law_edge_type_db_roundtrip(t: EdgeType)
    ensures
        EdgeType::spec_from_db_str(t.spec_db_str()) == Some(t),
{
    reveal_strlit("link_to");
    reveal_strlit("related");
    reveal_strlit("see_also");
    reveal_strlit("section_link");
    reveal_strlit("note_link");
    reveal_strlit("alias_link");
    reveal_strlit("card_to_alias");
    let s = t.spec_db_str();
    assert(s[0] != "link_to"@[0] ==> s != "link_to"@);
    assert(s[0] != "related"@[0] ==> s != "related"@);
    assert(s[2] != "see_also"@[2] ==> s != "see_also"@);
    assert(s[0] != "section_link"@[0] ==> s != "section_link"@);
    assert(s[0] != "note_link"@[0] ==> s != "note_link"@);
    assert(s[0] != "alias_link"@[0] ==> s != "alias_link"@);
}

/// An `edge_type` column value that parses names exactly the relation it parses to.
pub proof fn law_edge_type_db_parse_exact(s: Seq<char>)
    ensures
        EdgeType::spec_from_db_str(s) matches Some(t) ==> t.spec_db_str() == s,
{
}

/// Reading back the `style` column value of a style gives that style.
pub proof fn law_edge_style_db_roundtrip(st: EdgeStyle)
    ensures
        EdgeStyle::spec_from_db_str(st.spec_db_str()) == Some(st),
{
    reveal_strlit("solid");
    reveal_strlit("dashed");
    reveal_strlit("dotted");
    let s = st.spec_db_str();
    assert(s[0] != "solid"@[0] ==> s != "solid"@);
    assert(s[1] != "dashed"@[1] ==> s != "dashed"@);
}

/// A `style` column value that parses names exactly the style it parses to.
pub proof fn law_edge_style_db_parse_exact(s: Seq<char>)
    ensures
        EdgeStyle::spec_from_db_str(s) matches Some(st) ==> st.spec_db_str() == s,
{
}

/// An id made of a kind's prefix and any rest is recognised as that kind.
pub proof fn law_entity_kind_from_prefixed_id(k: EntityKind, rest: Seq<char>)
    ensures
        EntityKind::spec_from_id(k.spec_id_prefix() + rest) == Some(k),
{
    reveal_strlit("card_");
    reveal_strlit("note_");
    reveal_strlit("alias_");
    reveal_strlit("sec_");
    reveal_strlit("task_");
    reveal_strlit("q_");
    let id = k.spec_id_prefix() + rest;
    assert(id.subrange(0, k.spec_id_prefix().len() as int) =~= k.spec_id_prefix());
    if k != EntityKind::Card {
        assert(!starts_with(id, "card_"@)) by {
            if starts_with(id, "card_"@) {
                assert(id.subrange(0, 5)[0] == id[0]);
                assert(id.subrange(0, 5)[1] == id[1]);
            }
        }
    }
    if k != EntityKind::Card && k != EntityKind::Note {
        assert(!starts_with(id, "note_"@)) by {
            if starts_with(id, "note_"@) {
                assert(id.subrange(0, 5)[0] == id[0]);
            }
        }
    }
    if k != EntityKind::Card && k != EntityKind::Note && k != EntityKind::Alias {
        assert(!starts_with(id, "alias_"@)) by {
            if starts_with(id, "alias_"@) {
                assert(id.subrange(0, 6)[0] == id[0]);
            }
        }
    }
    if k == EntityKind::Task || k == EntityKind::Question {
        assert(!starts_with(id, "sec_"@)) by {
            if starts_with(id, "sec_"@) {
                assert(id.subrange(0, 4)[0] == id[0]);
            }
        }
    }
    if k == EntityKind::Question {
        assert(!starts_with(id, "task_"@)) by {
            if starts_with(id, "task_"@) {
                assert(id.subrange(0, 5)[0] == id[0]);
            }
        }
    }
}

} // verus!
