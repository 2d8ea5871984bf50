//! Mutations requested by the command-line tool over the local RPC
//! endpoint: which store call each one makes, which file it rewrites, and
//! what is answered and announced once the store call is done.
//!
//! The caller performs the store call of the planned step, then hands its
//! outcome to [`mutation_outcome`] and emits the announcement, if any.

use vstd::prelude::*;

use crate::errors::KeysightError;
use crate::graph::{disconnect_file_sync, spec_disconnect_sync, spec_resolve_edge_type, FileSync};
use crate::models::{EdgeType, EntityKind};
use crate::text::{append, chars_of, starts_with, string_of};

verus! {

/// A mutation request. Coordinates are the bit patterns of the `f64`
/// values the request carries.
#[derive(Debug, Clone, PartialEq, Eq)]
pub enum MutateParams {
    SectionCreate { wb: String, title: String, color: Option<String> },
    NoteCreate { wb: String, title: String, content: Option<String>, color: Option<String> },
    NoteUpdate { id: String, title: Option<String>, content: Option<String>, color: Option<String> },
    AliasCreate { wb: String, card_id: String },
    SetPos { wb: String, entity_id: String, x_bits: u64, y_bits: u64 },
    Connect { from: String, to: String },
    Disconnect { from: String, to: String, edge_type: String },
    SectionAdd { section_id: String, entity_id: String },
    SectionMove { section_id: String, target_wb: String },
}

/// The store call a mutation makes.
#[derive(Debug, Clone, PartialEq, Eq)]
pub enum MutationStep {
    CreateSection { wb: String, title: String, color: Option<String> },
    CreateNote { wb: String, title: String, content: Option<String>, color: Option<String> },
    UpdateNote { id: String, title: Option<String>, content: Option<String>, color: Option<String> },
    CreateAlias { wb: String, card_id: String },
    SetPosition { wb: String, entity_id: String, x_bits: u64, y_bits: u64 },
    /// Store the edge, then rewrite the file `file_sync` names.
    Connect { from: String, to: String, edge_type: EdgeType, file_sync: FileSync },
    /// Remove the edge, then rewrite the file `file_sync` names.
    Disconnect { from: String, to: String, edge_type: EdgeType, file_sync: FileSync },
    AddSectionMember { section_id: String, entity_id: String },
    MoveSection { section_id: String, target_wb: String },
}

/// The answer to a mutation.
#[derive(Debug, Clone, PartialEq, Eq)]
pub struct MutateResponse {
    pub success: bool,
    pub entity_id: Option<String>,
    pub message: Option<String>,
}

/// A value in an announcement: text, or the bit pattern of an `f64`.
#[derive(Debug, Clone, PartialEq, Eq)]
pub enum PayloadValue {
    Text(String),
    Number(u64),
}

/// An event announced to the user interface, with its fields in order.
#[derive(Debug, Clone, PartialEq, Eq)]
pub struct Emission {
    pub event: String,
    pub payload: Vec<(String, PayloadValue)>,
}

/// A payload value as plain values: `(true, text, 0)` or `(false, "", bits)`.
pub open spec fn value_view(v: PayloadValue) -> (bool, Seq<char>, u64) {
    match v {
        PayloadValue::Text(t) => (true, t@, 0),
        PayloadValue::Number(b) => (false, Seq::empty(), b),
    }
}

pub open spec fn payload_views(p: Seq<(String, PayloadValue)>) -> Seq<(Seq<char>, (bool, Seq<char>, u64))> {
    p.map_values(|e: (String, PayloadValue)| (e.0@, value_view(e.1)))
}

pub open spec fn text(t: Seq<char>) -> (bool, Seq<char>, u64) {
    (true, t, 0)
}

/// The file rewritten after drawing an edge from an entity of kind `k`.
pub open spec fn connect_sync(k: EntityKind) -> FileSync {
    match k {
        EntityKind::Card => FileSync::Card,
        EntityKind::Note => FileSync::Note,
        EntityKind::Question => FileSync::Question,
        _ => FileSync::Nothing,
    }
}

/// A kind that may start an edge the user draws.
pub open spec fn may_start_edge(k: EntityKind) -> bool {
    k != EntityKind::Section && k != EntityKind::Task
}

fn cat(prefix: &str, rest: &String) -> (r: String)
    ensures
        r@ == prefix@ + rest@,
{
    let mut v = chars_of(prefix);
    append(&mut v, &chars_of(rest.as_str()));
    string_of(v.as_slice())
}

/// Plans a mutation. Every request but two maps one to one onto its store
/// call. A disconnect fails on an edge type the library does not know and
/// otherwise rewrites the file [`spec_disconnect_sync`] names. A connect
/// fails on an id without a known prefix (the source checked first) and on
/// a source that is a section or a task; otherwise its edge type is the one
/// the user-drawn edge gets, and the source's file is rewritten.
pub fn plan_mutation(params: MutateParams) -> (r: Result<MutationStep, KeysightError>)
    ensures
        r matches Ok(step) ==> (creates(step) <==> (params is SectionCreate || params is NoteCreate
            || params is AliasCreate)),
        params matches MutateParams::SectionCreate { wb, title, color } ==> r == Ok::<
            MutationStep,
            KeysightError,
        >(MutationStep::CreateSection { wb, title, color }),
        params matches MutateParams::NoteCreate { wb, title, content, color } ==> r == Ok::<
            MutationStep,
            KeysightError,
        >(MutationStep::CreateNote { wb, title, content, color }),
        params matches MutateParams::NoteUpdate { id, title, content, color } ==> r == Ok::<
            MutationStep,
            KeysightError,
        >(MutationStep::UpdateNote { id, title, content, color }),
        params matches MutateParams::AliasCreate { wb, card_id } ==> r == Ok::<
            MutationStep,
            KeysightError,
        >(MutationStep::CreateAlias { wb, card_id }),
        params matches MutateParams::SetPos { wb, entity_id, x_bits, y_bits } ==> r == Ok::<
            MutationStep,
            KeysightError,
        >(MutationStep::SetPosition { wb, entity_id, x_bits, y_bits }),
        params matches MutateParams::SectionAdd { section_id, entity_id } ==> r == Ok::<
            MutationStep,
            KeysightError,
        >(MutationStep::AddSectionMember { section_id, entity_id }),
        params matches MutateParams::SectionMove { section_id, target_wb } ==> r == Ok::<
            MutationStep,
            KeysightError,
        >(MutationStep::MoveSection { section_id, target_wb }),
        params matches MutateParams::Disconnect { from, to, edge_type } ==> match EdgeType::spec_from_db_str(
            edge_type@,
        ) {
            None => r matches Err(KeysightError::ParseError(m)) && m@ == "未知 edge_type: "@
                + edge_type@,
            Some(et) => r == Ok::<MutationStep, KeysightError>(
                MutationStep::Disconnect {
                    from,
                    to,
                    edge_type: et,
                    file_sync: spec_disconnect_sync(from@, et),
                },
            ),
        },
        params matches MutateParams::Connect { from, to } ==> match (
            EntityKind::spec_from_id(from@),
            EntityKind::spec_from_id(to@),
        ) {
            (None, _) => r matches Err(KeysightError::ParseError(m)) && m@ == "from_id 解析失败: "@
                + from@,
            (Some(_), None) => r matches Err(KeysightError::ParseError(m)) && m@
                == "to_id 解析失败: "@ + to@,
            (Some(k), Some(_)) => if may_start_edge(k) {
                r == Ok::<MutationStep, KeysightError>(
                    MutationStep::Connect {
                        from,
                        to,
                        edge_type: spec_resolve_edge_type(from@, EdgeType::LinkTo),
                        file_sync: connect_sync(k),
                    },
                )
            } else {
                r matches Err(KeysightError::ConnectionNotAllowed(m)) && m@ == k.spec_db_str()
            },
        },
{
    match params {
        MutateParams::SectionCreate { wb, title, color } => Ok(
            MutationStep::CreateSection { wb, title, color },
        ),
        MutateParams::NoteCreate { wb, title, content, color } => Ok(
            MutationStep::CreateNote { wb, title, content, color },
        ),
        MutateParams::NoteUpdate { id, title, content, color } => Ok(
            MutationStep::UpdateNote { id, title, content, color },
        ),
        MutateParams::AliasCreate { wb, card_id } => Ok(MutationStep::CreateAlias { wb, card_id }),
        MutateParams::SetPos { wb, entity_id, x_bits, y_bits } => Ok(
            MutationStep::SetPosition { wb, entity_id, x_bits, y_bits },
        ),
        MutateParams::SectionAdd { section_id, entity_id } => Ok(
            MutationStep::AddSectionMember { section_id, entity_id },
        ),
        MutateParams::SectionMove { section_id, target_wb } => Ok(
            MutationStep::MoveSection { section_id, target_wb },
        ),
        MutateParams::Disconnect { from, to, edge_type } => {
            match EdgeType::from_db_str(edge_type.as_str()) {
                None => Err(KeysightError::ParseError(cat("未知 edge_type: ", &edge_type))),
                Some(et) => {
                    let file_sync = disconnect_file_sync(from.as_str(), et);
                    Ok(MutationStep::Disconnect { from, to, edge_type: et, file_sync })
                },
            }
        },
        MutateParams::Connect { from, to } => {
            let fk = match EntityKind::from_id(from.as_str()) {
                None => return Err(KeysightError::ParseError(cat("from_id 解析失败: ", &from))),
                Some(k) => k,
            };
            if EntityKind::from_id(to.as_str()).is_none() {
                return Err(KeysightError::ParseError(cat("to_id 解析失败: ", &to)));
            }
            match fk {
                EntityKind::Section | EntityKind::Task => Err(
                    KeysightError::ConnectionNotAllowed(fk.as_db_str().to_string()),
                ),
                _ => {
                    let edge_type = crate::graph::resolve_user_drawn_edge_type(
                        from.as_str(),
                        EdgeType::LinkTo,
                    );
                    let file_sync = match fk {
                        EntityKind::Card => FileSync::Card,
                        EntityKind::Note => FileSync::Note,
                        EntityKind::Question => FileSync::Question,
                        _ => FileSync::Nothing,
                    };
                    Ok(MutationStep::Connect { from, to, edge_type, file_sync })
                },
            }
        },
    }
}

/// The announcement of a done step, `id` being the entity the store call
/// created, if any (an absent id is announced as empty).
pub open spec fn spec_payload(step: MutationStep, id: Option<String>) -> Seq<
    (Seq<char>, (bool, Seq<char>, u64)),
> {
    let new_id = match id {
        Some(i) => i@,
        None => Seq::empty(),
    };
    match step {
        MutationStep::CreateSection { wb, .. } => seq![
            ("kind"@, text("section"@)),
            ("id"@, text(new_id)),
            ("wb"@, text(wb@)),
        ],
        MutationStep::CreateNote { wb, .. } => seq![
            ("kind"@, text("note"@)),
            ("id"@, text(new_id)),
            ("wb"@, text(wb@)),
        ],
        MutationStep::UpdateNote { id, .. } => seq![("kind"@, text("note"@)), ("id"@, text(id@))],
        MutationStep::CreateAlias { wb, card_id } => seq![
            ("kind"@, text("alias"@)),
            ("id"@, text(new_id)),
            ("wb"@, text(wb@)),
            ("card_id"@, text(card_id@)),
        ],
        MutationStep::SetPosition { wb, entity_id, x_bits, y_bits } => seq![
            ("kind"@, text("position"@)),
            ("entity_id"@, text(entity_id@)),
            ("wb"@, text(wb@)),
            ("x"@, (false, Seq::empty(), x_bits)),
            ("y"@, (false, Seq::empty(), y_bits)),
        ],
        MutationStep::Connect { from, to, .. } => seq![
            ("kind"@, text("edge"@)),
            ("op"@, text("connect"@)),
            ("from"@, text(from@)),
            ("to"@, text(to@)),
        ],
        MutationStep::Disconnect { from, to, edge_type, .. } => seq![
            ("kind"@, text("edge"@)),
            ("op"@, text("disconnect"@)),
            ("from"@, text(from@)),
            ("to"@, text(to@)),
            ("edge_type"@, text(edge_type.spec_db_str())),
        ],
        MutationStep::AddSectionMember { section_id, entity_id } => seq![
            ("kind"@, text("section_member"@)),
            ("op"@, text("add"@)),
            ("section_id"@, text(section_id@)),
            ("entity_id"@, text(entity_id@)),
        ],
        MutationStep::MoveSection { section_id, target_wb } => seq![
            ("kind"@, text("section"@)),
            ("id"@, text(section_id@)),
            ("wb"@, text(target_wb@)),
        ],
    }
}

fn entry(key: &str, value: &String) -> (r: (String, PayloadValue))
    ensures
        r.0@ == key@,
        value_view(r.1) == text(value@),
{
    (key.to_string(), PayloadValue::Text(value.clone()))
}

fn entry_lit(key: &str, value: &str) -> (r: (String, PayloadValue))
    ensures
        r.0@ == key@,
        value_view(r.1) == text(value@),
{
    (key.to_string(), PayloadValue::Text(value.to_string()))
}

fn payload_of(step: &MutationStep, id: &Option<String>) -> (r: Vec<(String, PayloadValue)>)
    ensures
        payload_views(r@) == spec_payload(*step, *id),
{
    let new_id: String = match id {
        Some(i) => i.clone(),
        None => String::new(),
    };
    let r = match step {
        MutationStep::CreateSection { wb, .. } => vec![
            entry_lit("kind", "section"),
            entry("id", &new_id),
            entry("wb", wb),
        ],
        MutationStep::CreateNote { wb, .. } => vec![
            entry_lit("kind", "note"),
            entry("id", &new_id),
            entry("wb", wb),
        ],
        MutationStep::UpdateNote { id, .. } => vec![entry_lit("kind", "note"), entry("id", id)],
        MutationStep::CreateAlias { wb, card_id } => vec![
            entry_lit("kind", "alias"),
            entry("id", &new_id),
            entry("wb", wb),
            entry("card_id", card_id),
        ],
        MutationStep::SetPosition { wb, entity_id, x_bits, y_bits } => vec![
            entry_lit("kind", "position"),
            entry("entity_id", entity_id),
            entry("wb", wb),
            ("x".to_string(), PayloadValue::Number(*x_bits)),
            ("y".to_string(), PayloadValue::Number(*y_bits)),
        ],
        MutationStep::Connect { from, to, .. } => vec![
            entry_lit("kind", "edge"),
            entry_lit("op", "connect"),
            entry("from", from),
            entry("to", to),
        ],
        MutationStep::Disconnect { from, to, edge_type, .. } => vec![
            entry_lit("kind", "edge"),
            entry_lit("op", "disconnect"),
            entry("from", from),
            entry("to", to),
            entry_lit("edge_type", edge_type.as_db_str()),
        ],
        MutationStep::AddSectionMember { section_id, entity_id } => vec![
            entry_lit("kind", "section_member"),
            entry_lit("op", "add"),
            entry("section_id", section_id),
            entry("entity_id", entity_id),
        ],
        MutationStep::MoveSection { section_id, target_wb } => vec![
            entry_lit("kind", "section"),
            entry("id", section_id),
            entry("wb", target_wb),
        ],
    };
    assert(payload_views(r@) =~= spec_payload(*step, *id));
    r
}

/// A step whose store call creates an entity (and returns its id): section,
/// note and alias creation.
pub open spec fn creates(step: MutationStep) -> bool {
    step is CreateSection || step is CreateNote || step is CreateAlias
}

/// Whether the store call of `step` creates an entity.
pub fn creates_entity(step: &MutationStep) -> (r: bool)
    ensures
        r == creates(*step),
{
    match step {
        MutationStep::CreateSection { .. } | MutationStep::CreateNote { .. }
        | MutationStep::CreateAlias { .. } => true,
        _ => false,
    }
}

/// What is answered and announced once the store call of `step` ended with
/// `store` (the id it created, exactly when the step creates an entity): a
/// failure is answered as it is and announced to nobody; a success is
/// answered with that id and announced as `entity:changed` with the step's
/// fields.
pub fn mutation_outcome(step: &MutationStep, store: Result<Option<String>, KeysightError>) -> (r: (
    Result<MutateResponse, KeysightError>,
    Option<Emission>,
))
    requires
        store matches Ok(id) ==> (id is Some <==> creates(*step)),
    ensures
        r.0 matches Ok(resp) ==> (resp.entity_id is Some <==> creates(*step)),
        store matches Err(e) ==> r.0 == Err::<MutateResponse, KeysightError>(e) && r.1 is None,
        store matches Ok(id) ==> r.0 == Ok::<MutateResponse, KeysightError>(
            MutateResponse { success: true, entity_id: id, message: None },
        ) && (r.1 matches Some(em) && em.event@ == "entity:changed"@ && payload_views(em.payload@)
            == spec_payload(*step, id)),
{
    match store {
        Err(e) => (Err(e), None),
        Ok(id) => {
            let payload = payload_of(step, &id);
            (
                Ok(MutateResponse { success: true, entity_id: id, message: None }),
                Some(Emission { event: "entity:changed".to_string(), payload }),
            )
        },
    }
}

// ---------------------------------------------------------------------------
// Laws
// ---------------------------------------------------------------------------

/// Removing one of a card's frontmatter relations (`linkTo`, `related`,
/// `see-also`) rewrites the card's file, and removing the edge a connect
/// from a card or a note created rewrites the same file that connect
/// rewrote, so the file never keeps a link the index has dropped.
pub proof fn law_disconnect_rewrites_the_connected_file(from: Seq<char>, et: EdgeType)
    ensures
        starts_with(from, "card_"@) && (et == EdgeType::LinkTo || et == EdgeType::Related || et
            == EdgeType::SeeAlso) ==> spec_disconnect_sync(from, et) == FileSync::Card,
        EntityKind::spec_from_id(from) == Some(EntityKind::Card) ==> spec_disconnect_sync(
            from,
            spec_resolve_edge_type(from, EdgeType::LinkTo),
        ) == connect_sync(EntityKind::Card),
        EntityKind::spec_from_id(from) == Some(EntityKind::Note) ==> spec_disconnect_sync(
            from,
            spec_resolve_edge_type(from, EdgeType::LinkTo),
        ) == connect_sync(EntityKind::Note),
{
    reveal_strlit("card_");
    reveal_strlit("note_");
    reveal_strlit("alias_");
    if starts_with(from, "card_"@) {
        assert(from.subrange(0, 5)[0] == from[0]);
        assert("card_"@[0] == 'c');
        if starts_with(from, "note_"@) {
            assert(from.subrange(0, 5)[0] == "note_"@[0]);
        }
        if starts_with(from, "alias_"@) {
            assert(from.subrange(0, 6)[0] == from[0]);
            assert(from.subrange(0, 6)[0] == "alias_"@[0]);
        }
    }
}

} // verus!
