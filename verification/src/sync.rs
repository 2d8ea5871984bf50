//! What synchronising a vault file into the index derives from it: the
//! entity kind, the whiteboard, the id to use, the edges, the report.

use vstd::prelude::*;

use crate::errors::KeysightError;
use crate::models::{EdgeType, EntityKind, SyncFileResponse};
use crate::parser::{spec_extract_frontmatter, spec_skip_frontmatter, ParsedEntity};
use crate::text::{
    append, chars_of, find, find_from_exec, is_ws, lemma_find_at, lemma_find_from,
    match_at, starts_with, starts_with_exec, str_eq, string_of, string_views, subvec,
    trim_start,
};

verus! {

/// The last position below `n` where `s` holds `c`.
pub open spec fn last_index_of(s: Seq<char>, c: char, n: int) -> Option<int>
    decreases n,
{
    if n <= 0 {
        None
    } else if n <= s.len() && s[n - 1] == c {
        Some(n - 1)
    } else {
        last_index_of(s, c, n - 1)
    }
}

/// The whiteboard of a file: the directory of a file under `whiteboard/`
/// (so `whiteboard/{a}/{b}/x.md` gives `{a}/{b}`); a file directly in
/// `whiteboard/`, or outside it, gives `wb_root`.
pub open spec fn spec_derive_whiteboard_id(p: Seq<char>) -> Seq<char> {
    if starts_with(p, "whiteboard/"@) {
        let rest = p.skip(11);
        match last_index_of(rest, '/', rest.len() as int) {
            Some(k) => if k > 0 {
                rest.take(k)
            } else {
                "wb_root"@
            },
            None => "wb_root"@,
        }
    } else {
        "wb_root"@
    }
}

/// The whiteboard a vault file belongs to.
pub fn derive_whiteboard_id(file_path: &str) -> (r: String)
    ensures
        r@ == spec_derive_whiteboard_id(file_path@),
{
    proof {
        reveal_strlit("whiteboard/");
    }
    let p = chars_of(file_path);
    if starts_with_exec(&p, &chars_of("whiteboard/")) {
        let rest = subvec(&p, 11, p.len());
        assert(rest@ =~= p@.skip(11));
        assert(rest@.len() == rest.len());
        let mut n: usize = rest.len();
        while n > 0
            invariant
                n <= rest.len(),
                rest@ == file_path@.skip(11),
                starts_with(file_path@, "whiteboard/"@),
                last_index_of(rest@, '/', rest@.len() as int) == last_index_of(rest@, '/', n as int),
            decreases n,
        {
            if rest[n - 1] == '/' {
                if n - 1 > 0 {
                    let sub = subvec(&rest, 0, n - 1);
                    assert(sub@ =~= rest@.take(n - 1));
                    return string_of(sub.as_slice());
                }
                return string_of(chars_of("wb_root").as_slice());
            }
            n = n - 1;
        }
    }
    string_of(chars_of("wb_root").as_slice())
}

/// `content` with the line `id: {id}` inserted right after its first
/// `"---\n"`; an error when it does not start with `---` or has no `"---\n"`.
pub open spec fn spec_insert_id(content: Seq<char>, id: Seq<char>) -> Option<Seq<char>> {
    if !starts_with(content, "---"@) {
        None
    } else {
        match find(content, "---\n"@) {
            Some(p) => Some(content.take(p + 4) + "id: "@ + id + "\n"@ + content.skip(p + 4)),
            None => None,
        }
    }
}

/// Writes `id: {id}` as the first line of the frontmatter of `content`.
pub fn insert_id_into_frontmatter(content: &str, id: &str) -> (r: Result<String, KeysightError>)
    ensures
        r is Ok <==> spec_insert_id(content@, id@) is Some,
        r matches Ok(s) ==> Some(s@) == spec_insert_id(content@, id@),
        !starts_with(content@, "---"@) ==> r == Err::<String, KeysightError>(
            KeysightError::ParseError(r->Err_0->ParseError_0),
        ) && r->Err_0->ParseError_0@ == "文件没有 frontmatter（不以 --- 开头）"@,
        starts_with(content@, "---"@) && find(content@, "---\n"@) is None ==> r == Err::<
            String,
            KeysightError,
        >(KeysightError::ParseError(r->Err_0->ParseError_0))
            && r->Err_0->ParseError_0@ == "无法定位 frontmatter 起始"@,
{
    proof {
        reveal_strlit("---\n");
    }
    let c = chars_of(content);
    if !starts_with_exec(&c, &chars_of("---")) {
        return Err(
            KeysightError::ParseError(string_of(chars_of("文件没有 frontmatter（不以 --- 开头）").as_slice())),
        );
    }
    let pat = chars_of("---\n");
    match find_from_exec(&c, &pat, 0) {
        Some(p) => {
            proof {
                lemma_find_from(c@, pat@, 0);
                assert(match_at(c@, pat@, p as int));
                assert(pat@.len() == 4);
                assert(c@.len() == c.len());
            }
            let mut out = subvec(&c, 0, p + 4);
            append(&mut out, &chars_of("id: "));
            append(&mut out, &chars_of(id));
            append(&mut out, &chars_of("\n"));
            append(&mut out, &subvec(&c, p + 4, c.len()));
            assert(c@.subrange(p + 4, c@.len() as int) =~= c@.skip(p + 4));
            assert(c@.subrange(0, p + 4) =~= c@.take(p + 4));
            Ok(string_of(out.as_slice()))
        },
        None => Err(
            KeysightError::ParseError(string_of(chars_of("无法定位 frontmatter 起始").as_slice())),
        ),
    }
}

/// Inserting an id into markdown that opens with a `---` line and has a
/// complete frontmatter puts `id: {id}` at the top of that frontmatter and
/// leaves everything after the frontmatter as it was (for an id without line
/// breaks).
pub proof fn law_insert_id_changes_only_frontmatter(content: Seq<char>, id: Seq<char>)
    requires
        starts_with(content, "---\n"@),
        spec_extract_frontmatter(content) is Some,
        forall|j: int| 0 <= j < id.len() ==> id[j] != '\n',
    ensures
        spec_insert_id(content, id) matches Some(n) && spec_extract_frontmatter(n) == Some(
            "\nid: "@ + id + spec_extract_frontmatter(content).unwrap(),
        ) && spec_skip_frontmatter(n) == spec_skip_frontmatter(content),
{
    reveal_strlit("---\n");
    reveal_strlit("---");
    reveal_strlit("\n---");
    reveal_strlit("\nid: ");
    reveal_strlit("id: ");
    reveal_strlit("\n");
    let head = "---\n"@;
    let pat = "\n---"@;
    assert(content.subrange(0, 4) =~= head);
    assert(starts_with(content, "---"@)) by {
        assert(content.subrange(0, 3) =~= "---"@);
    }
    lemma_find_at(content, head, 0, 0);
    let n = content.take(4) + "id: "@ + id + "\n"@ + content.skip(4);
    assert(spec_insert_id(content, id) == Some(n));
    // neither text starts with whitespace
    assert(!is_ws(content[0]));
    assert(trim_start(content) == content);
    assert(n[0] == '-');
    assert(trim_start(n) == n);
    assert(n.subrange(0, 3) =~= "---"@);
    let a = content.skip(3);
    let c0 = find(a, pat).unwrap();
    lemma_find_from(a, pat, 0);
    let pre = "\n"@ + "id: "@ + id;
    let a2 = n.skip(3);
    assert(a2 =~= pre + a) by {
        assert(content.take(4) =~= content.subrange(0, 3) + "\n"@);
        assert(content.subrange(0, 4)[3] == head[3]);
        assert(content[3] == '\n');
        assert(a =~= "\n"@ + content.skip(4));
    }
    let m = pre.len() + c0;
    assert(match_at(a2, pat, m)) by {
        assert(a2.subrange(m, m + 4) =~= a.subrange(c0, c0 + 4));
    }
    assert forall|j: int| 0 <= j < m implies !match_at(a2, pat, j) by {
        if j == 0 {
            assert(a2[1] == 'i');
            if match_at(a2, pat, j) {
                assert(a2.subrange(0, 4)[1] == pat[1]);
            }
        } else if j < pre.len() {
            assert(a2[j] == pre[j]);
            if j < 5 {
                assert(pre[j] == "id: "@[j - 1]);
            } else {
                assert(pre[j] == id[j - 5]);
            }
            if match_at(a2, pat, j) {
                assert(a2.subrange(j, j + 4)[0] == pat[0]);
            }
        } else {
            if match_at(a2, pat, j) {
                assert(a2.subrange(j, j + 4) =~= a.subrange(j - pre.len(), j - pre.len() + 4));
                assert(match_at(a, pat, j - pre.len()));
            }
        }
    }
    lemma_find_at(a2, pat, 0, m);
    assert(a2.take(m) =~= pre + a.take(c0));
    assert(pre + a.take(c0) =~= "\nid: "@ + id + a.take(c0));
    assert(a2.skip(m + 4) =~= a.skip(c0 + 4));
}

/// The kind an entity `type` is stored as.
pub open spec fn spec_kind_of_type(t: Seq<char>) -> Option<EntityKind> {
    if t == "atomic-card"@ {
        Some(EntityKind::Card)
    } else if t == "note"@ {
        Some(EntityKind::Note)
    } else if t == "project-task"@ {
        Some(EntityKind::Task)
    } else if t == "question"@ {
        Some(EntityKind::Question)
    } else {
        None
    }
}

/// The kind an entity `type` is stored as, or `InvalidEntityType`.
pub fn kind_of_entity_type(t: &str) -> (r: Result<EntityKind, KeysightError>)
    ensures
        spec_kind_of_type(t@) matches Some(k) ==> r == Ok::<EntityKind, KeysightError>(k),
        spec_kind_of_type(t@) is None ==> (r matches Err(KeysightError::InvalidEntityType(m))
            && m@ == t@),
{
    if str_eq(t, "atomic-card") {
        Ok(EntityKind::Card)
    } else if str_eq(t, "note") {
        Ok(EntityKind::Note)
    } else if str_eq(t, "project-task") {
        Ok(EntityKind::Task)
    } else if str_eq(t, "question") {
        Ok(EntityKind::Question)
    } else {
        Err(KeysightError::InvalidEntityType(string_of(chars_of(t).as_slice())))
    }
}

/// The edges a file declares, in the order they are stored: its `linkTo`
/// targets, then `related`, then `see-also`.
pub open spec fn spec_frontmatter_edges(
    link_to: Seq<Seq<char>>,
    related: Seq<Seq<char>>,
    see_also: Seq<Seq<char>>,
) -> Seq<(Seq<char>, EdgeType)> {
    link_to.map_values(|t: Seq<char>| (t, EdgeType::LinkTo)) + related.map_values(
        |t: Seq<char>| (t, EdgeType::Related),
    ) + see_also.map_values(|t: Seq<char>| (t, EdgeType::SeeAlso))
}

pub open spec fn edge_views(v: Seq<(String, EdgeType)>) -> Seq<(Seq<char>, EdgeType)> {
    v.map_values(|e: (String, EdgeType)| (e.0@, e.1))
}

fn push_edges(out: &mut Vec<(String, EdgeType)>, targets: &Vec<String>, t: EdgeType)
    ensures
        edge_views(final(out)@) == edge_views(old(out)@) + string_views(targets@).map_values(
            |x: Seq<char>| (x, t),
        ),
{
    let ghost start = edge_views(out@);
    let mut i: usize = 0;
    while i < targets.len()
        invariant
            i <= targets.len(),
            edge_views(out@) == start + string_views(targets@).take(i as int).map_values(
                |x: Seq<char>| (x, t),
            ),
        decreases targets.len() - i,
    {
        let ghost before = edge_views(out@);
        out.push((targets[i].clone(), t));
        assert(edge_views(out@) =~= before.push((targets@[i as int]@, t)));
        assert(string_views(targets@).take(i + 1).map_values(|x: Seq<char>| (x, t))
            =~= string_views(targets@).take(i as int).map_values(|x: Seq<char>| (x, t)).push(
            (targets@[i as int]@, t),
        ));
        i = i + 1;
    }
    assert(string_views(targets@).take(targets.len() as int) =~= string_views(targets@));
}

/// The edges a parsed file declares.
pub fn frontmatter_edges(parsed: &ParsedEntity) -> (r: Vec<(String, EdgeType)>)
    ensures
        edge_views(r@) == spec_frontmatter_edges(
            string_views(parsed.link_to@),
            string_views(parsed.related@),
            string_views(parsed.see_also@),
        ),
{
    let mut r: Vec<(String, EdgeType)> = Vec::new();
    assert(edge_views(r@) =~= Seq::<(Seq<char>, EdgeType)>::empty());
    push_edges(&mut r, &parsed.link_to, EdgeType::LinkTo);
    push_edges(&mut r, &parsed.related, EdgeType::Related);
    push_edges(&mut r, &parsed.see_also, EdgeType::SeeAlso);
    assert(edge_views(r@) =~= spec_frontmatter_edges(
        string_views(parsed.link_to@),
        string_views(parsed.related@),
        string_views(parsed.see_also@),
    ));
    r
}

/// The id a synchronised entity gets: its own, or the fresh one (which must
/// then be written back into the file).
pub fn choose_entity_id(own: &Option<String>, fresh: &str) -> (r: (String, bool))
    ensures
        own matches Some(i) ==> r.0@ == i@ && !r.1,
        own is None ==> r.0@ == fresh@ && r.1,
{
    match own {
        Some(i) => (i.clone(), false),
        None => (string_of(chars_of(fresh).as_slice()), true),
    }
}

/// The report of synchronising one file: `existed` tells whether the entity
/// was already indexed; `assigned` is the id written back, if any.
pub fn sync_response(existed: bool, assigned: Option<String>) -> (r: SyncFileResponse)
    ensures
        r.updated == (if existed {
            1u32
        } else {
            0u32
        }),
        r.inserted == (if existed {
            0u32
        } else {
            1u32
        }),
        r.deleted == 0,
        r.needs_id_backfill == assigned is Some,
        r.assigned_id@ == (match assigned {
            Some(a) => a@,
            None => Seq::empty(),
        }),
{
    let (needs, id) = match assigned {
        Some(a) => (true, a),
        None => (false, String::new()),
    };
    SyncFileResponse {
        updated: if existed {
            1
        } else {
            0
        },
        inserted: if existed {
            0
        } else {
            1
        },
        deleted: 0,
        needs_id_backfill: needs,
        assigned_id: id,
    }
}

/// The report for a file that is not an entity (only its mtime is kept).
pub fn non_entity_response() -> (r: SyncFileResponse)
    ensures
        r.updated == 0 && r.inserted == 0 && r.deleted == 0 && !r.needs_id_backfill
            && r.assigned_id@ == Seq::<char>::empty(),
{
    SyncFileResponse {
        updated: 0,
        inserted: 0,
        deleted: 0,
        needs_id_backfill: false,
        assigned_id: String::new(),
    }
}

/// The task status stored for a file: its own, else `next`.
pub fn stored_task_status(s: &Option<String>) -> (r: String)
    ensures
        r@ == (match s {
            Some(v) => v@,
            None => "next"@,
        }),
{
    match s {
        Some(v) => v.clone(),
        None => string_of(chars_of("next").as_slice()),
    }
}

/// The question status stored for a file: its own, else `pending`.
pub fn stored_question_status(s: &Option<String>) -> (r: String)
    ensures
        r@ == (match s {
            Some(v) => v@,
            None => "pending"@,
        }),
{
    match s {
        Some(v) => v.clone(),
        None => string_of(chars_of("pending").as_slice()),
    }
}

// ---------------------------------------------------------------------------
// What synchronising one file writes
// ---------------------------------------------------------------------------

/// The rows of one synchronised entity. Every row of the entity is written
/// anew: the entity row, its kind's field row, its tags, its outgoing edges
/// (all previous ones dropped) and its search row `(id, title, content)`.
#[derive(Debug, Clone, PartialEq, Eq)]
pub struct EntityRows {
    pub id: String,
    pub kind: EntityKind,
    pub title: String,
    pub whiteboard_id: String,
    pub content: String,
    /// Card fields.
    pub understanding: String,
    pub source: String,
    /// Task fields.
    pub task_status: String,
    pub task_area: Option<String>,
    pub task_project: Option<String>,
    /// Question field.
    pub question_status: String,
    pub tags: Vec<String>,
    pub edges: Vec<(String, EdgeType)>,
    /// The id written back into the file when it had none.
    pub assigned: Option<String>,
}

/// What synchronising a file writes: only its mtime for a file that is not
/// an entity, else the entity's rows (and the mtime).
#[derive(Debug, Clone, PartialEq, Eq)]
pub enum SyncPlan {
    NonEntity,
    Entity(EntityRows),
}

/// The id of a new entity of kind `kind`: the kind's prefix followed by
/// `suffix`.
pub fn entity_id(kind: EntityKind, suffix: &str) -> (r: String)
    ensures
        r@ == kind.spec_id_prefix() + suffix@,
{
    let mut v = chars_of(kind.id_prefix());
    append(&mut v, &chars_of(suffix));
    string_of(v.as_slice())
}

/// The id an entity is stored under: its own, or the fresh one of its kind.
pub open spec fn spec_sync_id(own: Option<String>, k: EntityKind, fresh_suffix: Seq<char>) -> Seq<char> {
    match own {
        Some(i) => i@,
        None => k.spec_id_prefix() + fresh_suffix,
    }
}

/// The rows stored for the entity `p` of kind `k` read from the file at
/// `path`: every field as read, the kind's default status where none was
/// given, the edges of its link fields, and its whiteboard from the path.
pub open spec fn spec_rows_of(
    e: EntityRows,
    p: ParsedEntity,
    k: EntityKind,
    path: Seq<char>,
    fresh_suffix: Seq<char>,
) -> bool {
    &&& e.kind == k
    &&& e.id@ == spec_sync_id(p.id, k, fresh_suffix)
    &&& (e.assigned is Some <==> p.id is None)
    &&& (e.assigned matches Some(a) ==> a@ == e.id@)
    &&& e.title == p.title
    &&& e.content == p.content
    &&& e.whiteboard_id@ == spec_derive_whiteboard_id(path)
    &&& e.understanding == p.understanding
    &&& e.source == p.source
    &&& e.task_status@ == (match p.task_status {
        Some(v) => v@,
        None => "next"@,
    })
    &&& e.task_area == p.task_area
    &&& e.task_project == p.task_project
    &&& e.question_status@ == (match p.question_status {
        Some(v) => v@,
        None => "pending"@,
    })
    &&& e.tags == p.tags
    &&& edge_views(e.edges@) == spec_frontmatter_edges(
        string_views(p.link_to@),
        string_views(p.related@),
        string_views(p.see_also@),
    )
}

/// Plans the synchronisation of the file `file_path`, read as `parsed`
/// (`None` when it is not an entity). An entity without an id gets its
/// kind's prefix followed by `fresh_suffix`, and that id is to be written
/// back. An unknown entity type is an error.
pub fn plan_sync_file(file_path: &str, parsed: Option<ParsedEntity>, fresh_suffix: &str) -> (r: Result<
    SyncPlan,
    KeysightError,
>)
    ensures
        parsed is None ==> r == Ok::<SyncPlan, KeysightError>(SyncPlan::NonEntity),
        parsed is Some && spec_kind_of_type(parsed->Some_0.entity_type@) is None ==> (r matches Err(
            KeysightError::InvalidEntityType(m),
        ) && m@ == parsed->Some_0.entity_type@),
        parsed is Some && spec_kind_of_type(parsed->Some_0.entity_type@) is Some ==> (r matches Ok(
            SyncPlan::Entity(e),
        ) && spec_rows_of(
            e,
            parsed->Some_0,
            spec_kind_of_type(parsed->Some_0.entity_type@)->Some_0,
            file_path@,
            fresh_suffix@,
        )),
{
    let p = match parsed {
        None => return Ok(SyncPlan::NonEntity),
        Some(p) => p,
    };
    let kind = match kind_of_entity_type(p.entity_type.as_str()) {
        Ok(k) => k,
        Err(e) => return Err(e),
    };
    let fresh_id = entity_id(kind, fresh_suffix);
    let (id, needs) = choose_entity_id(&p.id, fresh_id.as_str());
    let assigned = if needs {
        Some(id.clone())
    } else {
        None
    };
    let edges = frontmatter_edges(&p);
    let task_status = stored_task_status(&p.task_status);
    let question_status = stored_question_status(&p.question_status);
    Ok(
        SyncPlan::Entity(
            EntityRows {
                id,
                kind,
                title: p.title,
                whiteboard_id: derive_whiteboard_id(file_path),
                content: p.content,
                understanding: p.understanding,
                source: p.source,
                task_status,
                task_area: p.task_area,
                task_project: p.task_project,
                question_status,
                tags: p.tags,
                edges,
                assigned,
            },
        ),
    )
}

/// The report owed for `plan`, `existed` telling whether the entity was
/// already indexed.
pub open spec fn spec_report_of(plan: SyncPlan, existed: bool, r: SyncFileResponse) -> bool {
    match plan {
        SyncPlan::NonEntity => r.updated == 0 && r.inserted == 0 && r.deleted == 0
            && !r.needs_id_backfill && r.assigned_id@ == Seq::<char>::empty(),
        SyncPlan::Entity(e) => {
            &&& r.deleted == 0
            &&& r.updated == (if existed { 1u32 } else { 0u32 })
            &&& r.inserted == (if existed { 0u32 } else { 1u32 })
            &&& (r.needs_id_backfill <==> e.assigned is Some)
            &&& r.assigned_id@ == (match e.assigned {
                Some(a) => a@,
                None => Seq::empty(),
            })
        },
    }
}

/// The report of a planned synchronisation, `existed` telling whether the
/// entity was already indexed: exactly one of inserted or updated, nothing
/// deleted, and the id written back when one was assigned.
pub fn sync_plan_response(plan: &SyncPlan, existed: bool) -> (r: SyncFileResponse)
    ensures
        spec_report_of(*plan, existed, r),
{
    match plan {
        SyncPlan::NonEntity => non_entity_response(),
        SyncPlan::Entity(e) => sync_response(existed, e.assigned.clone()),
    }
}

/// Synchronising an entity file reports exactly one row inserted (when the
/// id was not indexed before) or updated, none deleted; it asks for an id
/// to be written back exactly when the file had none, and that id is the
/// kind's prefix followed by the fresh suffix; otherwise no id is reported.
pub proof fn law_sync_report(
    e: EntityRows,
    p: ParsedEntity,
    k: EntityKind,
    path: Seq<char>,
    fresh_suffix: Seq<char>,
    existed: bool,
    r: SyncFileResponse,
)
    requires
        spec_rows_of(e, p, k, path, fresh_suffix),
        spec_report_of(SyncPlan::Entity(e), existed, r),
    ensures
        r.deleted == 0,
        r.inserted + r.updated == 1,
        r.inserted == 1 <==> !existed,
        r.needs_id_backfill <==> p.id is None,
        r.needs_id_backfill ==> r.assigned_id@ == k.spec_id_prefix() + fresh_suffix,
        !r.needs_id_backfill ==> r.assigned_id@ == Seq::<char>::empty(),
{
}

/// Positions that do not hold `c` are passed over in the search for the last
/// `c`.
proof fn lemma_last_index_passes(s: Seq<char>, c: char, m: int, n: int)
    requires
        0 <= m <= n <= s.len(),
        forall|j: int| m <= j < n ==> s[j] != c,
    ensures
        last_index_of(s, c, n) == last_index_of(s, c, m),
    decreases n - m,
{
    if m < n {
        lemma_last_index_passes(s, c, m, n - 1);
    }
}

/// A file in a folder under `whiteboard/` belongs to the whiteboard named by
/// that folder's whole path below `whiteboard/`; a file directly in
/// `whiteboard/`, or anywhere outside it, belongs to `wb_root`.
pub proof fn law_whiteboard_is_the_file_folder(dir: Seq<char>, file: Seq<char>, other: Seq<char>)
    requires
        forall|j: int| 0 <= j < file.len() ==> file[j] != '/',
    ensures
        dir.len() > 0 ==> spec_derive_whiteboard_id("whiteboard/"@ + dir + "/"@ + file) == dir,
        spec_derive_whiteboard_id("whiteboard/"@ + file) == "wb_root"@,
        !starts_with(other, "whiteboard/"@) ==> spec_derive_whiteboard_id(other) == "wb_root"@,
{
    reveal_strlit("whiteboard/");
    reveal_strlit("/");
    let w = "whiteboard/"@;
    assert(w.len() == 11);
    if dir.len() > 0 {
        let p = w + dir + "/"@ + file;
        assert(starts_with(p, w)) by {
            assert(p.subrange(0, 11) =~= w);
        }
        let rest = p.skip(11);
        assert(rest =~= dir + "/"@ + file);
        let k = dir.len() as int;
        assert(rest[k] == '/');
        assert forall|j: int| k + 1 <= j < rest.len() implies rest[j] != '/' by {
            assert(rest[j] == file[j - k - 1]);
        }
        lemma_last_index_passes(rest, '/', k + 1, rest.len() as int);
        assert(last_index_of(rest, '/', k + 1) == Some(k));
        assert(rest.take(k) =~= dir);
    }
    let q = w + file;
    assert(starts_with(q, w)) by {
        assert(q.subrange(0, 11) =~= w);
    }
    let rq = q.skip(11);
    assert(rq =~= file);
    lemma_last_index_passes(rq, '/', 0, rq.len() as int);
}

} // verus!
