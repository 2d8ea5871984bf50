//! Titles, file names, vault paths and the markdown the library writes for
//! tasks and questions.

use vstd::prelude::*;

use crate::errors::KeysightError;
use crate::card::law_marked_heading_reads_back;
use crate::models::{QuestionEntity, TaskStatus};
use crate::parser::{spec_entity_title, spec_skip_frontmatter};
use crate::text::{
    append, chars_of, contains, is_ws, join, join_vec, lemma_find_at, lemma_join_append,
    lemma_join_cons, match_at, push_line, starts_with, trim_start, replace_all, replace_vec, str_eq, string_of, trim,
    trim_end, trim_end_vec, trim_vec, views,
};

verus! {

// ---------------------------------------------------------------------------
// Titles and file-name components
// ---------------------------------------------------------------------------

/// The trimmed title, or `EmptyTitle` when nothing is left.
pub fn validate_title(title: &str) -> (r: Result<String, KeysightError>)
    ensures
        trim(title@).len() == 0 <==> r is Err,
        r matches Err(e) ==> e == KeysightError::EmptyTitle,
        r matches Ok(s) ==> s@ == trim(title@),
{
    let t = trim_vec(&chars_of(title));
    if t.len() == 0 {
        Err(KeysightError::EmptyTitle)
    } else {
        Ok(string_of(t.as_slice()))
    }
}

/// The text with markdown bold markers `**` removed.
pub open spec fn spec_filename_title_component(t: Seq<char>) -> Seq<char> {
    replace_all(t, "**"@, Seq::empty())
}

/// Removes markdown bold markers from a title used in a file name.
pub fn filename_title_component(text: &str) -> (r: String)
    ensures
        r@ == spec_filename_title_component(text@),
{
    let v = replace_vec(&chars_of(text), &chars_of("**"), &Vec::new());
    string_of(v.as_slice())
}

/// Characters that cannot stand in a file name on every platform.
pub open spec fn is_path_forbidden(c: char) -> bool {
    c == '/' || c == '\\' || c == ':' || c == '*' || c == '?' || c == '"' || c == '<' || c
        == '>' || c == '|'
}

pub fn is_path_forbidden_exec(c: char) -> (r: bool)
    ensures
        r == is_path_forbidden(c),
{
    c == '/' || c == '\\' || c == ':' || c == '*' || c == '?' || c == '"' || c == '<' || c
        == '>' || c == '|'
}

/// `s` with each forbidden file-name character replaced by `_`.
pub open spec fn underscore_forbidden(s: Seq<char>) -> Seq<char> {
    Seq::new(s.len(), |i: int| if is_path_forbidden(s[i]) { '_' } else { s[i] })
}

/// The file-name form of a title: bold markers removed, forbidden characters
/// replaced by `_`, trimmed, and `Untitled` when nothing is left.
pub open spec fn spec_sanitize_file_component(t: Seq<char>) -> Seq<char> {
    let c = trim(underscore_forbidden(spec_filename_title_component(t)));
    if c.len() == 0 {
        "Untitled"@
    } else {
        c
    }
}

fn sanitize_vec(text: &str) -> (r: Vec<char>)
    ensures
        r@ == spec_sanitize_file_component(text@),
{
    let base = replace_vec(&chars_of(text), &chars_of("**"), &Vec::new());
    let mut mapped: Vec<char> = Vec::new();
    let mut i: usize = 0;
    while i < base.len()
        invariant
            i <= base.len(),
            mapped@ == underscore_forbidden(base@).take(i as int),
        decreases base.len() - i,
    {
        let c = base[i];
        if is_path_forbidden_exec(c) {
            mapped.push('_');
        } else {
            mapped.push(c);
        }
        assert(mapped@ =~= underscore_forbidden(base@).take(i + 1));
        i = i + 1;
    }
    assert(underscore_forbidden(base@).take(base.len() as int) =~= underscore_forbidden(base@));
    let cleaned = trim_vec(&mapped);
    if cleaned.len() == 0 {
        chars_of("Untitled")
    } else {
        cleaned
    }
}

/// A title made safe to be one component of a file name.
pub fn sanitize_file_component(text: &str) -> (r: String)
    ensures
        r@ == spec_sanitize_file_component(text@),
{
    string_of(sanitize_vec(text).as_slice())
}

// ---------------------------------------------------------------------------
// Vault paths
// ---------------------------------------------------------------------------

/// Directory of a whiteboard's files, relative to the vault.
pub open spec fn spec_whiteboard_relative_dir(wb: Seq<char>) -> Seq<char> {
    if wb == "wb_root"@ {
        "whiteboard"@
    } else {
        "whiteboard/"@ + wb
    }
}

fn whiteboard_dir_vec(whiteboard_id: &str) -> (r: Vec<char>)
    ensures
        r@ == spec_whiteboard_relative_dir(whiteboard_id@),
{
    if str_eq(whiteboard_id, "wb_root") {
        chars_of("whiteboard")
    } else {
        let mut d = chars_of("whiteboard/");
        append(&mut d, &chars_of(whiteboard_id));
        d
    }
}

/// Directory of a whiteboard's files, relative to the vault.
pub fn whiteboard_relative_dir(whiteboard_id: &str) -> (r: String)
    ensures
        r@ == spec_whiteboard_relative_dir(whiteboard_id@),
{
    string_of(whiteboard_dir_vec(whiteboard_id).as_slice())
}

/// `{dir}/{id} 【QUE】{title}.md`.
pub open spec fn spec_question_relative_path(wb: Seq<char>, qid: Seq<char>, title: Seq<char>) -> Seq<
    char,
> {
    spec_whiteboard_relative_dir(wb) + "/"@ + qid + " 【QUE】"@ + spec_sanitize_file_component(title)
        + ".md"@
}

/// Path of a question's file, relative to the vault.
pub fn question_relative_path(whiteboard_id: &str, question_id: &str, title: &str) -> (r: String)
    ensures
        r@ == spec_question_relative_path(whiteboard_id@, question_id@, title@),
{
    let mut p = whiteboard_dir_vec(whiteboard_id);
    append(&mut p, &chars_of("/"));
    append(&mut p, &chars_of(question_id));
    append(&mut p, &chars_of(" 【QUE】"));
    append(&mut p, &sanitize_vec(title));
    append(&mut p, &chars_of(".md"));
    string_of(p.as_slice())
}

/// Where a question's file belongs: the current path when it already is the
/// wanted one, else the wanted one (so always the wanted one).
pub fn desired_question_relative_path(
    whiteboard_id: &str,
    question_id: &str,
    title: &str,
    current_file_path: Option<&str>,
) -> (r: String)
    ensures
        r@ == spec_question_relative_path(whiteboard_id@, question_id@, title@),
{
    let desired = question_relative_path(whiteboard_id, question_id, title);
    match current_file_path {
        Some(path) => {
            if path.len() > 0 && str_eq(path, desired.as_str()) {
                string_of(chars_of(path).as_slice())
            } else {
                desired
            }
        },
        None => desired,
    }
}

/// `whiteboard/projects/{project}/{id} 【TASK】{title}.md`.
pub open spec fn spec_task_relative_path(project: Seq<char>, task_id: Seq<char>, title: Seq<char>) -> Seq<
    char,
> {
    "whiteboard/projects/"@ + project + "/"@ + task_id + " 【TASK】"@ + spec_sanitize_file_component(
        title,
    ) + ".md"@
}

/// Path of a task's file, relative to the vault.
pub fn task_path_for(project: &str, task_id: &str, title: &str) -> (r: String)
    ensures
        r@ == spec_task_relative_path(project@, task_id@, title@),
{
    let mut p = chars_of("whiteboard/projects/");
    append(&mut p, &chars_of(project));
    append(&mut p, &chars_of("/"));
    append(&mut p, &chars_of(task_id));
    append(&mut p, &chars_of(" 【TASK】"));
    append(&mut p, &sanitize_vec(title));
    append(&mut p, &chars_of(".md"));
    string_of(p.as_slice())
}

// ---------------------------------------------------------------------------
// Markdown of tasks and questions
// ---------------------------------------------------------------------------

/// An optional string that is present and not empty.
pub open spec fn nonempty_opt(o: Option<Seq<char>>) -> bool {
    o is Some && o.unwrap().len() > 0
}

/// Lines of a file written by the library: frontmatter `head` lines between
/// `---` markers, a blank line, the H1 `heading`, a blank line, the trimmed
/// body when it is not empty, and an empty last line.
pub open spec fn document_lines(head: Seq<Seq<char>>, heading: Seq<char>, content: Seq<char>) -> Seq<
    Seq<char>,
> {
    let body = trim_end(content);
    seq!["---"@] + head + seq!["---"@, Seq::empty(), heading, Seq::empty()] + (if body.len() > 0 {
        seq![body]
    } else {
        Seq::empty()
    }) + seq![Seq::empty()]
}

/// The status of a task as written in files and the database.
pub open spec fn spec_task_status_str(s: TaskStatus) -> Seq<char> {
    match s {
        TaskStatus::Inbox => "inbox"@,
        TaskStatus::Next => "next"@,
        TaskStatus::Active => "active"@,
        TaskStatus::Blocked => "blocked"@,
        TaskStatus::Done => "done"@,
    }
}

/// The status of a task as written in files and the database.
pub fn task_status_to_str(status: TaskStatus) -> (r: &'static str)
    ensures
        r@ == spec_task_status_str(status),
{
    match status {
        TaskStatus::Inbox => "inbox",
        TaskStatus::Next => "next",
        TaskStatus::Active => "active",
        TaskStatus::Blocked => "blocked",
        TaskStatus::Done => "done",
    }
}

/// Frontmatter lines of a task file.
pub open spec fn task_head(
    task_id: Seq<char>,
    status: TaskStatus,
    project: Seq<char>,
    area: Option<Seq<char>>,
    color: Option<Seq<char>>,
) -> Seq<Seq<char>> {
    seq!["type: project-task"@, "id: "@ + task_id, "status: "@ + spec_task_status_str(status)]
        + (if nonempty_opt(area) {
        seq!["area: "@ + area.unwrap()]
    } else {
        Seq::empty()
    }) + seq!["project: "@ + project] + (if nonempty_opt(color) {
        seq!["color: \""@ + color.unwrap() + "\""@]
    } else {
        Seq::empty()
    })
}

/// The markdown of a task file.
pub open spec fn spec_task_markdown(
    task_id: Seq<char>,
    title: Seq<char>,
    content: Seq<char>,
    status: TaskStatus,
    project: Seq<char>,
    area: Option<Seq<char>>,
    color: Option<Seq<char>>,
) -> Seq<char> {
    join(
        document_lines(
            task_head(task_id, status, project, area, color),
            "# 【TASK】"@ + title,
            content,
        ),
        "\n"@,
    )
}

pub open spec fn opt_str_view(o: Option<&str>) -> Option<Seq<char>> {
    match o {
        Some(s) => Some(s@),
        None => None,
    }
}

pub open spec fn opt_string_view(o: Option<String>) -> Option<Seq<char>> {
    match o {
        Some(s) => Some(s@),
        None => None,
    }
}

fn cat(a: &str, b: &str) -> (r: Vec<char>)
    ensures
        r@ == a@ + b@,
{
    let mut v = chars_of(a);
    append(&mut v, &chars_of(b));
    v
}

/// Lines of a document: `---`, `head`, `---`, blank, heading, blank, body, blank.
fn document_lines_vec(head: Vec<Vec<char>>, heading: Vec<char>, content: &str) -> (r: Vec<
    Vec<char>,
>)
    ensures
        views(r@) == document_lines(views(head@), heading@, content@),
{
    let mut lines: Vec<Vec<char>> = Vec::new();
    lines.push(chars_of("---"));
    let mut i: usize = 0;
    while i < head.len()
        invariant
            i <= head.len(),
            views(lines@) == seq!["---"@] + views(head@).take(i as int),
        decreases head.len() - i,
    {
        let ghost before = views(lines@);
        lines.push(crate::text::copy_vec(&head[i]));
        assert(views(lines@) =~= before.push(head@[i as int]@));
        assert(views(head@).take(i + 1) =~= views(head@).take(i as int).push(head@[i as int]@));
        i = i + 1;
    }
    assert(views(head@).take(head.len() as int) =~= views(head@));
    let ghost mid = views(lines@);
    lines.push(chars_of("---"));
    lines.push(Vec::new());
    lines.push(heading);
    lines.push(Vec::new());
    let body = trim_end_vec(&chars_of(content));
    let has_body = body.len() > 0;
    if has_body {
        lines.push(body);
    }
    lines.push(Vec::new());
    assert(views(lines@) =~= document_lines(views(head@), heading@, content@));
    lines
}

/// The markdown of a task file: frontmatter with type, id, status, area when
/// given and not empty, project, quoted colour when given and not empty, then
/// the `# 【TASK】` title and the trimmed body.
pub fn task_markdown_for(
    task_id: &str,
    title: &str,
    content: &str,
    status: TaskStatus,
    project: &str,
    area: Option<&str>,
    color: Option<&str>,
) -> (r: String)
    ensures
        r@ == spec_task_markdown(
            task_id@,
            title@,
            content@,
            status,
            project@,
            opt_str_view(area),
            opt_str_view(color),
        ),
{
    let mut head: Vec<Vec<char>> = Vec::new();
    push_line(&mut head, chars_of("type: project-task"));
    push_line(&mut head, cat("id: ", task_id));
    push_line(&mut head, cat("status: ", task_status_to_str(status)));
    let ghost h1 = views(head@);
    match area {
        Some(a) => {
            if chars_of(a).len() > 0 {
                push_line(&mut head, cat("area: ", a));
            }
        },
        None => {},
    }
    assert(views(head@) =~= h1 + (if nonempty_opt(opt_str_view(area)) {
        seq!["area: "@ + opt_str_view(area).unwrap()]
    } else {
        Seq::<Seq<char>>::empty()
    }));
    push_line(&mut head, cat("project: ", project));
    let ghost h2 = views(head@);
    match color {
        Some(c) => {
            if chars_of(c).len() > 0 {
                let mut line = cat("color: \"", c);
                append(&mut line, &chars_of("\""));
                push_line(&mut head, line);
            }
        },
        None => {},
    }
    assert(views(head@) =~= h2 + (if nonempty_opt(opt_str_view(color)) {
        seq!["color: \""@ + opt_str_view(color).unwrap() + "\""@]
    } else {
        Seq::<Seq<char>>::empty()
    }));
    assert(views(head@) =~= task_head(
        task_id@,
        status,
        project@,
        opt_str_view(area),
        opt_str_view(color),
    ));
    let lines = document_lines_vec(head, cat("# 【TASK】", title), content);
    let out = join_vec(&lines, &chars_of("\n"));
    string_of(out.as_slice())
}

/// Frontmatter lines of a question file.
pub open spec fn question_head(id: Seq<char>, status: Seq<char>, color: Option<Seq<char>>) -> Seq<
    Seq<char>,
> {
    seq!["type: question"@, "id: "@ + id, "status: "@ + status] + (if nonempty_opt(color) {
        seq!["color: \""@ + color.unwrap() + "\""@]
    } else {
        Seq::empty()
    })
}

/// The markdown of a question file.
pub open spec fn spec_question_markdown(q: QuestionEntity) -> Seq<char> {
    join(
        document_lines(
            question_head(q.id@, q.status@, opt_string_view(q.color)),
            "# 【QUE】"@ + q.title@,
            q.content@,
        ),
        "\n"@,
    )
}

/// The markdown of a question file: frontmatter with type, id, status and a
/// quoted colour when set and not empty, then the `# 【QUE】` title and the
/// trimmed body.
pub fn render_question_markdown(question: &QuestionEntity) -> (r: String)
    ensures
        r@ == spec_question_markdown(*question),
{
    let mut head: Vec<Vec<char>> = Vec::new();
    push_line(&mut head, chars_of("type: question"));
    push_line(&mut head, cat("id: ", question.id.as_str()));
    push_line(&mut head, cat("status: ", question.status.as_str()));
    let ghost h1 = views(head@);
    match &question.color {
        Some(c) => {
            if chars_of(c.as_str()).len() > 0 {
                let mut line = cat("color: \"", c.as_str());
                append(&mut line, &chars_of("\""));
                push_line(&mut head, line);
            }
        },
        None => {},
    }
    assert(views(head@) =~= h1 + (if nonempty_opt(opt_string_view(question.color)) {
        seq!["color: \""@ + opt_string_view(question.color).unwrap() + "\""@]
    } else {
        Seq::<Seq<char>>::empty()
    }));
    assert(views(head@) =~= question_head(
        question.id@,
        question.status@,
        opt_string_view(question.color),
    ));
    let lines = document_lines_vec(
        head,
        cat("# 【QUE】", question.title.as_str()),
        question.content.as_str(),
    );
    let out = join_vec(&lines, &chars_of("\n"));
    string_of(out.as_slice())
}

/// A question's file opens with its frontmatter, whose first lines record
/// its type, its id and its status (so reading the file back gives the
/// question's status).
#[verifier::spinoff_prover]
pub proof fn law_question_file_records_status(q: QuestionEntity)
    ensures
        match_at(
            spec_question_markdown(q),
            "---\ntype: question\nid: "@ + q.id@ + "\nstatus: "@ + q.status@ + "\n"@,
            0,
        ),
{
    reveal_strlit("---\ntype: question\nid: ");
    reveal_strlit("---");
    reveal_strlit("type: question");
    reveal_strlit("id: ");
    reveal_strlit("\nstatus: ");
    reveal_strlit("status: ");
    reveal_strlit("\n");
    let sep = "\n"@;
    let dl = document_lines(
        question_head(q.id@, q.status@, opt_string_view(q.color)),
        "# 【QUE】"@ + q.title@,
        q.content@,
    );
    let l0 = "---"@;
    let l1 = "type: question"@;
    let l2 = "id: "@ + q.id@;
    let l3 = "status: "@ + q.status@;
    assert(dl[0] == l0 && dl[1] == l1 && dl[2] == l2 && dl[3] == l3);
    let r1 = dl.skip(1);
    let r2 = dl.skip(2);
    let r3 = dl.skip(3);
    let r4 = dl.skip(4);
    assert(dl =~= seq![l0] + r1);
    assert(r1 =~= seq![l1] + r2);
    assert(r2 =~= seq![l2] + r3);
    assert(r3 =~= seq![l3] + r4);
    lemma_join_cons(l0, r1, sep);
    lemma_join_cons(l1, r2, sep);
    lemma_join_cons(l2, r3, sep);
    lemma_join_cons(l3, r4, sep);
    let p = "---\ntype: question\nid: "@ + q.id@ + "\nstatus: "@ + q.status@ + "\n"@;
    let m = spec_question_markdown(q);
    assert(m == l0 + sep + (l1 + sep + (l2 + sep + (l3 + sep + join(r4, sep)))));
    assert(p =~= l0 + sep + l1 + sep + l2 + sep + l3 + sep);
    assert(m.subrange(0, p.len() as int) =~= p);
}

/// Lines without line breaks, none empty and none starting with `-`: their
/// join starts with a character other than `-`, and so does what follows
/// each of its line breaks.
proof fn lemma_no_dash_after_break(ls: Seq<Seq<char>>)
    requires
        ls.len() > 0,
        forall|k: int, j: int| 0 <= k < ls.len() && 0 <= j < ls[k].len() ==> ls[k][j] != '\n',
        forall|k: int| 0 <= k < ls.len() ==> ls[k].len() > 0 && ls[k][0] != '-',
    ensures
        join(ls, "\n"@).len() > 0 && join(ls, "\n"@)[0] != '-',
        forall|j: int|
            0 <= j < join(ls, "\n"@).len() && #[trigger] join(ls, "\n"@)[j] == '\n' ==> j + 1 < join(
                ls,
                "\n"@,
            ).len() && join(ls, "\n"@)[j + 1] != '-',
    decreases ls.len(),
{
    reveal_strlit("\n");
    if ls.len() == 1 {
        assert(join(ls, "\n"@) == ls[0]);
    } else {
        let d = ls.drop_last();
        assert forall|k: int, j: int| 0 <= k < d.len() && 0 <= j < d[k].len() implies d[k][j]
            != '\n' by {
            assert(d[k] == ls[k]);
        }
        assert forall|k: int| 0 <= k < d.len() implies d[k].len() > 0 && d[k][0] != '-' by {
            assert(d[k] == ls[k]);
        }
        lemma_no_dash_after_break(d);
        let jd = join(d, "\n"@);
        let x = ls.last();
        let s = join(ls, "\n"@);
        assert(s == jd + "\n"@ + x);
        assert(s[0] == jd[0]);
        assert forall|j: int| 0 <= j < s.len() && #[trigger] s[j] == '\n' implies j + 1 < s.len() && s[j
            + 1] != '-' by {
            if j < jd.len() {
                assert(s[j] == jd[j]);
                if j + 1 < jd.len() {
                    assert(s[j + 1] == jd[j + 1]);
                }
            } else if j == jd.len() {
                assert(x == ls[ls.len() - 1]);
                assert(s[j + 1] == x[0]);
            } else {
                assert(s[j] == x[j - jd.len() - 1]);
                assert(x == ls[ls.len() - 1]);
            }
        }
    }
}

/// The lines after the heading of a file the library writes.
spec fn doc_after(content: Seq<char>) -> Seq<Seq<char>> {
    let body = trim_end(content);
    seq![Seq::<char>::empty()] + (if body.len() > 0 {
        seq![body]
    } else {
        Seq::<Seq<char>>::empty()
    }) + seq![Seq::<char>::empty()]
}

/// A file the library writes is its frontmatter lines between `---` lines,
/// a blank line, the heading, and what follows.
proof fn lemma_document_parts(head: Seq<Seq<char>>, heading: Seq<char>, content: Seq<char>)
    requires
        head.len() > 0,
    ensures
        join(document_lines(head, heading, content), "\n"@) == "---"@ + "\n"@ + join(head, "\n"@)
            + "\n---"@ + ("\n\n"@ + heading + "\n"@ + join(doc_after(content), "\n"@)),
{
    reveal_strlit("\n");
    reveal_strlit("\n---");
    reveal_strlit("\n\n");
    reveal_strlit("---");
    let sep = "\n"@;
    let after = doc_after(content);
    let tail = seq!["---"@, Seq::<char>::empty(), heading] + after;
    let dl = document_lines(head, heading, content);
    assert(dl =~= seq!["---"@] + (head + tail));
    lemma_join_cons("---"@, head + tail, sep);
    lemma_join_append(head, tail, sep);
    assert(tail =~= seq!["---"@] + (seq![Seq::<char>::empty(), heading] + after));
    lemma_join_cons("---"@, seq![Seq::<char>::empty(), heading] + after, sep);
    assert(seq![Seq::<char>::empty(), heading] + after =~= seq![Seq::<char>::empty()] + (seq![
        heading,
    ] + after));
    lemma_join_cons(Seq::<char>::empty(), seq![heading] + after, sep);
    lemma_join_cons(heading, after, sep);
    let hj = join(head, sep);
    let ja = join(after, sep);
    assert(join(dl, sep) =~= "---"@ + sep + hj + "\n---"@ + ("\n\n"@ + heading + sep + ja));
}

/// The frontmatter lines of a question with an id, status and colour each
/// on one line hold no line break followed by `-`, and do not start with
/// `-`.
proof fn lemma_question_head_lines(q: QuestionEntity)
    requires
        forall|j: int| 0 <= j < q.id@.len() ==> q.id@[j] != '\n',
        forall|j: int| 0 <= j < q.status@.len() ==> q.status@[j] != '\n',
        q.color matches Some(c) ==> forall|j: int| 0 <= j < c@.len() ==> c@[j] != '\n',
    ensures
        ({
            let hj = join(question_head(q.id@, q.status@, opt_string_view(q.color)), "\n"@);
            &&& hj.len() > 0 && hj[0] != '-'
            &&& forall|j: int|
                0 <= j < hj.len() && #[trigger] hj[j] == '\n' ==> j + 1 < hj.len() && hj[j + 1]
                    != '-'
        }),
{
    reveal_strlit("type: question");
    reveal_strlit("id: ");
    reveal_strlit("status: ");
    reveal_strlit("color: \"");
    reveal_strlit("\"");
    let head = question_head(q.id@, q.status@, opt_string_view(q.color));
    assert forall|k: int, j: int| 0 <= k < head.len() && 0 <= j < head[k].len() implies head[k][j]
        != '\n' by {
        if k == 1 {
            if j >= 4 {
                assert(head[k][j] == q.id@[j - 4]);
            }
        } else if k == 2 {
            if j >= 8 {
                assert(head[k][j] == q.status@[j - 8]);
            }
        } else if k == 3 {
            let c = opt_string_view(q.color).unwrap();
            if 8 <= j < 8 + c.len() {
                assert(head[k][j] == c[j - 8]);
            }
        }
    }
    assert forall|k: int| 0 <= k < head.len() implies head[k].len() > 0 && head[k][0] != '-' by {}
    lemma_no_dash_after_break(head);
}

/// Frontmatter whose lines hold no line break followed by `-` closes at the
/// first `\n---` after them.
proof fn lemma_skip_after_head(hj: Seq<char>, rest: Seq<char>)
    requires
        hj.len() > 0 && hj[0] != '-',
        forall|j: int| 0 <= j < hj.len() && #[trigger] hj[j] == '\n' ==> j + 1 < hj.len() && hj[j + 1] != '-',
    ensures
        spec_skip_frontmatter("---"@ + "\n"@ + hj + "\n---"@ + rest) == rest,
{
    reveal_strlit("\n");
    reveal_strlit("---");
    reveal_strlit("\n---");
    let m = "---"@ + "\n"@ + hj + "\n---"@ + rest;
    assert(m[0] == '-');
    assert(trim_start(m) == m);
    assert(starts_with(m, "---"@)) by {
        assert(m.subrange(0, 3) =~= "---"@);
    }
    let a = m.skip(3);
    let pat = "\n---"@;
    let c: int = 1 + hj.len() as int;
    assert(a =~= "\n"@ + hj + pat + rest);
    assert(match_at(a, pat, c)) by {
        assert(a.subrange(c, c + 4) =~= pat);
    }
    assert forall|j: int| 0 <= j < c implies !match_at(a, pat, j) by {
        if match_at(a, pat, j) {
            let w = a.subrange(j, j + 4);
            assert(w[0] == a[j] && w[1] == a[j + 1]);
            assert(w[0] == pat[0] && w[1] == pat[1]);
            if j == 0 {
                assert(a[1] == hj[0]);
            } else {
                assert(a[j] == hj[j - 1]);
                assert(a[j + 1] == hj[j]);
            }
        }
    }
    lemma_find_at(a, pat, 0, c);
    assert(a.skip(c + 4) =~= rest);
}

/// Reading a question's file back gives the question's title, for a title
/// on one line, without surrounding whitespace and without file markers, and
/// an id, status and colour each on one line.
pub proof fn law_question_file_reads_back_title(q: QuestionEntity)
    requires
        forall|j: int| 0 <= j < q.id@.len() ==> q.id@[j] != '\n',
        forall|j: int| 0 <= j < q.status@.len() ==> q.status@[j] != '\n',
        q.color matches Some(c) ==> forall|j: int| 0 <= j < c@.len() ==> c@[j] != '\n',
        forall|j: int| 0 <= j < q.title@.len() ==> q.title@[j] != '\n' && q.title@[j] != '\r',
        q.title@.len() > 0 ==> !is_ws(q.title@[0]) && !is_ws(q.title@.last()),
        !contains(q.title@, "【ATC】"@),
        !contains(q.title@, "【NOTE】"@),
        !contains(q.title@, "【TASK】"@),
        !contains(q.title@, "【QUE】"@),
    ensures
        spec_entity_title("question"@, spec_question_markdown(q)) == q.title@,
{
    reveal_strlit("\n");
    reveal_strlit("\n\n");
    reveal_strlit("# 【QUE】");
    reveal_strlit("# ");
    reveal_strlit("【QUE】");
    reveal_strlit("question");
    reveal_strlit("atomic-card");
    let head = question_head(q.id@, q.status@, opt_string_view(q.color));
    lemma_document_parts(head, "# 【QUE】"@ + q.title@, q.content@);
    lemma_question_head_lines(q);
    let hj = join(head, "\n"@);
    let ja = join(doc_after(q.content@), "\n"@);
    let rest = "\n\n"@ + ("# 【QUE】"@ + q.title@) + "\n"@ + ja;
    lemma_skip_after_head(hj, rest);
    assert(rest =~= Seq::new(2, |i: int| '\n') + "# "@ + "【QUE】"@ + q.title@ + "\n"@ + ja);
    law_marked_heading_reads_back(2, "【QUE】"@, q.title@, ja);
    assert("question"@ != "atomic-card"@) by {
        assert("question"@.len() != "atomic-card"@.len());
    }
}

/// A task's file opens with its frontmatter, whose first lines record its
/// type, its id and its status (so reading the file back gives the task's
/// status).
#[verifier::spinoff_prover]
#[verifier::rlimit(40)]
pub proof fn law_task_file_records_status(
    task_id: Seq<char>,
    title: Seq<char>,
    content: Seq<char>,
    status: TaskStatus,
    project: Seq<char>,
    area: Option<Seq<char>>,
    color: Option<Seq<char>>,
)
    ensures
        match_at(
            spec_task_markdown(task_id, title, content, status, project, area, color),
            "---\ntype: project-task\nid: "@ + task_id + "\nstatus: "@ + spec_task_status_str(status)
                + "\n"@,
            0,
        ),
{
    reveal_strlit("---\ntype: project-task\nid: ");
    reveal_strlit("---");
    reveal_strlit("type: project-task");
    reveal_strlit("id: ");
    reveal_strlit("\nstatus: ");
    reveal_strlit("status: ");
    reveal_strlit("\n");
    let sep = "\n"@;
    let dl = document_lines(
        task_head(task_id, status, project, area, color),
        "# 【TASK】"@ + title,
        content,
    );
    let l0 = "---"@;
    let l1 = "type: project-task"@;
    let l2 = "id: "@ + task_id;
    let l3 = "status: "@ + spec_task_status_str(status);
    assert(dl[0] == l0 && dl[1] == l1 && dl[2] == l2 && dl[3] == l3);
    let r1 = dl.skip(1);
    let r2 = dl.skip(2);
    let r3 = dl.skip(3);
    let r4 = dl.skip(4);
    assert(dl =~= seq![l0] + r1);
    assert(r1 =~= seq![l1] + r2);
    assert(r2 =~= seq![l2] + r3);
    assert(r3 =~= seq![l3] + r4);
    lemma_join_cons(l0, r1, sep);
    lemma_join_cons(l1, r2, sep);
    lemma_join_cons(l2, r3, sep);
    lemma_join_cons(l3, r4, sep);
    let p = "---\ntype: project-task\nid: "@ + task_id + "\nstatus: "@ + spec_task_status_str(status)
        + "\n"@;
    let m = spec_task_markdown(task_id, title, content, status, project, area, color);
    assert(m == l0 + sep + (l1 + sep + (l2 + sep + (l3 + sep + join(r4, sep)))));
    assert(p =~= l0 + sep + l1 + sep + l2 + sep + l3 + sep);
    assert(m.subrange(0, p.len() as int) =~= p);
}

/// Reading a task's file back gives the task's title, for a title on one
/// line, without surrounding whitespace and without file markers, and an
/// id, project, area and colour each on one line.
pub proof fn law_task_file_reads_back_title(
    task_id: Seq<char>,
    title: Seq<char>,
    content: Seq<char>,
    status: TaskStatus,
    project: Seq<char>,
    area: Option<Seq<char>>,
    color: Option<Seq<char>>,
)
    requires
        forall|j: int| 0 <= j < task_id.len() ==> task_id[j] != '\n',
        forall|j: int| 0 <= j < project.len() ==> project[j] != '\n',
        area matches Some(a) ==> forall|j: int| 0 <= j < a.len() ==> a[j] != '\n',
        color matches Some(c) ==> forall|j: int| 0 <= j < c.len() ==> c[j] != '\n',
        forall|j: int| 0 <= j < title.len() ==> title[j] != '\n' && title[j] != '\r',
        title.len() > 0 ==> !is_ws(title[0]) && !is_ws(title.last()),
        !contains(title, "【ATC】"@),
        !contains(title, "【NOTE】"@),
        !contains(title, "【TASK】"@),
        !contains(title, "【QUE】"@),
    ensures
        spec_entity_title(
            "project-task"@,
            spec_task_markdown(task_id, title, content, status, project, area, color),
        ) == title,
{
    reveal_strlit("\n");
    reveal_strlit("\n\n");
    reveal_strlit("# 【TASK】");
    reveal_strlit("# ");
    reveal_strlit("【TASK】");
    reveal_strlit("project-task");
    reveal_strlit("atomic-card");
    reveal_strlit("type: project-task");
    reveal_strlit("id: ");
    reveal_strlit("status: ");
    reveal_strlit("area: ");
    reveal_strlit("project: ");
    reveal_strlit("color: \"");
    reveal_strlit("\"");
    reveal_strlit("inbox");
    reveal_strlit("next");
    reveal_strlit("active");
    reveal_strlit("blocked");
    reveal_strlit("done");
    let head = task_head(task_id, status, project, area, color);
    let heading = "# 【TASK】"@ + title;
    lemma_document_parts(head, heading, content);
    let st = spec_task_status_str(status);
    assert forall|j: int| 0 <= j < st.len() implies st[j] != '\n' by {}
    assert forall|k: int, j: int| 0 <= k < head.len() && 0 <= j < head[k].len() implies head[k][j]
        != '\n' by {
        let ln = head[k];
        if k == 1 {
            if j >= 4 {
                assert(ln[j] == task_id[j - 4]);
            }
        } else if k == 2 {
            if j >= 8 {
                assert(ln[j] == st[j - 8]);
            }
        } else if k >= 3 {
            if nonempty_opt(area) && k == 3 {
                if j >= 6 {
                    assert(ln[j] == area.unwrap()[j - 6]);
                }
            } else if ln == "project: "@ + project {
                if j >= 9 {
                    assert(ln[j] == project[j - 9]);
                }
            } else {
                let c = color.unwrap();
                assert(ln == "color: \""@ + c + "\""@);
                if 8 <= j < 8 + c.len() {
                    assert(ln[j] == c[j - 8]);
                }
            }
        }
    }
    assert forall|k: int| 0 <= k < head.len() implies head[k].len() > 0 && head[k][0] != '-' by {}
    lemma_no_dash_after_break(head);
    let hj = join(head, "\n"@);
    let ja = join(doc_after(content), "\n"@);
    let rest = "\n\n"@ + heading + "\n"@ + ja;
    lemma_skip_after_head(hj, rest);
    assert(rest =~= Seq::new(2, |i: int| '\n') + "# "@ + "【TASK】"@ + title + "\n"@ + ja);
    law_marked_heading_reads_back(2, "【TASK】"@, title, ja);
    assert("project-task"@ != "atomic-card"@) by {
        assert("project-task"@.len() != "atomic-card"@.len());
    }
}

/// A character a file name may hold on every platform.
pub open spec fn file_name_char(c: char) -> bool {
    c != '/' && c != '\\' && c != ':' && c != '*' && c != '?' && c != '"' && c != '<' && c != '>'
        && c != '|'
}

proof fn lemma_trim_start_keeps_chars(s: Seq<char>)
    requires
        forall|i: int| 0 <= i < s.len() ==> file_name_char(s[i]),
    ensures
        forall|i: int| 0 <= i < trim_start(s).len() ==> file_name_char(#[trigger] trim_start(s)[i]),
        trim_start(s).len() > 0 ==> !is_ws(trim_start(s)[0]),
    decreases s.len(),
{
    if s.len() > 0 && is_ws(s[0]) {
        assert forall|i: int| 0 <= i < s.drop_first().len() implies file_name_char(
            s.drop_first()[i],
        ) by {
            assert(s.drop_first()[i] == s[i + 1]);
        }
        lemma_trim_start_keeps_chars(s.drop_first());
    }
}

proof fn lemma_trim_end_keeps_chars(s: Seq<char>)
    requires
        forall|i: int| 0 <= i < s.len() ==> file_name_char(s[i]),
    ensures
        forall|i: int| 0 <= i < trim_end(s).len() ==> file_name_char(#[trigger] trim_end(s)[i]),
        trim_end(s).len() > 0 ==> !is_ws(trim_end(s).last()),
        trim_end(s).len() <= s.len(),
        forall|i: int| 0 <= i < trim_end(s).len() ==> trim_end(s)[i] == s[i],
    decreases s.len(),
{
    if s.len() > 0 && is_ws(s.last()) {
        assert forall|i: int| 0 <= i < s.drop_last().len() implies file_name_char(
            s.drop_last()[i],
        ) by {
            assert(s.drop_last()[i] == s[i]);
        }
        lemma_trim_end_keeps_chars(s.drop_last());
        assert forall|i: int| 0 <= i < trim_end(s).len() implies trim_end(s)[i] == s[i] by {
            assert(s.drop_last()[i] == s[i]);
        }
    }
}

/// The file-name form of any title can stand as a file name: it is not
/// empty, has no surrounding whitespace, and holds none of `/ \\ : * ? " < > |`.
pub proof fn law_file_name_component_is_safe(title: Seq<char>)
    ensures
        spec_sanitize_file_component(title).len() > 0,
        !is_ws(spec_sanitize_file_component(title)[0]),
        !is_ws(spec_sanitize_file_component(title).last()),
        forall|i: int|
            0 <= i < spec_sanitize_file_component(title).len() ==> file_name_char(
                #[trigger] spec_sanitize_file_component(title)[i],
            ),
{
    reveal_strlit("Untitled");
    let u = underscore_forbidden(spec_filename_title_component(title));
    assert forall|i: int| 0 <= i < u.len() implies file_name_char(u[i]) by {}
    lemma_trim_start_keeps_chars(u);
    let ts = trim_start(u);
    lemma_trim_end_keeps_chars(ts);
    let c = trim(u);
    if c.len() > 0 {
        assert(c[0] == ts[0]);
    } else {
        let r = "Untitled"@;
        assert(r[0] == 'U' && r.last() == 'd');
        assert forall|i: int| 0 <= i < r.len() implies file_name_char(r[i]) by {}
    }
}

} // verus!
