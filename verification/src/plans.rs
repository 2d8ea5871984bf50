//! What creating or updating a task or question writes: the new field values,
//! the file path, the markdown, and the old file to remove after a rename.

use vstd::prelude::*;

use crate::errors::KeysightError;
use crate::models::{QuestionEntity, TaskEntity, TaskStatus};
use crate::naming::{
    desired_question_relative_path, opt_str_view, opt_string_view, question_relative_path,
    render_question_markdown, spec_question_markdown, task_markdown_for,
    spec_question_relative_path, spec_task_markdown, spec_task_relative_path, task_path_for,
    validate_title,
};
use crate::project::{project_name_problem, valid_project_name, ProjectName};
use crate::text::{append, chars_of, str_eq, string_of, trim, trim_end_char, trim_end_char_vec};

verus! {

/// A file to write, relative to the vault.
#[derive(Debug, Clone, PartialEq, Eq)]
pub struct FileWrite {
    pub relative_path: String,
    pub markdown: String,
}

/// The writes of an update: the file, and the old file to delete when the
/// file moved.
#[derive(Debug, Clone, PartialEq, Eq)]
pub struct UpdateWrite {
    pub relative_path: String,
    pub markdown: String,
    pub remove_path: Option<String>,
}

fn owned(s: &str) -> (r: String)
    ensures
        r@ == s@,
{
    string_of(chars_of(s).as_slice())
}

// ---------------------------------------------------------------------------
// Colours
// ---------------------------------------------------------------------------

/// The colour after an update: `"default"` clears it, another value replaces
/// it, no value keeps the current one.
pub open spec fn spec_next_color(input: Option<Seq<char>>, current: Option<Seq<char>>) -> Option<
    Seq<char>,
> {
    match input {
        Some(c) => if c == "default"@ {
            None
        } else {
            Some(c)
        },
        None => current,
    }
}

/// The colour after an update with `input` of an entity coloured `current`.
pub fn next_color(input: Option<&str>, current: Option<String>) -> (r: Option<String>)
    ensures
        opt_string_view(r) == spec_next_color(opt_str_view(input), opt_string_view(current)),
{
    match input {
        Some(c) => {
            if str_eq(c, "default") {
                None
            } else {
                Some(owned(c))
            }
        },
        None => current,
    }
}

/// A colour given for a new entity, kept only when not empty.
pub open spec fn spec_initial_color(c: Option<Seq<char>>) -> Option<Seq<char>> {
    match c {
        Some(v) => if v.len() > 0 {
            Some(v)
        } else {
            None
        },
        None => None,
    }
}

fn initial_color(c: Option<&str>) -> (r: Option<String>)
    ensures
        opt_string_view(r) == spec_initial_color(opt_str_view(c)),
{
    match c {
        Some(v) => {
            if chars_of(v).len() > 0 {
                Some(owned(v))
            } else {
                None
            }
        },
        None => None,
    }
}

/// `o` when present and not empty.
pub open spec fn spec_nonempty_path(o: Option<Seq<char>>) -> Option<Seq<char>> {
    spec_initial_color(o)
}

/// The old path to remove: the previous one when it is set and differs from
/// the new one.
pub open spec fn spec_remove_path(previous: Option<Seq<char>>, new_path: Seq<char>) -> Option<
    Seq<char>,
> {
    match spec_nonempty_path(previous) {
        Some(p) => if p != new_path {
            Some(p)
        } else {
            None
        },
        None => None,
    }
}

fn remove_path(previous: Option<String>, new_path: &String) -> (r: Option<String>)
    ensures
        opt_string_view(r) == spec_remove_path(opt_string_view(previous), new_path@),
{
    match previous {
        Some(p) => {
            if chars_of(p.as_str()).len() > 0 && !str_eq(p.as_str(), new_path.as_str()) {
                Some(p)
            } else {
                None
            }
        },
        None => None,
    }
}

// ---------------------------------------------------------------------------
// Tasks
// ---------------------------------------------------------------------------

/// Fields of a new task.
#[derive(Debug, Clone, PartialEq, Eq)]
pub struct TaskCreateInput {
    pub title: String,
    pub content: Option<String>,
    pub status: TaskStatus,
    pub area: Option<String>,
    pub color: Option<String>,
}

/// Changes to a task; `None` keeps the current value.
#[derive(Debug, Clone, PartialEq, Eq)]
pub struct TaskUpdateInput {
    pub title: Option<String>,
    pub content: Option<String>,
    pub status: Option<TaskStatus>,
    pub area: Option<String>,
    pub color: Option<String>,
}

fn as_opt_str(o: &Option<String>) -> (r: Option<&str>)
    ensures
        opt_str_view(r) == opt_string_view(*o),
{
    match o {
        Some(s) => Some(s.as_str()),
        None => None,
    }
}

/// The file of a new task with id `task_id` in `project`: the trimmed title
/// names it and heads it, the content (empty when absent) is its body.
pub fn plan_task_create(project: &ProjectName, task_id: &str, input: &TaskCreateInput) -> (r: Result<
    FileWrite,
    KeysightError,
>)
    ensures
        trim(input.title@).len() == 0 <==> r == Err::<FileWrite, KeysightError>(
            KeysightError::EmptyTitle,
        ),
        r matches Ok(w) ==> {
            &&& w.relative_path@ == spec_task_relative_path(
                project@,
                task_id@,
                trim(input.title@),
            )
            &&& w.markdown@ == spec_task_markdown(
                task_id@,
                trim(input.title@),
                opt_text_or_empty(input.content),
                input.status,
                project@,
                opt_string_view(input.area),
                opt_string_view(input.color),
            )
        },
{
    let title = match validate_title(input.title.as_str()) {
        Ok(t) => t,
        Err(e) => return Err(e),
    };
    let relative_path = task_path_for(project.as_str(), task_id, title.as_str());
    let body: &str = match &input.content {
        Some(c) => c.as_str(),
        None => "",
    };
    proof {
        reveal_strlit("");
    }
    let markdown = task_markdown_for(
        task_id,
        title.as_str(),
        body,
        input.status,
        project.as_str(),
        as_opt_str(&input.area),
        as_opt_str(&input.color),
    );
    Ok(FileWrite { relative_path, markdown })
}

/// The text of an optional string, empty when absent.
pub open spec fn opt_text_or_empty(o: Option<String>) -> Seq<char> {
    match o {
        Some(s) => s@,
        None => Seq::empty(),
    }
}

/// A task update fails: the task has no project, its project is not a
/// valid name, or the new title is empty once trimmed.
pub open spec fn task_update_fails(current: TaskEntity, input: TaskUpdateInput) -> bool {
    ||| current.project is None
    ||| !valid_project_name(current.project.unwrap()@)
    ||| input.title is Some && trim(input.title.unwrap()@).len() == 0
}

/// `r` is an `InvalidProjectName` error with message `m`.
pub open spec fn is_project_error<T>(r: Result<T, KeysightError>, m: Seq<char>) -> bool {
    match r {
        Err(KeysightError::InvalidProjectName(x)) => x@ == m,
        _ => false,
    }
}

/// The title after an update.
pub open spec fn spec_next_title(input: Option<String>, current: Seq<char>) -> Seq<char> {
    match input {
        Some(t) => trim(t@),
        None => current,
    }
}

/// An optional value after an update: the new one when given, else the
/// current one.
pub open spec fn spec_or_current(input: Option<String>, current: Option<String>) -> Option<
    Seq<char>,
> {
    match input {
        Some(v) => Some(v@),
        None => opt_string_view(current),
    }
}

/// The writes of updating task `current`, whose file is at `previous_path`,
/// with `input`: the project stays, every field not given keeps its value,
/// the colour follows `next_color`, and the file moves when the title changes
/// its name.
pub fn plan_task_update(
    current: &TaskEntity,
    input: &TaskUpdateInput,
    previous_path: Option<String>,
) -> (r: Result<UpdateWrite, KeysightError>)
    ensures
        r is Err <==> task_update_fails(*current, *input),
        current.project is None ==> is_project_error(r, "task "@ + current.id@ + " 缺 project"@),
        current.project is Some && !valid_project_name(current.project.unwrap()@)
            ==> is_project_error(r, project_name_problem(current.project.unwrap()@).unwrap()),
        current.project is Some && valid_project_name(current.project.unwrap()@)
            && input.title is Some && trim(input.title.unwrap()@).len() == 0 ==> r
            == Err::<UpdateWrite, KeysightError>(KeysightError::EmptyTitle),
        r matches Ok(w) ==> {
            let project = current.project.unwrap()@;
            let title = spec_next_title(input.title, current.title@);
            let status = match input.status {
                Some(s) => s,
                None => current.status,
            };
            &&& w.relative_path@ == spec_task_relative_path(project, current.id@, title)
            &&& w.markdown@ == spec_task_markdown(
                current.id@,
                title,
                match input.content {
                    Some(c) => c@,
                    None => current.content@,
                },
                status,
                project,
                spec_or_current(input.area, current.area),
                spec_next_color(opt_string_view(input.color), opt_string_view(current.color)),
            )
            &&& opt_string_view(w.remove_path) == spec_remove_path(
                opt_string_view(previous_path),
                w.relative_path@,
            )
        },
{
    let project_str = match &current.project {
        Some(p) => p,
        None => {
            let mut m = chars_of("task ");
            append(&mut m, &chars_of(current.id.as_str()));
            append(&mut m, &chars_of(" 缺 project"));
            return Err(KeysightError::InvalidProjectName(string_of(m.as_slice())));
        },
    };
    let project = match ProjectName::new(project_str.as_str()) {
        Ok(p) => p,
        Err(e) => return Err(e),
    };
    let next_status = match input.status {
        Some(s) => s,
        None => current.status,
    };
    let next_title = match &input.title {
        Some(t) => match validate_title(t.as_str()) {
            Ok(v) => v,
            Err(e) => return Err(e),
        },
        None => current.title.clone(),
    };
    let next_content: &str = match &input.content {
        Some(c) => c.as_str(),
        None => current.content.as_str(),
    };
    let next_area: Option<String> = match &input.area {
        Some(a) => Some(a.clone()),
        None => current.area.clone(),
    };
    let next_col = next_color(as_opt_str(&input.color), current.color.clone());
    let relative_path = task_path_for(project.as_str(), current.id.as_str(), next_title.as_str());
    let markdown = task_markdown_for(
        current.id.as_str(),
        next_title.as_str(),
        next_content,
        next_status,
        project.as_str(),
        as_opt_str(&next_area),
        as_opt_str(&next_col),
    );
    let remove = remove_path(previous_path, &relative_path);
    Ok(UpdateWrite { relative_path, markdown, remove_path: remove })
}

// ---------------------------------------------------------------------------
// Questions
// ---------------------------------------------------------------------------

/// The question a create call makes, and its file.
pub fn plan_question_create(
    whiteboard_id: &str,
    question_id: &str,
    title: &str,
    content: Option<&str>,
    status: Option<&str>,
    color: Option<&str>,
) -> (r: Result<(QuestionEntity, FileWrite), KeysightError>)
    ensures
        trim(title@).len() == 0 <==> r is Err,
        r matches Err(e) ==> e == KeysightError::EmptyTitle,
        r matches Ok((q, w)) ==> {
            &&& q.id@ == question_id@
            &&& q.title@ == trim(title@)
            &&& q.content@ == (match content {
                Some(c) => c@,
                None => Seq::empty(),
            })
            &&& q.whiteboard_id@ == whiteboard_id@
            &&& q.status@ == (match status {
                Some(s) => s@,
                None => "pending"@,
            })
            &&& opt_string_view(q.color) == spec_initial_color(opt_str_view(color))
            &&& q.linked_section_ids is None
            &&& q.linked_card_ids is None
            &&& q.linked_note_ids is None
            &&& q.linked_question_ids is None
            &&& q.linked_task_ids is None
            &&& w.relative_path@ == spec_question_relative_path(
                whiteboard_id@,
                question_id@,
                trim(title@),
            )
            &&& w.markdown@ == spec_question_markdown(q)
        },
{
    let t = match validate_title(title) {
        Ok(t) => t,
        Err(e) => return Err(e),
    };
    let question = QuestionEntity {
        id: owned(question_id),
        title: t,
        content: match content {
            Some(c) => owned(c),
            None => String::new(),
        },
        whiteboard_id: owned(whiteboard_id),
        status: match status {
            Some(s) => owned(s),
            None => owned("pending"),
        },
        color: initial_color(color),
        linked_section_ids: None,
        linked_card_ids: None,
        linked_note_ids: None,
        linked_question_ids: None,
        linked_task_ids: None,
    };
    let relative_path = question_relative_path(whiteboard_id, question_id, question.title.as_str());
    let markdown = render_question_markdown(&question);
    Ok((question, FileWrite { relative_path, markdown }))
}

/// The question after an update of `current` (whose file is at
/// `previous_path`), and the writes that store it.
pub fn plan_question_update(
    current: &QuestionEntity,
    title: Option<&str>,
    content: Option<&str>,
    status: Option<&str>,
    color: Option<&str>,
    previous_path: Option<String>,
) -> (r: Result<(QuestionEntity, UpdateWrite), KeysightError>)
    ensures
        (title is Some && trim(title.unwrap()@).len() == 0) <==> r is Err,
        r matches Err(e) ==> e == KeysightError::EmptyTitle,
        r matches Ok((q, w)) ==> {
            &&& q.id == current.id
            &&& q.title@ == (match title {
                Some(t) => trim(t@),
                None => current.title@,
            })
            &&& q.content@ == (match content {
                Some(c) => c@,
                None => current.content@,
            })
            &&& q.whiteboard_id == current.whiteboard_id
            &&& q.status@ == (match status {
                Some(s) => s@,
                None => current.status@,
            })
            &&& opt_string_view(q.color) == spec_next_color(
                opt_str_view(color),
                opt_string_view(current.color),
            )
            &&& q.linked_section_ids is None
            &&& q.linked_card_ids is None
            &&& q.linked_note_ids is None
            &&& q.linked_question_ids is None
            &&& q.linked_task_ids is None
            &&& w.relative_path@ == spec_question_relative_path(
                current.whiteboard_id@,
                current.id@,
                q.title@,
            )
            &&& w.markdown@ == spec_question_markdown(q)
            &&& opt_string_view(w.remove_path) == spec_remove_path(
                opt_string_view(previous_path),
                w.relative_path@,
            )
        },
{
    let next_title = match title {
        Some(t) => match validate_title(t) {
            Ok(v) => v,
            Err(e) => return Err(e),
        },
        None => current.title.clone(),
    };
    let next = QuestionEntity {
        id: current.id.clone(),
        title: next_title,
        content: match content {
            Some(c) => owned(c),
            None => current.content.clone(),
        },
        whiteboard_id: current.whiteboard_id.clone(),
        status: match status {
            Some(s) => owned(s),
            None => current.status.clone(),
        },
        color: next_color(color, current.color.clone()),
        linked_section_ids: None,
        linked_card_ids: None,
        linked_note_ids: None,
        linked_question_ids: None,
        linked_task_ids: None,
    };
    let previous = match &previous_path {
        Some(p) => Some(p.as_str()),
        None => None,
    };
    let relative_path = desired_question_relative_path(
        next.whiteboard_id.as_str(),
        current.id.as_str(),
        next.title.as_str(),
        previous,
    );
    let markdown = render_question_markdown(&next);
    let remove = remove_path(previous_path, &relative_path);
    Ok((next, UpdateWrite { relative_path, markdown, remove_path: remove }))
}

/// The content of a task or question as read from the index: stored
/// content without its trailing line breaks.
pub fn content_as_read(raw: &str) -> (r: String)
    ensures
        r@ == trim_end_char(raw@, '\n'),
{
    string_of(trim_end_char_vec(&chars_of(raw), '\n').as_slice())
}

} // verus!
