//! Project names of tasks and task statuses.

use vstd::prelude::*;

use crate::errors::KeysightError;
use crate::models::TaskStatus;
use crate::naming::{
    is_path_forbidden, is_path_forbidden_exec, opt_str_view, spec_task_markdown,
    spec_task_relative_path, spec_task_status_str, task_markdown_for, task_path_for,
};
use crate::text::{append, chars_of, str_eq, string_of, trim, trim_vec, vec_eq};

verus! {

/// Most characters a project name may have.
pub const PROJECT_NAME_MAX_LEN: usize = 100;

/// Unicode control characters (general category `Cc`, std's `char::is_control`).
pub open spec fn is_control(c: char) -> bool {
    let n = c as u32;
    n <= 0x1f || (0x7f <= n && n <= 0x9f)
}

fn is_control_exec(c: char) -> (r: bool)
    ensures
        r == is_control(c),
{
    let n = c as u32;
    n <= 0x1f || (0x7f <= n && n <= 0x9f)
}

/// Upper-case hexadecimal digit of `d`.
pub open spec fn hex_upper(d: int) -> char {
    if d == 0 {
        '0'
    } else if d == 1 {
        '1'
    } else if d == 2 {
        '2'
    } else if d == 3 {
        '3'
    } else if d == 4 {
        '4'
    } else if d == 5 {
        '5'
    } else if d == 6 {
        '6'
    } else if d == 7 {
        '7'
    } else if d == 8 {
        '8'
    } else if d == 9 {
        '9'
    } else if d == 10 {
        'A'
    } else if d == 11 {
        'B'
    } else if d == 12 {
        'C'
    } else if d == 13 {
        'D'
    } else if d == 14 {
        'E'
    } else {
        'F'
    }
}

fn hex_upper_exec(d: u32) -> (c: char)
    requires
        d < 16,
    ensures
        c == hex_upper(d as int),
{
    if d == 0 {
        '0'
    } else if d == 1 {
        '1'
    } else if d == 2 {
        '2'
    } else if d == 3 {
        '3'
    } else if d == 4 {
        '4'
    } else if d == 5 {
        '5'
    } else if d == 6 {
        '6'
    } else if d == 7 {
        '7'
    } else if d == 8 {
        '8'
    } else if d == 9 {
        '9'
    } else if d == 10 {
        'A'
    } else if d == 11 {
        'B'
    } else if d == 12 {
        'C'
    } else if d == 13 {
        'D'
    } else if d == 14 {
        'E'
    } else {
        'F'
    }
}

/// Four upper-case hexadecimal digits of `n` (`{:04X}` for `n < 0x10000`).
pub open spec fn hex4(n: int) -> Seq<char> {
    seq![hex_upper((n / 4096) % 16), hex_upper((n / 256) % 16), hex_upper((n / 16) % 16), hex_upper(n % 16)]
}

/// Why character `c` cannot stand in a project name, if it cannot.
pub open spec fn char_problem(c: char) -> Option<Seq<char>> {
    if is_path_forbidden(c) {
        Some("含路径非法字符 '"@ + seq![c] + "'"@)
    } else if c == '\0' {
        Some("含 NUL 字节"@)
    } else if is_control(c) {
        Some("含控制字符 U+"@ + hex4(c as u32 as int))
    } else {
        None
    }
}

/// The problem of the first unusable character of `s[i..]`.
pub open spec fn first_char_problem(s: Seq<char>, i: int) -> Option<Seq<char>>
    decreases s.len() - i,
{
    if i < 0 || i >= s.len() {
        None
    } else if char_problem(s[i]) is Some {
        char_problem(s[i])
    } else {
        first_char_problem(s, i + 1)
    }
}

/// Every character of `s` is a dot.
pub open spec fn all_dots(s: Seq<char>) -> bool {
    forall|i: int| 0 <= i < s.len() ==> s[i] == '.'
}

/// The code of `c` after ASCII upper-casing.
pub open spec fn ascii_upper_code(c: char) -> u32 {
    let n = c as u32;
    if 97 <= n && n <= 122 {
        (n - 32) as u32
    } else {
        n
    }
}

/// `s` equals the upper-case ASCII word `w` once upper-cased.
pub open spec fn upper_eq(s: Seq<char>, w: Seq<char>) -> bool {
    s.len() == w.len() && forall|i: int| 0 <= i < s.len() ==> ascii_upper_code(s[i]) == w[i] as u32
}

/// Device names Windows reserves.
pub open spec fn reserved_names() -> Seq<Seq<char>> {
    seq![
        "CON"@, "PRN"@, "AUX"@, "NUL"@, "COM1"@, "COM2"@, "COM3"@, "COM4"@, "COM5"@, "COM6"@,
        "COM7"@, "COM8"@, "COM9"@, "LPT1"@, "LPT2"@, "LPT3"@, "LPT4"@, "LPT5"@, "LPT6"@, "LPT7"@,
        "LPT8"@, "LPT9"@,
    ]
}

/// `s` names a Windows device, in any ASCII case.
pub open spec fn is_reserved(s: Seq<char>) -> bool {
    exists|k: int| 0 <= k < reserved_names().len() && upper_eq(s, reserved_names()[k])
}

/// Why `v` cannot be a project name, in the order the checks are made:
/// empty, surrounding whitespace, over 100 characters, the first unusable
/// character, dots only, a leading dot, a Windows device name.
pub open spec fn project_name_problem(v: Seq<char>) -> Option<Seq<char>> {
    if v.len() == 0 {
        Some("不能为空"@)
    } else if v != trim(v) {
        Some("前后不能有空白字符"@)
    } else if v.len() > 100 {
        Some("长度超过 100 字符"@)
    } else if first_char_problem(v, 0) is Some {
        first_char_problem(v, 0)
    } else if all_dots(v) {
        Some("不能是 `.` / `..` 等纯点名"@)
    } else if v[0] == '.' {
        Some("不能以 `.` 开头"@)
    } else if is_reserved(v) {
        Some("`"@ + v + "` 是 Windows 保留设备名"@)
    } else {
        None
    }
}

/// `v` can name a project directory.
pub open spec fn valid_project_name(v: Seq<char>) -> bool {
    project_name_problem(v) is None
}

fn reserved_name(k: usize) -> (r: &'static str)
    requires
        k < 22,
    ensures
        r@ == reserved_names()[k as int],
{
    if k == 0 {
        "CON"
    } else if k == 1 {
        "PRN"
    } else if k == 2 {
        "AUX"
    } else if k == 3 {
        "NUL"
    } else if k == 4 {
        "COM1"
    } else if k == 5 {
        "COM2"
    } else if k == 6 {
        "COM3"
    } else if k == 7 {
        "COM4"
    } else if k == 8 {
        "COM5"
    } else if k == 9 {
        "COM6"
    } else if k == 10 {
        "COM7"
    } else if k == 11 {
        "COM8"
    } else if k == 12 {
        "COM9"
    } else if k == 13 {
        "LPT1"
    } else if k == 14 {
        "LPT2"
    } else if k == 15 {
        "LPT3"
    } else if k == 16 {
        "LPT4"
    } else if k == 17 {
        "LPT5"
    } else if k == 18 {
        "LPT6"
    } else if k == 19 {
        "LPT7"
    } else if k == 20 {
        "LPT8"
    } else {
        "LPT9"
    }
}

fn upper_eq_exec(s: &Vec<char>, w: &Vec<char>) -> (r: bool)
    ensures
        r == upper_eq(s@, w@),
{
    if s.len() != w.len() {
        return false;
    }
    let mut i: usize = 0;
    while i < s.len()
        invariant
            s.len() == w.len(),
            i <= s.len(),
            forall|j: int| 0 <= j < i ==> ascii_upper_code(s@[j]) == w@[j] as u32,
        decreases s.len() - i,
    {
        let n = s[i] as u32;
        let u: u32 = if 97 <= n && n <= 122 {
            n - 32
        } else {
            n
        };
        if u != w[i] as u32 {
            return false;
        }
        i = i + 1;
    }
    true
}

fn is_reserved_exec(s: &Vec<char>) -> (r: bool)
    ensures
        r == is_reserved(s@),
{
    let mut k: usize = 0;
    while k < 22
        invariant
            k <= 22,
            reserved_names().len() == 22,
            forall|j: int| 0 <= j < k ==> !upper_eq(s@, #[trigger] reserved_names()[j]),
        decreases 22 - k,
    {
        if upper_eq_exec(s, &chars_of(reserved_name(k))) {
            return true;
        }
        k = k + 1;
    }
    false
}

fn hex4_exec(n: u32) -> (r: Vec<char>)
    ensures
        r@ == hex4(n as int),
{
    let mut v: Vec<char> = Vec::new();
    v.push(hex_upper_exec((n / 4096) % 16));
    v.push(hex_upper_exec((n / 256) % 16));
    v.push(hex_upper_exec((n / 16) % 16));
    v.push(hex_upper_exec(n % 16));
    assert(v@ =~= hex4(n as int));
    v
}

fn char_problem_exec(c: char) -> (r: Option<Vec<char>>)
    ensures
        r is Some <==> char_problem(c) is Some,
        r matches Some(m) ==> char_problem(c) == Some(m@),
{
    if is_path_forbidden_exec(c) {
        let mut m = chars_of("含路径非法字符 '");
        m.push(c);
        append(&mut m, &chars_of("'"));
        Some(m)
    } else if c == '\0' {
        Some(chars_of("含 NUL 字节"))
    } else if is_control_exec(c) {
        let mut m = chars_of("含控制字符 U+");
        append(&mut m, &hex4_exec(c as u32));
        Some(m)
    } else {
        None
    }
}

fn project_name_problem_exec(v: &Vec<char>) -> (r: Option<Vec<char>>)
    ensures
        r is Some <==> project_name_problem(v@) is Some,
        r matches Some(m) ==> project_name_problem(v@) == Some(m@),
{
    if v.len() == 0 {
        return Some(chars_of("不能为空"));
    }
    if !vec_eq(v, &trim_vec(v)) {
        return Some(chars_of("前后不能有空白字符"));
    }
    if v.len() > PROJECT_NAME_MAX_LEN {
        return Some(chars_of("长度超过 100 字符"));
    }
    let mut i: usize = 0;
    while i < v.len()
        invariant
            i <= v.len(),
            v.len() > 0,
            v@ == trim(v@),
            v.len() <= 100,
            first_char_problem(v@, 0) == first_char_problem(v@, i as int),
        decreases v.len() - i,
    {
        match char_problem_exec(v[i]) {
            Some(m) => {
                return Some(m);
            },
            None => {},
        }
        i = i + 1;
    }
    assert(first_char_problem(v@, i as int) is None);
    let mut dots = true;
    let mut j: usize = 0;
    while j < v.len()
        invariant
            j <= v.len(),
            dots == (forall|k: int| 0 <= k < j ==> v@[k] == '.'),
        decreases v.len() - j,
    {
        if v[j] != '.' {
            dots = false;
        }
        j = j + 1;
    }
    if dots {
        return Some(chars_of("不能是 `.` / `..` 等纯点名"));
    }
    if v[0] == '.' {
        return Some(chars_of("不能以 `.` 开头"));
    }
    if is_reserved_exec(v) {
        let mut m = chars_of("`");
        append(&mut m, v);
        append(&mut m, &chars_of("` 是 Windows 保留设备名"));
        return Some(m);
    }
    None
}

/// Name of the project a task belongs to; it decides the task's directory.
///
/// It is never empty, has no surrounding whitespace, at most 100 characters,
/// none of `/ \ : * ? " < > |` or control characters, is not dots only, does
/// not start with a dot and is no Windows device name.
pub struct ProjectName {
    name: String,
}

impl View for ProjectName {
    type V = Seq<char>;

    closed spec fn view(&self) -> Seq<char> {
        self.name@
    }
}

impl ProjectName {
    #[verifier::type_invariant]
    closed spec fn inv(self) -> bool {
        valid_project_name(self.name@)
    }

    /// The project name `value`, or `InvalidProjectName` with the reason it
    /// cannot be one.
    pub fn new(value: &str) -> (r: Result<ProjectName, KeysightError>)
        ensures
            r is Ok <==> valid_project_name(value@),
            r matches Ok(p) ==> p@ == value@,
            r is Err ==> (r matches Err(KeysightError::InvalidProjectName(m)) && Some(m@)
                == project_name_problem(value@)),
    {
        let v = chars_of(value);
        match project_name_problem_exec(&v) {
            Some(m) => Err(KeysightError::InvalidProjectName(string_of(m.as_slice()))),
            None => Ok(ProjectName { name: string_of(v.as_slice()) }),
        }
    }

    /// The name, which is a valid project name.
    pub fn as_str(&self) -> (r: &str)
        ensures
            r@ == self@,
            valid_project_name(r@),
    {
        proof {
            use_type_invariant(self);
        }
        self.name.as_str()
    }

    /// The whiteboard of the project's tasks: `projects/{name}`.
    pub fn whiteboard_id(&self) -> (r: String)
        ensures
            r@ == "projects/"@ + self@,
    {
        let mut v = chars_of("projects/");
        append(&mut v, &chars_of(self.name.as_str()));
        string_of(v.as_slice())
    }
}

/// Path of a task's file in its project, relative to the vault:
/// `whiteboard/projects/{project}/{id} 【TASK】{title}.md`.
pub fn task_relative_path(project: &ProjectName, task_id: &str, title: &str) -> (r: String)
    ensures
        r@ == spec_task_relative_path(project@, task_id@, title@),
{
    task_path_for(project.as_str(), task_id, title)
}

/// Path of a task's file after a rename: the current path when it already
/// is the desired one, the desired one otherwise (either way the desired
/// path).
pub fn desired_task_relative_path(
    project: &ProjectName,
    task_id: &str,
    title: &str,
    current_file_path: Option<&str>,
) -> (r: String)
    ensures
        r@ == spec_task_relative_path(project@, task_id@, title@),
{
    let desired = task_relative_path(project, task_id, title);
    match current_file_path {
        Some(path) => {
            if path.len() > 0 && str_eq(path, desired.as_str()) {
                path.to_string()
            } else {
                desired
            }
        },
        None => desired,
    }
}

/// The markdown of a task file in `project`: frontmatter with type, id,
/// status, area when given and not empty, the project, the quoted colour
/// when given and not empty, then the `# 【TASK】` title and the trimmed body.
pub fn render_task_markdown(
    task_id: &str,
    title: &str,
    content: &str,
    status: TaskStatus,
    project: &ProjectName,
    area: Option<&str>,
    color: Option<&str>,
) -> (r: String)
    ensures
        r@ == spec_task_markdown(
            task_id@,
            title@,
            content@,
            status,
            project@,
            opt_str_view(area),
            opt_str_view(color),
        ),
{
    task_markdown_for(task_id, title, content, status, project.as_str(), area, color)
}

proof fn lemma_first_char_problem_none(s: Seq<char>, i: int)
    requires
        0 <= i,
        first_char_problem(s, i) is None,
    ensures
        forall|j: int| i <= j < s.len() ==> char_problem(s[j]) is None,
    decreases s.len() - i,
{
    if i < s.len() {
        lemma_first_char_problem_none(s, i + 1);
    }
}

/// A valid project name is a safe directory name: not empty, trimmed, at most
/// 100 characters, free of path separators, reserved characters and control
/// characters, not starting with a dot.
pub proof fn law_valid_project_name_is_safe(v: Seq<char>)
    requires
        valid_project_name(v),
    ensures
        0 < v.len() <= 100,
        trim(v) == v,
        v[0] != '.',
        !all_dots(v),
        !is_reserved(v),
        forall|i: int| 0 <= i < v.len() ==> !is_path_forbidden(v[i]) && !is_control(v[i]),
{
    lemma_first_char_problem_none(v, 0);
    assert forall|i: int| 0 <= i < v.len() implies !is_path_forbidden(v[i]) && !is_control(
        v[i],
    ) by {
        assert(char_problem(v[i]) is None);
    }
}

// ---------------------------------------------------------------------------
// Task statuses
// ---------------------------------------------------------------------------

/// The status a status string names.
pub open spec fn spec_parse_task_status(s: Seq<char>) -> Option<TaskStatus> {
    if s == "inbox"@ {
        Some(TaskStatus::Inbox)
    } else if s == "next"@ {
        Some(TaskStatus::Next)
    } else if s == "active"@ {
        Some(TaskStatus::Active)
    } else if s == "blocked"@ {
        Some(TaskStatus::Blocked)
    } else if s == "done"@ {
        Some(TaskStatus::Done)
    } else {
        None
    }
}

/// The status a status string names, or `InvalidTaskStatus` with the string.
pub fn parse_task_status(s: &str) -> (r: Result<TaskStatus, KeysightError>)
    ensures
        spec_parse_task_status(s@) matches Some(t) ==> r == Ok::<TaskStatus, KeysightError>(t),
        spec_parse_task_status(s@) is None ==> (r matches Err(KeysightError::InvalidTaskStatus(m))
            && m@ == s@),
{
    if str_eq(s, "inbox") {
        Ok(TaskStatus::Inbox)
    } else if str_eq(s, "next") {
        Ok(TaskStatus::Next)
    } else if str_eq(s, "active") {
        Ok(TaskStatus::Active)
    } else if str_eq(s, "blocked") {
        Ok(TaskStatus::Blocked)
    } else if str_eq(s, "done") {
        Ok(TaskStatus::Done)
    } else {
        Err(KeysightError::InvalidTaskStatus(string_of(chars_of(s).as_slice())))
    }
}

/// Writing a status and reading it back gives the same status.
pub proof fn law_task_status_roundtrip(t: TaskStatus)
    ensures
        spec_parse_task_status(spec_task_status_str(t)) == Some(t),
{
    reveal_strlit("inbox");
    reveal_strlit("next");
    reveal_strlit("active");
    reveal_strlit("blocked");
    reveal_strlit("done");
    let s = spec_task_status_str(t);
    assert(s[0] != "inbox"@[0] ==> s != "inbox"@);
    assert(s[0] != "next"@[0] ==> s != "next"@);
    assert(s[0] != "active"@[0] ==> s != "active"@);
    assert(s[0] != "blocked"@[0] ==> s != "blocked"@);
}

/// A status string that parses is exactly the written form of its status.
pub proof fn law_task_status_parse_exact(s: Seq<char>)
    ensures
        spec_parse_task_status(s) matches Some(t) ==> spec_task_status_str(t) == s,
{
}

} // verus!
