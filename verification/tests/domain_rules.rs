use keysight::errors::KeysightError;
use keysight::graph::resolve_user_drawn_edge_type;
use keysight::models::{EdgeType, TaskStatus};
use keysight::naming::task_status_to_str;
use keysight::parser::{extract_frontmatter, skip_frontmatter};
use keysight::project::{
    desired_task_relative_path, parse_task_status, render_task_markdown, task_relative_path,
    ProjectName,
};
use keysight::sync::{derive_whiteboard_id, insert_id_into_frontmatter};

const CARD_MD: &str = "\
---
type: atomic-card
id: card_abc12345
tags:
  - rust
  - concurrency
linkTo:
  - card_def67890
related:
  - card_xyz11111
understanding: 深入理解所有权模型
source: https://doc.rust-lang.org
see-also:
  - card_see11111
---

# 【ATC】Rust Ownership

Body content here.
";

// --- user-drawn edges ---

#[test]
fn test_resolve_user_drawn_edge_type_note_source_forces_note_link() {
    assert_eq!(
        resolve_user_drawn_edge_type("note_aaa11111", EdgeType::LinkTo),
        EdgeType::NoteLink
    );
    assert_eq!(
        resolve_user_drawn_edge_type("note_aaa11111", EdgeType::Related),
        EdgeType::NoteLink
    );
}

#[test]
fn test_resolve_user_drawn_edge_type_alias_source_forces_alias_link() {
    assert_eq!(
        resolve_user_drawn_edge_type("alias_xxx22222", EdgeType::LinkTo),
        EdgeType::AliasLink
    );
}

#[test]
fn test_resolve_user_drawn_edge_type_card_source_preserves_caller() {
    assert_eq!(
        resolve_user_drawn_edge_type("card_xxx33333", EdgeType::LinkTo),
        EdgeType::LinkTo
    );
    assert_eq!(
        resolve_user_drawn_edge_type("card_xxx33333", EdgeType::Related),
        EdgeType::Related
    );
    assert_eq!(
        resolve_user_drawn_edge_type("card_xxx33333", EdgeType::SeeAlso),
        EdgeType::SeeAlso
    );
}

// --- whiteboard ids and ids in frontmatter ---

#[test]
fn test_derive_whiteboard_id_root() {
    assert_eq!(derive_whiteboard_id("whiteboard/test.md"), "wb_root");
    assert_eq!(derive_whiteboard_id("other/test.md"), "wb_root");
}

#[test]
fn test_derive_whiteboard_id_sub() {
    assert_eq!(derive_whiteboard_id("whiteboard/myboard/test.md"), "myboard");
}

#[test]
fn test_insert_id_basic() {
    let content = "---\ntype: atomic-card\ntags:\n  - rust\n---\n\n# Title\n\nBody.\n";
    let result = insert_id_into_frontmatter(content, "card_abc12345").unwrap();
    assert!(result.contains("id: card_abc12345\n"));
    let id_pos = result.find("id: card_abc12345").unwrap();
    let first_sep = result.find("---").unwrap();
    assert!(id_pos > first_sep);
    assert!(result.contains("type: atomic-card"));
    assert!(result.contains("tags:"));
}

#[test]
fn test_insert_id_preserves_body() {
    let content = "---\ntype: atomic-card\n---\n\n# Title\n\nBody content.\n";
    let result = insert_id_into_frontmatter(content, "card_xyz99999").unwrap();
    assert!(result.contains("# Title"));
    assert!(result.contains("Body content."));
}

#[test]
fn test_insert_id_no_frontmatter_errors() {
    let content = "# Just a title\n\nNo frontmatter.\n";
    let result = insert_id_into_frontmatter(content, "card_abc12345");
    assert!(result.is_err());
}

#[test]
fn insert_id_exact_output_and_errors() {
    let content = "---\ntype: note\n---\nBody\n";
    assert_eq!(
        insert_id_into_frontmatter(content, "note_1").unwrap(),
        "---\nid: note_1\ntype: note\n---\nBody\n"
    );
    assert_eq!(
        insert_id_into_frontmatter("# x", "note_1"),
        Err(KeysightError::ParseError(
            "文件没有 frontmatter（不以 --- 开头）".to_string()
        ))
    );
    assert_eq!(
        insert_id_into_frontmatter("---", "note_1"),
        Err(KeysightError::ParseError("无法定位 frontmatter 起始".to_string()))
    );
}

// --- project names ---

#[test]
fn test_project_name_valid() {
    let p = ProjectName::new("super-tauri").unwrap();
    assert_eq!(p.as_str(), "super-tauri");
    assert_eq!(p.whiteboard_id(), "projects/super-tauri");
}

#[test]
fn test_project_name_allows_spaces_and_chinese() {
    let p = ProjectName::new("我的 项目").unwrap();
    assert_eq!(p.as_str(), "我的 项目");
}

#[test]
fn test_project_name_rejects_leading_trailing_whitespace() {
    assert!(matches!(
        ProjectName::new("  spaced  "),
        Err(KeysightError::InvalidProjectName(_))
    ));
    assert!(matches!(
        ProjectName::new(" leading"),
        Err(KeysightError::InvalidProjectName(_))
    ));
    assert!(matches!(
        ProjectName::new("trailing "),
        Err(KeysightError::InvalidProjectName(_))
    ));
}

#[test]
fn test_project_name_empty_rejected() {
    assert!(matches!(
        ProjectName::new(""),
        Err(KeysightError::InvalidProjectName(_))
    ));
    assert!(matches!(
        ProjectName::new("   "),
        Err(KeysightError::InvalidProjectName(_))
    ));
}

#[test]
fn test_project_name_rejects_path_separators() {
    for bad in &["a/b", "a\\b", "a:b", "a*b", "a?b", "a\"b", "a<b", "a>b", "a|b"] {
        assert!(
            matches!(
                ProjectName::new(bad),
                Err(KeysightError::InvalidProjectName(_))
            ),
            "expected {bad} to be rejected"
        );
    }
}

#[test]
fn test_project_name_rejects_nul_and_control_chars() {
    assert!(matches!(
        ProjectName::new("a\0b"),
        Err(KeysightError::InvalidProjectName(_))
    ));
    assert!(matches!(
        ProjectName::new("a\nb"),
        Err(KeysightError::InvalidProjectName(_))
    ));
    assert!(matches!(
        ProjectName::new("a\tb"),
        Err(KeysightError::InvalidProjectName(_))
    ));
    assert!(matches!(
        ProjectName::new("a\rb"),
        Err(KeysightError::InvalidProjectName(_))
    ));
}

#[test]
fn test_project_name_rejects_dots_only() {
    for bad in &[".", "..", "...", "...."] {
        assert!(
            matches!(
                ProjectName::new(bad),
                Err(KeysightError::InvalidProjectName(_))
            ),
            "expected {bad:?} to be rejected"
        );
    }
}

#[test]
fn test_project_name_rejects_leading_dot() {
    assert!(matches!(
        ProjectName::new(".hidden"),
        Err(KeysightError::InvalidProjectName(_))
    ));
    assert!(matches!(
        ProjectName::new(".config"),
        Err(KeysightError::InvalidProjectName(_))
    ));
}

#[test]
fn test_project_name_rejects_windows_reserved() {
    for bad in &["CON", "con", "PRN", "aux", "NUL", "COM1", "lpt9", "COM5"] {
        assert!(
            matches!(
                ProjectName::new(bad),
                Err(KeysightError::InvalidProjectName(_))
            ),
            "expected {bad:?} to be rejected as Windows reserved name"
        );
    }
}

#[test]
fn test_project_name_rejects_too_long() {
    let too_long: String = "a".repeat(101);
    assert!(matches!(
        ProjectName::new(&too_long),
        Err(KeysightError::InvalidProjectName(_))
    ));
    let exactly: String = "a".repeat(100);
    assert!(ProjectName::new(&exactly).is_ok());
}

// --- task statuses ---

#[test]
fn test_parse_task_status_roundtrip() {
    for status in [
        TaskStatus::Inbox,
        TaskStatus::Next,
        TaskStatus::Active,
        TaskStatus::Blocked,
        TaskStatus::Done,
    ] {
        let s = task_status_to_str(status);
        assert_eq!(parse_task_status(s).unwrap(), status);
    }
}

#[test]
fn test_parse_task_status_unknown() {
    assert!(matches!(
        parse_task_status("wip"),
        Err(KeysightError::InvalidTaskStatus(_))
    ));
}

#[test]
fn test_parse_task_status_inbox() {
    assert_eq!(parse_task_status("inbox").unwrap(), TaskStatus::Inbox);
}

// --- task paths and markdown ---

#[test]
fn test_task_relative_path_format() {
    let project = ProjectName::new("super-tauri").unwrap();
    let path = task_relative_path(&project, "task_abc12345", "Add login");
    assert_eq!(
        path,
        "whiteboard/projects/super-tauri/task_abc12345 【TASK】Add login.md"
    );
}

#[test]
fn test_task_relative_path_sanitizes_title() {
    let project = ProjectName::new("super-tauri").unwrap();
    let path = task_relative_path(&project, "task_x", "**Add** / Login?");
    assert!(path.ends_with("task_x 【TASK】Add _ Login_.md"));
}

#[test]
fn desired_task_path_is_the_computed_one() {
    let project = ProjectName::new("p").unwrap();
    let desired = "whiteboard/projects/p/task_1 【TASK】T.md";
    assert_eq!(
        desired_task_relative_path(&project, "task_1", "T", Some(desired)),
        desired
    );
    assert_eq!(
        desired_task_relative_path(&project, "task_1", "T", Some("elsewhere.md")),
        desired
    );
    assert_eq!(desired_task_relative_path(&project, "task_1", "T", None), desired);
}

#[test]
fn test_render_task_markdown_happy_path() {
    let project = ProjectName::new("super-tauri").unwrap();
    let md = render_task_markdown(
        "task_abc12345",
        "Add login",
        "Body with\n- [ ] subtask",
        TaskStatus::Active,
        &project,
        Some("backend"),
        Some("#ffadad"),
    );
    assert!(md.contains("type: project-task"));
    assert!(md.contains("id: task_abc12345"));
    assert!(md.contains("status: active"));
    assert!(md.contains("area: backend"));
    assert!(md.contains("project: super-tauri"));
    assert!(md.contains("color: \"#ffadad\""));
    assert!(md.contains("# 【TASK】Add login"));
    assert!(md.contains("- [ ] subtask"));
}

#[test]
fn test_render_task_markdown_no_optional_fields() {
    let project = ProjectName::new("super-tauri").unwrap();
    let md = render_task_markdown(
        "task_xyz",
        "Simple",
        "",
        TaskStatus::Next,
        &project,
        None,
        None,
    );
    assert!(md.contains("status: next"));
    assert!(md.contains("project: super-tauri"));
    assert!(!md.contains("area:"));
    assert!(!md.contains("color:"));
}

// --- frontmatter framing ---

#[test]
fn test_extract_frontmatter() {
    let fm = extract_frontmatter(CARD_MD).expect("frontmatter");
    assert!(fm.contains("type: atomic-card"));
    assert!(fm.contains("id: card_abc12345"));
}

#[test]
fn test_extract_frontmatter_no_fm() {
    assert!(extract_frontmatter("# No frontmatter").is_none());
}

#[test]
fn test_skip_frontmatter() {
    let after = skip_frontmatter(CARD_MD);
    assert!(after.contains("# 【ATC】Rust Ownership"));
    assert!(!after.contains("type: atomic-card"));
}

#[test]
fn frontmatter_framing_exact_values() {
    assert_eq!(
        extract_frontmatter("---\na: 1\n---\nbody").unwrap(),
        "\na: 1"
    );
    assert_eq!(skip_frontmatter("---\na: 1\n---\nbody"), "\nbody");
    assert_eq!(skip_frontmatter("no frontmatter"), "no frontmatter");
    assert_eq!(skip_frontmatter("---\nunclosed"), "---\nunclosed");
}

#[test]
fn derive_whiteboard_id_nested_directory() {
    assert_eq!(
        derive_whiteboard_id("whiteboard/projects/super-tauri/task_1 【TASK】x.md"),
        "projects/super-tauri"
    );
    assert_eq!(derive_whiteboard_id("whiteboard//a.md"), "wb_root");
    assert_eq!(derive_whiteboard_id("whiteboard/"), "wb_root");
    assert_eq!(derive_whiteboard_id("whiteboardx/a/b.md"), "wb_root");
}
