use keysight::parser::{
    color_edit, extract_title_and_body, frontmatter_edits, normalize_legacy_toggle_syntax,
    normalize_title_markdown_escapes, parse_entity_with, understanding_from_list,
    wrap_frontmatter, write_color_frontmatter, write_frontmatter, FrontmatterEdit, FrontmatterUpdate,
    RawEntityFrontmatter,
};

const CARD_MD: &str = "\
---
type: atomic-card
id: card_abc12345
tags:
  - rust
  - concurrency
linkTo:
  - card_def67890
related:
  - card_xyz11111
understanding: 深入理解所有权模型
source: https://doc.rust-lang.org
see-also:
  - card_see11111
---

# 【ATC】Rust Ownership

Body content here.
";

const NOTE_MD: &str = "\
---
type: note
id: note_abc12345
tags:
  - study
---

# 【NOTE】Study Notes

Note body content.
";

const TASK_MD: &str = "\
---
type: project-task
id: task_abc12345
status: active
area: backend
project: keysight
---

# 【TASK】Implement parser

Task description.
";

const QUESTION_MD: &str = "\
---
type: question
id: q_abc12345
status: pending
---

# 【QUE】How does async work?

Question body.
";

fn s(x: &str) -> String {
    x.to_string()
}

fn strings(xs: &[&str]) -> Vec<String> {
    xs.iter().map(|x| x.to_string()).collect()
}

/// The fields of a frontmatter with only a type and an id.
fn typed(t: &str, id: Option<&str>) -> RawEntityFrontmatter {
    RawEntityFrontmatter {
        entity_type: Some(s(t)),
        id: id.map(s),
        ..Default::default()
    }
}

fn card_raw() -> RawEntityFrontmatter {
    RawEntityFrontmatter {
        entity_type: Some(s("atomic-card")),
        id: Some(s("card_abc12345")),
        uuid: None,
        tags: strings(&["rust", "concurrency"]),
        understanding: Some(s("深入理解所有权模型")),
        link_to: strings(&["card_def67890"]),
        related: strings(&["card_xyz11111"]),
        source: Some(s("https://doc.rust-lang.org")),
        see_also: strings(&["card_see11111"]),
        status: None,
        area: None,
        project: None,
    }
}

#[test]
fn test_parse_card() {
    let parsed = parse_entity_with(CARD_MD, Some(card_raw())).expect("card");
    assert_eq!(parsed.entity_type, "atomic-card");
    assert_eq!(parsed.id, Some("card_abc12345".to_string()));
    assert_eq!(parsed.title, "Rust Ownership");
    assert_eq!(parsed.content, "Body content here.\n");
    assert_eq!(parsed.tags, vec!["rust", "concurrency"]);
    assert_eq!(parsed.link_to, vec!["card_def67890"]);
    assert_eq!(parsed.related, vec!["card_xyz11111"]);
    assert_eq!(parsed.see_also, vec!["card_see11111"]);
    assert_eq!(parsed.understanding, "深入理解所有权模型");
    assert_eq!(parsed.source, "https://doc.rust-lang.org");
}

#[test]
fn test_parse_note() {
    let raw = RawEntityFrontmatter {
        tags: strings(&["study"]),
        ..typed("note", Some("note_abc12345"))
    };
    let parsed = parse_entity_with(NOTE_MD, Some(raw)).expect("note");
    assert_eq!(parsed.entity_type, "note");
    assert_eq!(parsed.id, Some("note_abc12345".to_string()));
    assert_eq!(parsed.title, "Study Notes");
    assert_eq!(parsed.tags, vec!["study"]);
}

#[test]
fn test_parse_task() {
    let raw = RawEntityFrontmatter {
        status: Some(s("active")),
        area: Some(s("backend")),
        project: Some(s("keysight")),
        ..typed("project-task", Some("task_abc12345"))
    };
    let parsed = parse_entity_with(TASK_MD, Some(raw)).expect("task");
    assert_eq!(parsed.entity_type, "project-task");
    assert_eq!(parsed.task_status, Some("active".to_string()));
    assert_eq!(parsed.task_area, Some("backend".to_string()));
    assert_eq!(parsed.task_project, Some("keysight".to_string()));
    assert_eq!(parsed.question_status, None);
}

#[test]
fn test_parse_question() {
    let raw = RawEntityFrontmatter {
        status: Some(s("pending")),
        ..typed("question", Some("q_abc12345"))
    };
    let parsed = parse_entity_with(QUESTION_MD, Some(raw)).expect("question");
    assert_eq!(parsed.entity_type, "question");
    assert_eq!(parsed.question_status, Some("pending".to_string()));
    assert_eq!(parsed.task_status, None);
}

#[test]
fn test_parse_unknown_type_returns_none() {
    let md = "---\ntype: unknown\n---\n# Title\nBody\n";
    assert!(parse_entity_with(md, Some(typed("unknown", None))).is_none());
}

#[test]
fn test_parse_no_frontmatter_returns_none() {
    let md = "# Just a title\nNo frontmatter here.\n";
    assert!(parse_entity_with(md, None).is_none());
    assert!(parse_entity_with(md, Some(typed("note", None))).is_none());
}

#[test]
fn test_parse_no_type_returns_none() {
    let md = "---\ntags:\n  - test\n---\n# Title\nBody\n";
    let raw = RawEntityFrontmatter {
        tags: strings(&["test"]),
        ..Default::default()
    };
    assert!(parse_entity_with(md, Some(raw)).is_none());
}

#[test]
fn test_card_without_id() {
    let md = "---\ntype: atomic-card\ntags:\n  - test\n---\n\n# 【ATC】No ID Card\n\nBody.\n";
    let raw = RawEntityFrontmatter {
        tags: strings(&["test"]),
        ..typed("atomic-card", None)
    };
    let parsed = parse_entity_with(md, Some(raw)).expect("card");
    assert_eq!(parsed.id, None);
    assert_eq!(parsed.title, "No ID Card");
}

#[test]
fn parse_uses_uuid_when_id_is_missing() {
    let md = "---\ntype: note\nuuid: legacy-1\n---\n# T\n";
    let raw = RawEntityFrontmatter {
        uuid: Some(s("legacy-1")),
        ..typed("note", None)
    };
    let parsed = parse_entity_with(md, Some(raw)).unwrap();
    assert_eq!(parsed.id, Some("legacy-1".to_string()));
    assert_eq!(parsed.understanding, "");
    assert_eq!(parsed.source, "");
}

#[test]
fn test_parse_card_title_unescapes_punctuation() {
    let md = "\
---
type: atomic-card
id: card_escape001
---

# 【ATC】**Arc\\<T\\>** 原子引用计数 \\[sync\\] \\(send\\) \\| \\#
";
    let parsed = parse_entity_with(md, Some(typed("atomic-card", Some("card_escape001")))).unwrap();
    assert_eq!(parsed.title, "**Arc<T>** 原子引用计数 [sync] (send) | #");
}

#[test]
fn test_parse_card_title_keeps_literal_backslash_star() {
    let md = "\
---
type: atomic-card
id: card_escape002
---

# 【ATC】保留字面反斜杠星号 \\\\* 和双反斜杠 \\\\\\\\
";
    let parsed = parse_entity_with(md, Some(typed("atomic-card", Some("card_escape002")))).unwrap();
    assert_eq!(parsed.title, "保留字面反斜杠星号 \\\\* 和双反斜杠 \\\\\\\\");
}

#[test]
fn note_titles_keep_their_escapes() {
    let md = "---\ntype: note\n---\n# 【NOTE】a \\< b\n";
    let parsed = parse_entity_with(md, Some(typed("note", None))).unwrap();
    assert_eq!(parsed.title, "a \\< b");
}

#[test]
fn test_parse_card_normalizes_legacy_details_summary_to_toggle_syntax() {
    let md = "\
---
type: atomic-card
id: card_toggle001
---

# 【ATC】Toggle Card

before
<details>
<summary>折叠标题</summary>

这里是详细内容
</details>
after
";
    let parsed = parse_entity_with(md, Some(typed("atomic-card", Some("card_toggle001")))).unwrap();
    assert_eq!(
        parsed.content,
        "before\n?>> 折叠标题\n这里是详细内容\n?<<\nafter\n"
    );
}

// --- titles and bodies ---

#[test]
fn title_and_body_from_heading() {
    let (t, b) = extract_title_and_body("\n# 【ATC】 Hello \n\n\nline1\nline2");
    assert_eq!(t, "Hello");
    assert_eq!(b, "line1\nline2\n");
}

#[test]
fn title_without_heading_is_first_nonblank_line() {
    let (t, b) = extract_title_and_body("\n\n  plain title  \nmore");
    assert_eq!(t, "plain title");
    assert_eq!(b, "");
    let (t2, b2) = extract_title_and_body("   \n");
    assert_eq!(t2, "");
    assert_eq!(b2, "");
}

#[test]
fn title_escapes_exact() {
    assert_eq!(normalize_title_markdown_escapes("a\\<b\\>"), "a<b>");
    assert_eq!(normalize_title_markdown_escapes("x\\*y"), "x\\*y");
    assert_eq!(normalize_title_markdown_escapes("x\\\\y"), "x\\\\y");
    assert_eq!(normalize_title_markdown_escapes("end\\"), "end\\");
    assert_eq!(normalize_title_markdown_escapes("\\a"), "\\a");
}

// --- legacy toggles ---

#[test]
fn toggle_block_is_rewritten() {
    let md = "x\n<details open>\n  <summary> S </summary>\n\n\nA\nB\n\n</details>\ny\n";
    assert_eq!(
        normalize_legacy_toggle_syntax(md),
        "x\n?>> S\nA\nB\n?<<\ny\n"
    );
}

#[test]
fn toggle_without_close_is_kept() {
    let md = "<details>\n<summary>S</summary>\nbody";
    assert_eq!(normalize_legacy_toggle_syntax(md), md);
}

#[test]
fn plain_markdown_is_unchanged_by_toggle_normalization() {
    for md in ["", "a", "a\n", "a\n\nb\n", "# T\n\n- item\n", "x\n\n"] {
        assert_eq!(normalize_legacy_toggle_syntax(md), md);
    }
}

#[test]
fn lone_newline_and_crlf_are_not_kept_by_toggle_normalization() {
    assert_eq!(normalize_legacy_toggle_syntax("\n"), "");
    assert_eq!(normalize_legacy_toggle_syntax("a\r\nb\r\n"), "a\nb\n");
}

// --- frontmatter edits ---

#[test]
fn understanding_list_is_joined_by_lines() {
    assert_eq!(understanding_from_list(&strings(&["a", "b", "c"])), "a\nb\nc");
    assert_eq!(understanding_from_list(&Vec::new()), "");
}

#[test]
fn id_update_edits_and_framing() {
    let edits = frontmatter_edits(FrontmatterUpdate {
        id: Some("card_new00001".to_string()),
        ..Default::default()
    });
    assert_eq!(
        edits,
        vec![
            FrontmatterEdit::Remove(s("uuid")),
            FrontmatterEdit::SetText(s("id"), s("card_new00001"))
        ]
    );
    let updated = wrap_frontmatter("id: card_new00001\n", CARD_MD);
    assert!(updated.contains("card_new00001"));
    assert!(updated.contains("Body content here."));
    assert!(updated.starts_with("---\nid: card_new00001\n---\n"));
}

#[test]
fn color_edits_set_or_remove() {
    assert_eq!(color_edit("#ffadad"), FrontmatterEdit::SetText(s("color"), s("#ffadad")));
    assert_eq!(color_edit("default"), FrontmatterEdit::Remove(s("color")));
}

#[test]
fn test_write_frontmatter_updates_id() {
    let updated = write_frontmatter(
        CARD_MD,
        FrontmatterUpdate {
            id: Some("card_new00001".to_string()),
            ..Default::default()
        },
    );
    assert!(updated.contains("card_new00001"));
    assert!(updated.contains("Body content here."));
    assert!(!updated.contains("card_abc12345"));
    assert!(updated.starts_with("---\n"));
    assert!(updated.contains("linkTo:"));
}

#[test]
fn test_set_color_writes_frontmatter_and_db() {
    let md = "---\ntype: atomic-card\nid: card_test0001\n---\n\n# 【ATC】Test\n\nBody.\n";
    let file = write_color_frontmatter(md, "#ffadad");
    assert!(file.contains("color:"));
    assert!(file.contains("ffadad"));
    assert!(file.contains("# 【ATC】Test"));
    let cleared = write_color_frontmatter(&file, "default");
    assert!(!cleared.contains("color:"));
    assert!(cleared.contains("id: card_test0001"));
}

#[test]
fn write_frontmatter_replaces_links_and_drops_uuid() {
    let md = "---\ntype: atomic-card\nuuid: u-1\nlinkTo:\n  - card_old\n---\n\n# 【ATC】T\n\nB\n";
    let out = write_frontmatter(
        md,
        FrontmatterUpdate {
            id: Some(s("card_1")),
            link_to: Some(strings(&["card_a", "card_b"])),
            ..Default::default()
        },
    );
    assert!(!out.contains("uuid"));
    assert!(!out.contains("card_old"));
    assert!(out.contains("card_a"));
    assert!(out.contains("card_b"));
    assert!(out.contains("id: card_1"));
    assert!(out.ends_with("---\n\n\n# 【ATC】T\n\nB\n"));
}

#[test]
fn write_frontmatter_on_unparsable_yaml_starts_over() {
    let md = "---\n: : :\n  - [\n---\nBody\n";
    let out = write_frontmatter(md, FrontmatterUpdate { id: Some(s("card_9")), ..Default::default() });
    assert!(out.starts_with("---\nid: card_9\n"));
    assert!(out.ends_with("---\n\nBody\n"));
}
