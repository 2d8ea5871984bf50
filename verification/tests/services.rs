use keysight::auth::{generate_token, hex_encode, token_matches};
use keysight::card::{
    card_title_for_edit, normalized_card_body, plan_card_cleanup, replace_card_body_markdown,
    rewrite_card_title_markdown, stored_card_color, title_cleanup,
};
use keysight::config::{
    cli_config_up_to_date, config_path, ensure_vault_path_valid, expected_cli_config,
    load_config, load_startup_config, resolve_startup_vault_path, validate_vault_path, vault_config_response, AppConfig,
    CliConfig, ConfigError, ConfigRead, VaultProbe, CLI_CONFIG_VERSION,
};
use keysight::endpoint::{EndpointFileGuard, RemoveOutcome};
use keysight::errors::KeysightError;
use keysight::graph::{
    card_alias, card_links_from_rows, disconnect_file_sync, graph_note, graph_section,
    group_link_targets, stats_from_counts, FileSync,
};
use keysight::overview::{graph_overview_from_rows, whiteboard_ids};
use keysight::legacy::{
    is_position_entity, legacy_alias, legacy_aliases_from_blob, legacy_note, legacy_notes_from_blob,
    legacy_section, legacy_sections_from_blob, mapping_of_key, meta_key, parse_json_array,
    whiteboard_mappings,
};
use keysight::mutate::{
    creates_entity, mutation_outcome, plan_mutation, Emission, MutateParams, MutateResponse, MutationStep, PayloadValue,
};
use keysight::models::{EdgeStyle, EdgeType, EntityKind, EntitySource, QuestionEntity, TaskEntity, TaskStatus};
use keysight::naming::{
    desired_question_relative_path, filename_title_component, question_relative_path,
    render_question_markdown, sanitize_file_component, validate_title, whiteboard_relative_dir,
};
use keysight::perf::{lock_wait_is_long, ScopedTimer};
use keysight::plans::{
    content_as_read, next_color, plan_question_create, plan_question_update, plan_task_create, plan_task_update,
    TaskCreateInput, TaskUpdateInput,
};
use keysight::parser::{
    extract_frontmatter, extract_title_and_body, normalize_legacy_toggle_syntax, parse_entity_with,
    skip_frontmatter, RawEntityFrontmatter,
};
use keysight::project::ProjectName;
use keysight::search::{fts_query, order_by_ids, rank_lowered, search_rank};
use keysight::sync::{
    choose_entity_id, entity_id, insert_id_into_frontmatter, kind_of_entity_type, non_entity_response, plan_sync_file,
    stored_question_status, stored_task_status, sync_plan_response, sync_response, SyncPlan,
};
use keysight::todo::{require_found, todo_title, TodoError};
use keysight::vault::{join_path, MockVaultFs, RealVaultFs};

fn s(x: &str) -> String {
    x.to_string()
}

fn strings(xs: &[&str]) -> Vec<String> {
    xs.iter().map(|x| x.to_string()).collect()
}

// --- settings and vault directories ---

const GOOD: VaultProbe = VaultProbe {
    exists: true,
    is_dir: true,
    obsidian_exists: true,
    obsidian_is_dir: true,
};

#[test]
fn load_returns_default_when_file_missing() {
    let cfg = load_config("/data/config.json", ConfigRead::Missing).unwrap();
    assert!(cfg.vault_path.is_none());
}

#[test]
fn corrupted_json_returns_parse_error() {
    let err = load_config("/data/config.json", ConfigRead::ParseFailed(s("bad"))).unwrap_err();
    assert!(matches!(err, ConfigError::Parse { .. }));
}

#[test]
fn validate_rejects_nonexistent_path() {
    let probe = VaultProbe { exists: false, is_dir: false, obsidian_exists: false, obsidian_is_dir: false };
    let err = validate_vault_path("/tmp/does_not_exist", probe).unwrap_err();
    assert!(matches!(err, ConfigError::VaultPathInvalid(_)));
}

#[test]
fn validate_rejects_file_not_dir() {
    let probe = VaultProbe { exists: true, is_dir: false, obsidian_exists: false, obsidian_is_dir: false };
    let err = validate_vault_path("/tmp/foo.txt", probe).unwrap_err();
    assert!(matches!(err, ConfigError::VaultPathInvalid(_)));
}

#[test]
fn validate_rejects_dir_without_obsidian() {
    let probe = VaultProbe { obsidian_exists: false, obsidian_is_dir: false, ..GOOD };
    let err = validate_vault_path("/tmp/v", probe).unwrap_err();
    assert!(matches!(err, ConfigError::NotObsidianVault(_)));
}

#[test]
fn validate_rejects_obsidian_as_file() {
    let probe = VaultProbe { obsidian_is_dir: false, ..GOOD };
    let err = validate_vault_path("/tmp/v", probe).unwrap_err();
    assert!(matches!(err, ConfigError::NotObsidianVault(_)));
}

#[test]
fn validate_accepts_valid_vault() {
    validate_vault_path("/tmp/v", GOOD).unwrap();
}

#[test]
fn config_messages_and_paths() {
    assert_eq!(config_path("/data"), "/data/config.json");
    assert_eq!(config_path("/data/"), "/data/config.json");
    assert_eq!(config_path(""), "config.json");
    assert_eq!(
        ensure_vault_path_valid("/v", VaultProbe { exists: false, ..GOOD }),
        Err(s("路径不存在或不是目录: /v"))
    );
    assert_eq!(
        ensure_vault_path_valid("/v", VaultProbe { obsidian_exists: false, ..GOOD }),
        Err(s("选择的目录不是 Obsidian vault(缺少 .obsidian/ 子目录): /v"))
    );
    assert_eq!(ensure_vault_path_valid("/v", GOOD), Ok(()));
    assert_eq!(
        load_startup_config("/data", ConfigRead::ReadFailed(s("denied"))),
        Err(s("config 文件读取失败(/data/config.json): denied"))
    );
    assert_eq!(
        load_startup_config("/data", ConfigRead::ParseFailed(s("eof"))),
        Err(s("config 文件 JSON 解析失败(/data/config.json): eof"))
    );
    let cfg = AppConfig { vault_path: Some(s("/some/vault")) };
    assert_eq!(load_startup_config("/data", ConfigRead::Parsed(cfg.clone())), Ok(cfg));
    let w = ConfigError::Write { path: s("/p"), detail: s("full") };
    assert_eq!(w.message(), "config 文件写入失败(/p): full");
    let c = ConfigError::CreateDir { path: s("/p"), detail: s("ro") };
    assert_eq!(c.message(), "config 目录创建失败(/p): ro");
    assert_eq!(AppConfig::default().vault_path, None);
}

#[test]
fn vault_config_ready_only_when_installed() {
    let r = vault_config_response(Some(s("/v")));
    assert!(r.ready);
    assert_eq!(r.vault_path, Some(s("/v")));
    let n = vault_config_response(None);
    assert!(!n.ready);
    assert_eq!(n.vault_path, None);
}

#[test]
fn test_config_file_ensure_updates_drifted_db_path() {
    let old = CliConfig {
        cli_config_version: 1,
        db_path: s("/old/path/keysight.db"),
        vault_path: s("/old/vault"),
    };
    let expected = expected_cli_config("/tmp/new-keysight.db", "/tmp/new-vault");
    assert!(!cli_config_up_to_date(&Some(old), &expected));
    assert_eq!(expected.db_path, "/tmp/new-keysight.db");
    assert_eq!(expected.vault_path, "/tmp/new-vault");
    assert_eq!(expected.cli_config_version, CLI_CONFIG_VERSION);
    assert!(cli_config_up_to_date(&Some(expected.clone()), &expected));
    assert!(!cli_config_up_to_date(&None, &expected));
}

// --- endpoint file guard ---

#[test]
fn test_endpoint_file_guard_invalidate_idempotent() {
    let mut guard = EndpointFileGuard::new(s("/tmp/cli-endpoint.toml"));
    assert!(guard.needs_removal());
    assert_eq!(guard.record_removal(RemoveOutcome::Removed), Ok(()));
    assert!(guard.is_invalidated());
    assert!(!guard.needs_removal());
    assert_eq!(guard.path(), "/tmp/cli-endpoint.toml");
}

#[test]
fn endpoint_guard_failure_keeps_it_retryable() {
    let mut guard = EndpointFileGuard::new(s("/x"));
    assert_eq!(guard.record_removal(RemoveOutcome::Failed(s("busy"))), Err(s("busy")));
    assert!(guard.needs_removal());
    assert_eq!(guard.record_removal(RemoveOutcome::NotFound), Ok(()));
    assert!(!guard.needs_removal());
}

// --- timing ---

#[test]
fn timer_elapsed_and_slowness() {
    let t = ScopedTimer::new(s("sync_vault"), 1_000);
    assert_eq!(t.elapsed_ns(1_500), 500);
    assert_eq!(t.elapsed_ns(10), 0);
    assert!(!t.is_slow(1_000 + 99_999_999));
    assert!(t.is_slow(1_000 + 100_000_000));
    assert!(!lock_wait_is_long(49_999_999));
    assert!(lock_wait_is_long(50_000_000));
}

// --- to-do items ---

#[test]
fn todo_title_trims_and_rejects_blank() {
    assert_eq!(todo_title("  Buy milk  "), Ok(s("Buy milk")));
    assert_eq!(todo_title("  "), Err(TodoError::EmptyTitle));
    assert_eq!(require_found(0, 999), Err(TodoError::NotFound(999)));
    assert_eq!(require_found(1, 999), Ok(()));
    assert_eq!(TodoError::NotFound(-42).message(), "Todo not found: -42");
    assert_eq!(TodoError::NotFound(i64::MIN).message(), "Todo not found: -9223372036854775808");
    assert_eq!(TodoError::EmptyTitle.message(), "Title cannot be empty");
    assert_eq!(TodoError::Database(s("locked")).message(), "Database error: locked");
}

// --- cards ---

#[test]
fn card_title_rewrite_replaces_first_heading() {
    let md = "---\nid: card_1\n---\n\n# 【ATC】Old\n\nbody\n# second\n";
    assert_eq!(
        rewrite_card_title_markdown(md, "New"),
        "---\nid: card_1\n---\n\n# 【ATC】New\n\nbody\n# second\n"
    );
}

#[test]
fn card_title_rewrite_appends_heading_when_missing() {
    assert_eq!(rewrite_card_title_markdown("just text", "T"), "just text\n# 【ATC】T\n");
    assert_eq!(rewrite_card_title_markdown("", "T"), "# 【ATC】T\n");
}

#[test]
fn card_title_rewrite_keeps_markdown_characters() {
    let md = "# 【ATC】Old\n";
    assert_eq!(
        rewrite_card_title_markdown(md, "**Arc<T>** [x]"),
        "# 【ATC】**Arc<T>** [x]\n"
    );
}

#[test]
fn card_title_for_edit_trims_and_rejects_blank() {
    assert_eq!(card_title_for_edit("   "), Err(KeysightError::EmptyTitle));
    assert_eq!(card_title_for_edit("  New  "), Ok(s("New")));
}

#[test]
fn card_body_replaced_after_heading() {
    let md = "---\nid: card_1\n---\n\n# 【ATC】T\n\nold body\n";
    assert_eq!(
        replace_card_body_markdown(md, "new body"),
        "---\nid: card_1\n---\n\n# 【ATC】T\n\nnew body"
    );
    assert_eq!(replace_card_body_markdown("no heading", "b"), "no heading\n\nb");
}

#[test]
fn card_body_replacement_normalizes_toggles() {
    let body = "<details>\n<summary>S</summary>\nX\n</details>\n";
    assert_eq!(normalized_card_body(body), "?>> S\nX\n?<<\n");
    assert_eq!(
        replace_card_body_markdown("# 【ATC】T\n", body),
        "# 【ATC】T\n\n?>> S\nX\n?<<\n"
    );
}

#[test]
fn stored_card_color_default_is_none() {
    assert_eq!(stored_card_color("default"), None);
    assert_eq!(stored_card_color("#ffadad"), Some(s("#ffadad")));
}

#[test]
fn title_cleanup_rewrites_escaped_titles() {
    let md = "# 【ATC】Arc\\<T\\>\n\nbody\n";
    let c = title_cleanup(md, "Arc<T>", "Arc\\<T\\>");
    assert_eq!(c.rewritten, Some(s("# 【ATC】Arc<T>\n\nbody\n")));
    assert!(c.update_db);
    let clean = title_cleanup("# 【ATC】Arc<T>\n", "Arc<T>", "Arc<T>");
    assert_eq!(clean.rewritten, None);
    assert!(!clean.update_db);
}

// --- search ---

#[test]
fn fts_query_quotes_words() {
    assert_eq!(fts_query("  rust  own\"ership "), Some(s("\"rust\" AND \"ownership\"")));
    assert_eq!(fts_query("one"), Some(s("\"one\"")));
    assert_eq!(fts_query(" \t\n"), None);
    assert_eq!(fts_query("a\u{3000}b"), Some(s("\"a\" AND \"b\"")));
}

#[test]
fn search_rank_prefers_title_matches() {
    assert_eq!(search_rank("Rust Ownership", "x", " rust ownership "), 0);
    assert_eq!(search_rank("Rust Ownership Model", "x", "rust ownership"), 1);
    assert_eq!(search_rank("Ownership in Rust", "x", "rust ownership"), 2);
    assert_eq!(search_rank("Borrowing", "About Rust Ownership here", "rust ownership"), 3);
    assert_eq!(search_rank("Borrowing", "nothing", "rust ownership"), 4);
}

#[test]
fn rank_of_lowered_text() {
    assert_eq!(rank_lowered("abc", "", "abc"), 0);
    assert_eq!(rank_lowered("xabcx", "", "abc"), 1);
    assert_eq!(rank_lowered("c b a", "", "a  c"), 2);
    assert_eq!(rank_lowered("zzz", "a c", "a c"), 3);
    assert_eq!(rank_lowered("zzz", "", "a c"), 4);
    assert_eq!(rank_lowered("Abc", "", "abc"), 4);
}

#[test]
fn order_by_ids_follows_requested_order() {
    let cards = strings(&["card_a", "card_b", "card_c"]);
    let ids = strings(&["card_c", "card_a", "card_b"]);
    assert_eq!(order_by_ids(&cards, &ids), vec![2, 0, 1]);
}

#[test]
fn order_by_ids_duplicates_and_unlisted() {
    let cards = strings(&["x", "a", "b", "a"]);
    let ids = strings(&["a", "b", "a"]);
    // "a" ranks by its last position (2), after "b" (1); "x" is unlisted
    assert_eq!(order_by_ids(&cards, &ids), vec![2, 1, 3, 0]);
}

// --- tokens ---

#[test]
fn token_matches_only_the_expected_token() {
    assert!(!token_matches(Some("wrong"), "secret-token"));
    assert!(!token_matches(None, "secret-token"));
    assert!(token_matches(Some("secret-token"), "secret-token"));
    assert!(token_matches(None, ""));
}

#[test]
fn hex_and_generated_tokens() {
    assert_eq!(hex_encode(&vec![0u8, 15, 16, 171, 255]), "000f10abff");
    let t = generate_token();
    assert_eq!(t.len(), 64);
    assert!(t.chars().all(|c| c.is_ascii_digit() || ('a'..='f').contains(&c)));
    let u = generate_token();
    assert_ne!(t, u);
}

// --- legacy import ---

#[test]
fn json_string_arrays_or_empty() {
    assert_eq!(parse_json_array("[]"), Vec::<String>::new());
    assert_eq!(parse_json_array("not json"), Vec::<String>::new());
    assert_eq!(parse_json_array("[\"a\", \"b\"]"), strings(&["a", "b"]));
    assert_eq!(parse_json_array("[1, 2]"), Vec::<String>::new());
}

#[test]
fn whiteboard_mappings_of_section_keys() {
    let keys = strings(&["graph_sections", "graph_notes", "graph_sections:wb1", "other"]);
    let m = whiteboard_mappings(&keys);
    assert_eq!(m.len(), 2);
    assert_eq!(m[0].meta_suffix, None);
    assert_eq!(m[0].whiteboard_id, "wb_root");
    assert_eq!(m[1].meta_suffix, Some(s("wb1")));
    assert_eq!(m[1].whiteboard_id, "wb1");
    assert!(mapping_of_key("graph_notes").is_none());
    assert_eq!(meta_key("notes", ""), "graph_notes");
    assert_eq!(meta_key("notes", "wb1"), "graph_notes:wb1");
}

#[test]
fn position_entities_by_prefix() {
    assert!(is_position_entity("card_1"));
    assert!(is_position_entity("sec_1"));
    assert!(is_position_entity("note_1"));
    assert!(is_position_entity("alias_1"));
    assert!(!is_position_entity("junk_1"));
    assert!(!is_position_entity("task_1"));
}

#[test]
fn legacy_items_from_fields() {
    let sec = legacy_section(Some(s("sec_1")), None, Some(s("red")), "[\"card_1\"]", "oops");
    assert_eq!(sec.id, "sec_1");
    assert_eq!(sec.title, "");
    assert_eq!(sec.color, Some(s("red")));
    assert_eq!(sec.card_ids, strings(&["card_1"]));
    assert!(sec.linked_section_ids.is_empty());
    let note = legacy_note(Some(s("note_1")), Some(s("N")), None, "[\"card_2\"]", "[]", "[\"sec_1\"]");
    assert_eq!(note.content, "");
    assert_eq!(note.linked_card_ids, strings(&["card_2"]));
    assert_eq!(note.linked_section_ids, strings(&["sec_1"]));
    let alias = legacy_alias(Some(s("alias_1")), Some(s("card_1")), "[]", "[]", "[\"card_9\"]");
    assert_eq!(alias.card_id, "card_1");
    assert_eq!(alias.incoming_card_ids, strings(&["card_9"]));
}

// --- vault access ---

#[test]
fn vault_paths_join() {
    let v = RealVaultFs::new(s("/vault"));
    assert_eq!(v.abs_path("whiteboard/a.md"), "/vault/whiteboard/a.md");
    assert_eq!(RealVaultFs::new(s("/vault/")).abs_path("a.md"), "/vault/a.md");
    assert_eq!(RealVaultFs::new(s("")).abs_path("a.md"), "/a.md");
    assert_eq!(join_path("/vault", "/etc/x"), "/etc/x");
    assert_eq!(join_path("", "a"), "a");
}

#[test]
fn mock_vault_reads_back_writes() {
    let mut v = MockVaultFs::new().with_file("a.md", "one");
    assert_eq!(v.get_file("a.md"), Some(s("one")));
    assert_eq!(v.read_file("b.md"), Err(KeysightError::FileError(s("文件不存在: b.md"))));
    v.write_file("a.md", "two").unwrap();
    v.write_file("b.md", "three").unwrap();
    assert_eq!(v.read_file("a.md"), Ok(s("two")));
    assert_eq!(v.read_file("b.md"), Ok(s("three")));
}

// --- edges, links and counts ---

#[test]
fn disconnect_sync_targets() {
    assert_eq!(disconnect_file_sync("card_1", EdgeType::Related), FileSync::Card);
    assert_eq!(disconnect_file_sync("card_1", EdgeType::NoteLink), FileSync::Nothing);
    assert_eq!(disconnect_file_sync("note_1", EdgeType::NoteLink), FileSync::Note);
    assert_eq!(disconnect_file_sync("alias_1", EdgeType::AliasLink), FileSync::Nothing);
}

#[test]
fn card_links_grouped_from_rows() {
    let out = vec![(s("card_b"), s("link_to")), (s("card_c"), s("related")), (s("x"), s("weird"))];
    let inc = vec![(s("card_z"), s("see_also")), (s("card_y"), s("link_to"))];
    let l = card_links_from_rows(&out, &inc);
    assert_eq!(l.link_to, strings(&["card_b"]));
    assert_eq!(l.related, strings(&["card_c"]));
    assert!(l.see_also.is_empty());
    assert_eq!(l.linked_from, strings(&["card_y"]));
    assert_eq!(l.see_also_from, strings(&["card_z"]));
    assert!(l.related_from.is_empty());
}

#[test]
fn stats_counted_by_kind() {
    let rows = vec![(s("card"), 3u64), (s("note"), 2), (s("mystery"), 9)];
    let st = stats_from_counts(&rows, 4);
    assert_eq!(st.cards, 3);
    assert_eq!(st.notes, 2);
    assert_eq!(st.sections, 0);
    assert_eq!(st.tasks, 0);
    assert_eq!(st.edges, 4);
}

#[test]
fn overview_counts_kinds_and_incoming_links() {
    // Rows as the index returns them, by whiteboard and title.
    let entities = vec![
        (s("card_a"), s("card"), s("b1"), s("A"), s("whiteboard/b1/a.md")),
        (s("card_b"), s("card"), s("b1"), s("B"), s("whiteboard/b1/b.md")),
        (s("sec_1"), s("section"), s("b1"), s("S"), s("")),
        (s("note_1"), s("note"), s("wb_root"), s("N"), s("")),
    ];
    let links = vec![
        (s("card_a"), s("link_to")),
        (s("card_a"), s("related")),
        (s("card_b"), s("link_to")),
        (s("card_a"), s("link_to")),
    ];
    let r = graph_overview_from_rows(&entities, &links);
    assert_eq!(r.whiteboards.len(), 2);
    let b1 = &r.whiteboards[0];
    assert_eq!(b1.whiteboard_id, "b1");
    assert_eq!((b1.cards, b1.sections, b1.notes, b1.aliases), (2, 1, 0, 0));
    assert_eq!(b1.card_summaries.len(), 2);
    assert_eq!(b1.card_summaries[0].id, "card_a");
    assert_eq!(b1.card_summaries[0].title, "A");
    assert_eq!(b1.card_summaries[0].file_path, "whiteboard/b1/a.md");
    assert_eq!(b1.card_summaries[0].incoming_link_count, 2);
    assert_eq!(b1.card_summaries[1].incoming_link_count, 1);
    let root = &r.whiteboards[1];
    assert_eq!(root.whiteboard_id, "wb_root");
    assert_eq!((root.cards, root.notes), (0, 1));
    assert!(root.card_summaries.is_empty());
    assert!(graph_overview_from_rows(&vec![], &links).whiteboards.is_empty());
}

/// The entity row and the edge rows the index holds after synchronising
/// the file `path` read as `raw`.
fn indexed(path: &str, md: &str, raw: RawEntityFrontmatter) -> ((String, String, String, String, String), Vec<(String, String)>) {
    let SyncPlan::Entity(rows) = plan_sync_file(path, parse_entity_with(md, Some(raw)), "00000000").unwrap() else {
        panic!("an entity file");
    };
    let edges = rows.edges.iter().map(|(t, e)| (t.clone(), s(e.as_db_str()))).collect();
    ((rows.id, s(rows.kind.as_db_str()), rows.whiteboard_id, rows.title, s(path)), edges)
}

#[test]
fn test_graph_overview_with_data() {
    let card_md = "---\ntype: atomic-card\nid: card_ov_001\ntags:\n  - test\nlinkTo:\n  - card_ov_002\n---\n\n# 【ATC】Overview Card 1\n\nBody.\n";
    let card1 = RawEntityFrontmatter {
        entity_type: Some(s("atomic-card")),
        id: Some(s("card_ov_001")),
        tags: strings(&["test"]),
        link_to: strings(&["card_ov_002"]),
        ..Default::default()
    };
    let card_md2 = "---\ntype: atomic-card\nid: card_ov_002\n---\n\n# 【ATC】Overview Card 2\n\nBody.\n";
    let card2 = RawEntityFrontmatter {
        entity_type: Some(s("atomic-card")),
        id: Some(s("card_ov_002")),
        ..Default::default()
    };
    let task_md = "---\ntype: project-task\nid: task_ov_001\nstatus: next\n---\n\n# 【TASK】Task\n\nBody.\n";
    let task = RawEntityFrontmatter {
        entity_type: Some(s("project-task")),
        id: Some(s("task_ov_001")),
        status: Some(s("next")),
        ..Default::default()
    };
    let (e1, l1) = indexed("whiteboard/ov1.md", card_md, card1);
    let (e2, l2) = indexed("whiteboard/ov2.md", card_md2, card2);
    let (e3, l3) = indexed("whiteboard/myboard/task.md", task_md, task);
    // By whiteboard, then title, as the index reads them.
    let entities = vec![e3, e1, e2];
    let links: Vec<(String, String)> = l1.into_iter().chain(l2).chain(l3).collect();

    let resp = graph_overview_from_rows(&entities, &links);
    assert_eq!(resp.whiteboards.len(), 2);
    let root = resp.whiteboards.iter().find(|w| w.whiteboard_id == "wb_root").unwrap();
    assert_eq!(root.cards, 2);
    assert_eq!(root.card_summaries.len(), 2);
    let ov2 = root.card_summaries.iter().find(|c| c.id == "card_ov_002").unwrap();
    assert_eq!(ov2.incoming_link_count, 1);
    let myboard = resp.whiteboards.iter().find(|w| w.whiteboard_id == "myboard").unwrap();
    assert_eq!(myboard.cards, 0);
}

#[test]
fn test_stats_with_data() {
    let card_md = "---\ntype: atomic-card\nid: card_stat0001\ntags:\n  - test\nlinkTo:\n  - card_other001\n---\n\n# 【ATC】Stat Card\n\nBody.\n";
    let card = RawEntityFrontmatter {
        entity_type: Some(s("atomic-card")),
        id: Some(s("card_stat0001")),
        tags: strings(&["test"]),
        link_to: strings(&["card_other001"]),
        ..Default::default()
    };
    let task_md = "---\ntype: project-task\nid: task_stat0001\nstatus: next\n---\n\n# 【TASK】Stat Task\n\nBody.\n";
    let task = RawEntityFrontmatter {
        entity_type: Some(s("project-task")),
        id: Some(s("task_stat0001")),
        status: Some(s("next")),
        ..Default::default()
    };
    let (e1, l1) = indexed("cards/stat.md", card_md, card);
    let (e2, l2) = indexed("tasks/stat.md", task_md, task);
    // The index's `(kind, count)` rows.
    let mut kinds: Vec<(String, u64)> = Vec::new();
    for e in [&e1, &e2] {
        match kinds.iter_mut().find(|(k, _)| *k == e.1) {
            Some(row) => row.1 += 1,
            None => kinds.push((e.1.clone(), 1)),
        }
    }
    let st = stats_from_counts(&kinds, (l1.len() + l2.len()) as u64);
    assert_eq!(st.cards, 1);
    assert_eq!(st.tasks, 1);
    assert_eq!(st.edges, 1);
    assert_eq!(st.notes, 0);
}

#[test]
fn overview_lists_each_whiteboard_once_in_first_order() {
    let row = |id: &str, kind: &str, wb: &str| (s(id), s(kind), s(wb), s(id), s(""));
    let entities = vec![row("card_1", "card", "b"), row("alias_1", "alias", "a"), row("card_2", "card", "b")];
    let ids = whiteboard_ids(&entities);
    assert_eq!(ids, strings(&["b", "a"]));
    let r = graph_overview_from_rows(&entities, &vec![]);
    assert_eq!(r.whiteboards[0].cards, 2);
    assert_eq!(r.whiteboards[1].aliases, 1);
    assert_eq!(r.whiteboards[0].card_summaries[1].id, "card_2");
    assert_eq!(r.whiteboards[0].card_summaries[1].incoming_link_count, 0);
}

// --- models ---

#[test]
fn entity_kinds_and_db_strings() {
    assert_eq!(EntityKind::from_id("card_1"), Some(EntityKind::Card));
    assert_eq!(EntityKind::from_id("sec_1"), Some(EntityKind::Section));
    assert_eq!(EntityKind::from_id("zzz"), None);
    for k in [
        EntityKind::Card,
        EntityKind::Note,
        EntityKind::Section,
        EntityKind::Alias,
        EntityKind::Task,
        EntityKind::Question,
    ] {
        assert_eq!(EntityKind::from_db_str(k.as_db_str()), Some(k));
        assert!(k.id_prefix().ends_with('_'));
        let _ = k.source();
    }
    assert_eq!(EntityKind::Card.source(), EntitySource::FileBacked);
    assert_eq!(EdgeType::from_db_str("link_to"), Some(EdgeType::LinkTo));
    assert_eq!(EdgeType::from_db_str("nope"), None);
    assert_eq!(EdgeStyle::from_db_str(EdgeStyle::Dashed.as_db_str()), Some(EdgeStyle::Dashed));
}

// --- sync helpers ---

#[test]
fn sync_response_for_new_and_known_ids() {
    assert_eq!(choose_entity_id(&None, "card_new"), (s("card_new"), true));
    assert_eq!(choose_entity_id(&Some(s("card_old")), "card_new"), (s("card_old"), false));
    let r = sync_response(false, Some(s("card_new")));
    assert_eq!(r.inserted, 1);
    assert_eq!(r.updated, 0);
    assert!(r.needs_id_backfill);
    assert_eq!(r.assigned_id, "card_new");
    let u = sync_response(true, None);
    assert_eq!(u.updated, 1);
    assert!(!u.needs_id_backfill);
    let n = non_entity_response();
    assert_eq!((n.updated, n.inserted, n.deleted), (0, 0, 0));
}

#[test]
fn entity_types_and_default_statuses() {
    assert_eq!(kind_of_entity_type("project-task"), Ok(EntityKind::Task));
    assert_eq!(kind_of_entity_type("atomic-card"), Ok(EntityKind::Card));
    assert!(matches!(kind_of_entity_type("x"), Err(KeysightError::InvalidEntityType(_))));
    assert_eq!(stored_task_status(&None), "next");
    assert_eq!(stored_task_status(&Some(s("done"))), "done");
    assert_eq!(stored_question_status(&None), "pending");
}

// --- names, paths and plans ---

#[test]
fn question_paths_and_title_checks() {
    let p = question_relative_path("wb_root", "q_1", "**Why** / Question");
    assert!(p.ends_with("【QUE】Why _ Question.md"));
    assert_eq!(p, "whiteboard/q_1 【QUE】Why _ Question.md");
    assert_eq!(whiteboard_relative_dir("wb_root"), "whiteboard");
    assert_eq!(whiteboard_relative_dir("b1"), "whiteboard/b1");
    assert_eq!(
        desired_question_relative_path("b1", "q_1", "T", Some("whiteboard/b1/q_1 【QUE】T.md")),
        "whiteboard/b1/q_1 【QUE】T.md"
    );
    assert_eq!(filename_title_component("**a**b"), "ab");
    assert_eq!(sanitize_file_component("a/b:c"), "a_b_c");
    assert_eq!(validate_title("  t "), Ok(s("t")));
    assert_eq!(validate_title(" "), Err(KeysightError::EmptyTitle));
}

#[test]
fn task_plan_rejects_blank_title() {
    let project = ProjectName::new("super-tauri").unwrap();
    let input = TaskCreateInput {
        title: s("  "),
        content: None,
        status: TaskStatus::Inbox,
        area: None,
        color: None,
    };
    assert_eq!(plan_task_create(&project, "task_1", &input), Err(KeysightError::EmptyTitle));
}

#[test]
fn task_plan_trims_title_and_writes_color() {
    let project = ProjectName::new("super-tauri").unwrap();
    let input = TaskCreateInput {
        title: s(" Add login "),
        content: Some(s("body")),
        status: TaskStatus::Next,
        area: None,
        color: Some(s("#ffadad")),
    };
    let w = plan_task_create(&project, "task_1", &input).unwrap();
    assert_eq!(w.relative_path, "whiteboard/projects/super-tauri/task_1 【TASK】Add login.md");
    assert!(w.markdown.contains("# 【TASK】Add login"));
    assert!(w.markdown.contains("color: \"#ffadad\""));
    assert!(w.markdown.contains("\nbody\n"));
}

#[test]
fn test_create_task_writes_file_and_syncs_db() {
    let project = ProjectName::new("super-tauri").unwrap();
    let input = TaskCreateInput {
        title: s("Add login"),
        content: Some(s("Task body")),
        status: TaskStatus::Active,
        area: Some(s("backend")),
        color: None,
    };
    let w = plan_task_create(&project, "task_1", &input).unwrap();
    assert!(w.relative_path.starts_with("whiteboard/projects/super-tauri/"));
    assert!(w.relative_path.ends_with("【TASK】Add login.md"));
    assert!(w.markdown.contains("type: project-task"));
    assert!(w.markdown.contains("status: active"));
    assert!(w.markdown.contains("# 【TASK】Add login"));
    assert!(w.markdown.contains("area: backend"));
    assert!(w.markdown.contains("project: super-tauri"));

    // The file as the index reads it back.
    let raw = RawEntityFrontmatter {
        entity_type: Some(s("project-task")),
        id: Some(s("task_1")),
        status: Some(s("active")),
        area: Some(s("backend")),
        project: Some(s("super-tauri")),
        ..Default::default()
    };
    let parsed = parse_entity_with(&w.markdown, Some(raw));
    let SyncPlan::Entity(rows) = plan_sync_file(&w.relative_path, parsed, "00000000").unwrap() else {
        panic!("a task file is an entity");
    };
    assert_eq!(rows.kind, EntityKind::Task);
    assert_eq!(rows.id, "task_1");
    assert_eq!(rows.title, "Add login");
    assert_eq!(rows.task_status, "active");
    assert_eq!(rows.task_area, Some(s("backend")));
    assert_eq!(rows.task_project, Some(s("super-tauri")));
    assert_eq!(rows.whiteboard_id, "projects/super-tauri");
    assert_eq!(rows.whiteboard_id, project.whiteboard_id());
}

fn task(title: &str, project: Option<&str>) -> TaskEntity {
    TaskEntity {
        id: s("task_1"),
        title: s(title),
        content: s("c"),
        whiteboard_id: s("projects/super-tauri"),
        status: TaskStatus::Next,
        area: None,
        project: project.map(s),
        color: Some(s("#aaa")),
    }
}

fn no_change() -> TaskUpdateInput {
    TaskUpdateInput { title: None, content: None, status: None, area: None, color: None }
}

#[test]
fn task_update_plan_moves_file_on_rename() {
    let current = task("Old", Some("super-tauri"));
    let old = s("whiteboard/projects/super-tauri/task_1 【TASK】Old.md");
    let input = TaskUpdateInput { title: Some(s("New Title")), ..no_change() };
    let w = plan_task_update(&current, &input, Some(old.clone())).unwrap();
    assert!(w.relative_path.ends_with("【TASK】New Title.md"));
    assert_eq!(w.remove_path, Some(old.clone()));
    let same = plan_task_update(&current, &no_change(), Some(old.clone())).unwrap();
    assert_eq!(same.remove_path, None);
    assert_eq!(same.relative_path, old);
}

#[test]
fn task_update_plan_clears_color_on_default() {
    let current = task("T", Some("super-tauri"));
    let input = TaskUpdateInput { color: Some(s("default")), ..no_change() };
    let w = plan_task_update(&current, &input, None).unwrap();
    assert!(!w.markdown.contains("color:"));
    let keep = plan_task_update(&current, &no_change(), None).unwrap();
    assert!(keep.markdown.contains("color: \"#aaa\""));
    assert_eq!(next_color(Some("default"), Some(s("#aaa"))), None);
    assert_eq!(next_color(None, Some(s("#aaa"))), Some(s("#aaa")));
    assert_eq!(next_color(Some("#bbb"), None), Some(s("#bbb")));
}

#[test]
fn task_update_without_valid_project_fails() {
    let input = no_change();
    assert!(matches!(
        plan_task_update(&task("T", None), &input, None),
        Err(KeysightError::InvalidProjectName(_))
    ));
    assert!(matches!(
        plan_task_update(&task("T", Some("a/b")), &input, None),
        Err(KeysightError::InvalidProjectName(_))
    ));
    let blank = TaskUpdateInput { title: Some(s(" ")), ..no_change() };
    assert_eq!(
        plan_task_update(&task("T", Some("p")), &blank, None),
        Err(KeysightError::EmptyTitle)
    );
}

#[test]
fn question_create_plan_renders_file() {
    let (q, w) = plan_question_create("wb_root", "q_1", " Why? ", Some("Body"), None, None).unwrap();
    assert_eq!(q.title, "Why?");
    assert_eq!(q.status, "pending");
    assert_eq!(q.content, "Body");
    assert_eq!(w.relative_path, "whiteboard/q_1 【QUE】Why_.md");
    assert_eq!(w.markdown, render_question_markdown(&q));
    assert!(w.markdown.contains("type: question"));
    assert!(plan_question_create("wb_root", "q_1", "  ", None, None, None).is_err());
}

#[test]
fn question_update_plan_sets_and_clears_color() {
    let current = QuestionEntity {
        id: s("q_1"),
        title: s("Q"),
        content: s("c"),
        whiteboard_id: s("wb_root"),
        status: s("pending"),
        color: None,
        linked_section_ids: None,
        linked_card_ids: None,
        linked_note_ids: None,
        linked_question_ids: None,
        linked_task_ids: None,
    };
    let (q, _) = plan_question_update(&current, None, None, None, Some("#ffadad"), None).unwrap();
    assert_eq!(q.color, Some(s("#ffadad")));
    let (q2, _) = plan_question_update(&q, None, None, Some("answered"), Some("default"), None).unwrap();
    assert_eq!(q2.color, None);
    assert_eq!(q2.status, "answered");
    let (q3, w3) = plan_question_update(&q2, Some("New"), None, None, None, Some(s("whiteboard/q_1 【QUE】Q.md"))).unwrap();
    assert_eq!(q3.title, "New");
    assert_eq!(w3.remove_path, Some(s("whiteboard/q_1 【QUE】Q.md")));
}

// --- laws on concrete values ---

#[test]
fn rewritten_title_reads_back() {
    let md = "intro\n# 【ATC】Old\nbody\n";
    let rewritten = rewrite_card_title_markdown(md, "New Title");
    assert_eq!(extract_title_and_body(&rewritten).0, "New Title");
    let appended = rewrite_card_title_markdown("no heading here", "Fresh");
    assert_eq!(extract_title_and_body(&appended).0, "Fresh");
}

#[test]
fn inserted_id_lands_in_frontmatter_only() {
    let md = "---\ntype: note\n---\n\n# 【NOTE】T\n\nbody\n";
    let out = insert_id_into_frontmatter(md, "note_1").unwrap();
    assert_eq!(
        extract_frontmatter(&out).unwrap(),
        format!("\nid: note_1{}", extract_frontmatter(md).unwrap())
    );
    assert_eq!(skip_frontmatter(&out), skip_frontmatter(md));
}

#[test]
fn rewriting_a_title_twice_is_rewriting_it_once() {
    for md in ["intro\n# 【ATC】Old\nbody\n", "no heading", "", "a\r\nb\n# x"] {
        let once = rewrite_card_title_markdown(md, "T ");
        assert_eq!(rewrite_card_title_markdown(&once, "T "), once);
    }
    // a stray carriage return on another line is cut by the second pass
    let once = rewrite_card_title_markdown("x\r", "T");
    assert_ne!(rewrite_card_title_markdown(&once, "T"), once);
}

#[test]
fn toggle_normalization_settles_without_nested_blocks() {
    let md = "a\n<details>\n<summary>S</summary>\nX\n</details>\n";
    let once = normalize_legacy_toggle_syntax(md);
    assert_eq!(normalize_legacy_toggle_syntax(&once), once);
    // nested blocks need two passes
    let nested = "<details>\n<summary>A</summary>\n<details>\n<summary>B</summary>\nx\n</details>\n</details>";
    let first = normalize_legacy_toggle_syntax(nested);
    assert_ne!(normalize_legacy_toggle_syntax(&first), first);
}

#[test]
fn link_targets_are_grouped_by_kind() {
    let targets = strings(&["card_1", "sec_1", "alias_2", "note_1", "task_9", "card_3"]);
    let g = group_link_targets(&targets);
    assert_eq!(g.cards, Some(strings(&["card_1", "alias_2", "card_3"])));
    assert_eq!(g.sections, Some(strings(&["sec_1"])));
    assert_eq!(g.notes, Some(strings(&["note_1"])));
    let none = group_link_targets(&strings(&["q_1"]));
    assert_eq!((none.cards, none.sections, none.notes), (None, None, None));
    let n = graph_note(s("note_1"), s("N"), "<details>\n<summary>S</summary>\nX\n</details>", None, &targets);
    assert_eq!(n.content, "?>> S\nX\n?<<");
    assert_eq!(n.linked_note_ids, Some(strings(&["note_1"])));
    let a = card_alias(s("alias_1"), s("card_1"), &Vec::new(), Vec::new());
    assert_eq!(a.linked_card_ids, None);
    assert_eq!(a.incoming_card_ids, None);
    let a2 = card_alias(s("alias_1"), s("card_1"), &Vec::new(), strings(&["card_5"]));
    assert_eq!(a2.incoming_card_ids, Some(strings(&["card_5"])));
    let sec = graph_section(s("sec_1"), s("S"), strings(&["card_1"]), None, Vec::new());
    assert_eq!(sec.linked_section_ids, None);
    assert_eq!(sec.card_ids, strings(&["card_1"]));
}

#[test]
fn stored_content_loses_trailing_line_breaks() {
    assert_eq!(content_as_read("body\n\n"), "body");
    assert_eq!(content_as_read("a\nb"), "a\nb");
    assert_eq!(content_as_read("\n"), "");
}

#[test]
fn startup_vault_path_fallbacks() {
    let saved = Some(AppConfig { vault_path: Some(s("/saved")) });
    assert_eq!(resolve_startup_vault_path(true, Some(s("/env")), saved.clone()), Some(s("/env")));
    assert_eq!(resolve_startup_vault_path(false, Some(s("/env")), saved.clone()), Some(s("/saved")));
    assert_eq!(resolve_startup_vault_path(true, None, saved), Some(s("/saved")));
    assert_eq!(resolve_startup_vault_path(false, None, None), None);
    assert_eq!(resolve_startup_vault_path(false, None, Some(AppConfig::default())), None);
}

// --- synchronising a file ---

#[test]
fn test_sync_without_id_generates_one() {
    let md = "---\ntype: atomic-card\ntags:\n  - test\n---\n\n# 【ATC】No ID\n\nBody.\n";
    let raw = RawEntityFrontmatter {
        entity_type: Some(s("atomic-card")),
        tags: strings(&["test"]),
        ..Default::default()
    };
    let plan = plan_sync_file("whiteboard/noid.md", parse_entity_with(md, Some(raw)), "1a2b3c4d").unwrap();
    let resp = sync_plan_response(&plan, false);
    assert!(resp.needs_id_backfill);
    assert!(resp.assigned_id.starts_with("card_"));
    assert_eq!(resp.assigned_id, "card_1a2b3c4d");
    assert_eq!((resp.inserted, resp.updated, resp.deleted), (1, 0, 0));
    let SyncPlan::Entity(rows) = plan else { panic!("a card is an entity") };
    assert_eq!(rows.id, "card_1a2b3c4d");
    assert_eq!(rows.title, "No ID");
    assert_eq!(rows.tags, strings(&["test"]));
    assert_eq!(rows.whiteboard_id, "wb_root");
}

#[test]
fn test_sync_task() {
    let md = "---\ntype: project-task\nid: task_test0001\nstatus: active\narea: backend\nproject: keysight\n---\n\n# 【TASK】Test Task\n\nTask body.\n";
    let raw = RawEntityFrontmatter {
        entity_type: Some(s("project-task")),
        id: Some(s("task_test0001")),
        status: Some(s("active")),
        area: Some(s("backend")),
        project: Some(s("keysight")),
        ..Default::default()
    };
    let plan = plan_sync_file("tasks/test.md", parse_entity_with(md, Some(raw)), "ffffffff").unwrap();
    let SyncPlan::Entity(rows) = &plan else { panic!("a task is an entity") };
    assert_eq!(rows.id, "task_test0001");
    assert_eq!(rows.kind, EntityKind::Task);
    assert_eq!(rows.task_status, "active");
    assert_eq!(rows.task_area, Some(s("backend")));
    assert_eq!(rows.task_project, Some(s("keysight")));
    assert_eq!(rows.assigned, None);
    let known = sync_plan_response(&plan, true);
    assert_eq!((known.inserted, known.updated), (0, 1));
    assert!(!known.needs_id_backfill);
    assert_eq!(known.assigned_id, "");
}

#[test]
fn sync_plan_of_card_edges_and_statuses() {
    let md = "---\ntype: atomic-card\nid: card_test0001\n---\n\n# 【ATC】T\n\nB\n";
    let raw = RawEntityFrontmatter {
        entity_type: Some(s("atomic-card")),
        id: Some(s("card_test0001")),
        link_to: strings(&["card_a"]),
        related: strings(&["card_b"]),
        see_also: strings(&["card_c"]),
        ..Default::default()
    };
    let plan = plan_sync_file("whiteboard/b1/x.md", parse_entity_with(md, Some(raw)), "0").unwrap();
    let SyncPlan::Entity(rows) = plan else { panic!("a card is an entity") };
    assert_eq!(
        rows.edges,
        vec![
            (s("card_a"), EdgeType::LinkTo),
            (s("card_b"), EdgeType::Related),
            (s("card_c"), EdgeType::SeeAlso)
        ]
    );
    assert_eq!(rows.whiteboard_id, "b1");
    assert_eq!(rows.task_status, "next");
    assert_eq!(rows.question_status, "pending");
}

#[test]
fn sync_plan_of_plain_and_unknown_files() {
    let plan = plan_sync_file("notes/regular.md", None, "0").unwrap();
    assert_eq!(plan, SyncPlan::NonEntity);
    let r = sync_plan_response(&plan, false);
    assert_eq!((r.inserted, r.updated, r.deleted), (0, 0, 0));
    let raw = RawEntityFrontmatter { entity_type: Some(s("diary")), ..Default::default() };
    let parsed = parse_entity_with("---\ntype: diary\n---\n# T\n", Some(raw));
    assert!(parsed.is_none() || plan_sync_file("a.md", parsed, "0").is_err());
}

// --- legacy graph blobs ---

#[test]
fn test_read_sections_mixed_members() {
    let blob = r#"[{"id":"sec_aaa11111","title":"Section 1","color":"blue","cardIds":["card_aaa11111","alias_bbb22222","note_ccc33333"],"linkedSectionIds":["sec_ddd44444"]}]"#;
    let sections = legacy_sections_from_blob("graph_sections:rust", blob).unwrap();
    assert_eq!(sections.len(), 1);
    assert_eq!(sections[0].id, "sec_aaa11111");
    assert_eq!(sections[0].title, "Section 1");
    assert_eq!(sections[0].color, Some("blue".to_string()));
    assert_eq!(
        sections[0].card_ids,
        vec!["card_aaa11111", "alias_bbb22222", "note_ccc33333"]
    );
    assert_eq!(sections[0].linked_section_ids, vec!["sec_ddd44444"]);
}

#[test]
fn test_read_notes_with_links() {
    let blob = r#"[{"id":"note_aaa11111","title":"Note 1","content":"body","linkedCardIds":["alias_bbb22222"],"linkedNoteIds":["note_ccc33333"],"linkedSectionIds":[]}]"#;
    let notes = legacy_notes_from_blob("graph_notes:chentian", blob).unwrap();
    assert_eq!(notes.len(), 1);
    assert_eq!(notes[0].id, "note_aaa11111");
    assert_eq!(notes[0].linked_card_ids, vec!["alias_bbb22222"]);
    assert_eq!(notes[0].linked_note_ids, vec!["note_ccc33333"]);
}

#[test]
fn test_read_aliases() {
    let blob = r#"[{"aliasId":"alias_aaa11111","cardId":"card_bbb22222","linkedCardIds":["card_ccc33333"],"linkedSectionIds":[],"incomingCardIds":["card_ddd44444"]}]"#;
    let aliases = legacy_aliases_from_blob("graph_aliases:chentian", blob).unwrap();
    assert_eq!(aliases.len(), 1);
    assert_eq!(aliases[0].alias_id, "alias_aaa11111");
    assert_eq!(aliases[0].card_id, "card_bbb22222");
    assert_eq!(aliases[0].linked_card_ids, vec!["card_ccc33333"]);
    assert_eq!(aliases[0].incoming_card_ids, vec!["card_ddd44444"]);
}

#[test]
fn test_list_whiteboards() {
    let keys = strings(&["graph_sections", "graph_sections:chentian", "graph_sections:rust"]);
    let wbs = whiteboard_mappings(&keys);
    assert_eq!(wbs.len(), 3);
    assert!(wbs.iter().any(|w| w.whiteboard_id == "wb_root" && w.meta_suffix.is_none()));
    assert!(wbs
        .iter()
        .any(|w| w.whiteboard_id == "chentian" && w.meta_suffix == Some("chentian".to_string())));
    assert!(wbs.iter().any(|w| w.whiteboard_id == "rust" && w.meta_suffix == Some("rust".to_string())));
}

#[test]
fn legacy_blobs_empty_odd_and_broken() {
    assert_eq!(legacy_sections_from_blob("graph_sections", "").unwrap(), vec![]);
    let two = legacy_sections_from_blob("k", r#"[{"id":"sec_1","cardIds":["card_1"],"color":"red"}, 5]"#).unwrap();
    assert_eq!(two.len(), 2);
    assert_eq!(two[0].id, "sec_1");
    assert_eq!(two[0].title, "");
    assert_eq!(two[0].color, Some(s("red")));
    assert_eq!(two[0].card_ids, strings(&["card_1"]));
    assert_eq!(two[1].id, "");
    assert!(two[1].card_ids.is_empty());
    match legacy_notes_from_blob("graph_notes:x", "{not json") {
        Err(KeysightError::ParseError(m)) => assert!(m.starts_with("graph_notes:x: ")),
        other => panic!("expected a parse error, got {other:?}"),
    }
    assert!(legacy_aliases_from_blob("graph_aliases", "{}").is_err());
}

// --- mutations over the local endpoint ---

#[test]
fn mutation_plans_route_and_reject() {
    assert_eq!(
        plan_mutation(MutateParams::Disconnect { from: s("card_1"), to: s("card_2"), edge_type: s("related") }),
        Ok(MutationStep::Disconnect {
            from: s("card_1"),
            to: s("card_2"),
            edge_type: EdgeType::Related,
            file_sync: FileSync::Card
        })
    );
    assert_eq!(
        plan_mutation(MutateParams::Disconnect { from: s("card_1"), to: s("card_2"), edge_type: s("bogus") }),
        Err(KeysightError::ParseError(s("未知 edge_type: bogus")))
    );
    assert_eq!(
        plan_mutation(MutateParams::Connect { from: s("xyz"), to: s("card_2") }),
        Err(KeysightError::ParseError(s("from_id 解析失败: xyz")))
    );
    assert_eq!(
        plan_mutation(MutateParams::Connect { from: s("card_1"), to: s("xyz") }),
        Err(KeysightError::ParseError(s("to_id 解析失败: xyz")))
    );
    assert_eq!(
        plan_mutation(MutateParams::Connect { from: s("sec_1"), to: s("card_2") }),
        Err(KeysightError::ConnectionNotAllowed(s("section")))
    );
    assert_eq!(
        plan_mutation(MutateParams::Connect { from: s("note_1"), to: s("card_2") }),
        Ok(MutationStep::Connect {
            from: s("note_1"),
            to: s("card_2"),
            edge_type: EdgeType::NoteLink,
            file_sync: FileSync::Note
        })
    );
    assert_eq!(
        plan_mutation(MutateParams::Connect { from: s("card_1"), to: s("card_2") }),
        Ok(MutationStep::Connect {
            from: s("card_1"),
            to: s("card_2"),
            edge_type: EdgeType::LinkTo,
            file_sync: FileSync::Card
        })
    );
    assert_eq!(
        plan_mutation(MutateParams::SectionMove { section_id: s("sec_1"), target_wb: s("b2") }),
        Ok(MutationStep::MoveSection { section_id: s("sec_1"), target_wb: s("b2") })
    );
}

#[test]
fn mutation_outcomes_answer_and_announce() {
    let step = MutationStep::CreateNote { wb: s("b1"), title: s("N"), content: None, color: None };
    let (resp, em) = mutation_outcome(&step, Ok(Some(s("note_9"))));
    assert_eq!(resp, Ok(MutateResponse { success: true, entity_id: Some(s("note_9")), message: None }));
    assert_eq!(
        em,
        Some(Emission {
            event: s("entity:changed"),
            payload: vec![
                (s("kind"), PayloadValue::Text(s("note"))),
                (s("id"), PayloadValue::Text(s("note_9"))),
                (s("wb"), PayloadValue::Text(s("b1"))),
            ]
        })
    );
    let failed = mutation_outcome(&step, Err(KeysightError::NotFound(s("x"))));
    assert_eq!(failed, (Err(KeysightError::NotFound(s("x"))), None));
    let pos = MutationStep::SetPosition { wb: s("b1"), entity_id: s("card_1"), x_bits: 1.5f64.to_bits(), y_bits: 2 };
    let (_, em) = mutation_outcome(&pos, Ok(None));
    let payload = em.unwrap().payload;
    assert_eq!(payload[3], (s("x"), PayloadValue::Number(1.5f64.to_bits())));
    assert_eq!(payload[4], (s("y"), PayloadValue::Number(2)));
}

#[test]
fn card_cleanup_pass_decisions() {
    let md = "---\ntype: atomic-card\nid: card_1\n---\n\n# 【ATC】Arc\\<T\\>\n\nbody\n";
    let raw = RawEntityFrontmatter {
        entity_type: Some(s("atomic-card")),
        id: Some(s("card_1")),
        ..Default::default()
    };
    let parsed = parse_entity_with(md, Some(raw));
    assert_eq!(parsed.as_ref().unwrap().title, "Arc<T>");
    let plan = plan_card_cleanup(md, &parsed, "Arc\\<T\\>").unwrap();
    assert!(plan.update_db);
    assert_eq!(plan.rewritten, Some(s("---\ntype: atomic-card\nid: card_1\n---\n\n# 【ATC】Arc<T>\n\nbody\n")));
    // Already clean, or not a card: nothing to do.
    let clean = "---\ntype: atomic-card\nid: card_1\n---\n\n# 【ATC】Arc<T>\n";
    let raw = RawEntityFrontmatter { entity_type: Some(s("atomic-card")), ..Default::default() };
    assert_eq!(plan_card_cleanup(clean, &parse_entity_with(clean, Some(raw)), "Arc<T>"), None);
    assert_eq!(plan_card_cleanup(md, &None, "x"), None);
    let note = "---\ntype: note\n---\n\n# 【NOTE】A\\<\n";
    let raw = RawEntityFrontmatter { entity_type: Some(s("note")), ..Default::default() };
    assert_eq!(plan_card_cleanup(note, &parse_entity_with(note, Some(raw)), "zzz"), None);
}

#[test]
fn only_creating_mutations_answer_an_id() {
    let creating = [
        MutateParams::SectionCreate { wb: s("b1"), title: s("S"), color: None },
        MutateParams::NoteCreate { wb: s("b1"), title: s("N"), content: None, color: None },
        MutateParams::AliasCreate { wb: s("b1"), card_id: s("card_1") },
    ];
    for p in creating {
        let step = plan_mutation(p).unwrap();
        assert!(creates_entity(&step));
        let (resp, em) = mutation_outcome(&step, Ok(Some(s("new_1"))));
        assert_eq!(resp.unwrap().entity_id, Some(s("new_1")));
        let payload = em.unwrap().payload;
        assert_eq!(payload[1], (s("id"), PayloadValue::Text(s("new_1"))));
    }
    let others = [
        MutateParams::NoteUpdate { id: s("note_1"), title: None, content: None, color: None },
        MutateParams::SetPos { wb: s("b1"), entity_id: s("card_1"), x_bits: 0, y_bits: 0 },
        MutateParams::Connect { from: s("card_1"), to: s("card_2") },
        MutateParams::Disconnect { from: s("card_1"), to: s("card_2"), edge_type: s("link_to") },
        MutateParams::SectionAdd { section_id: s("sec_1"), entity_id: s("card_1") },
        MutateParams::SectionMove { section_id: s("sec_1"), target_wb: s("b2") },
    ];
    for p in others {
        let step = plan_mutation(p).unwrap();
        assert!(!creates_entity(&step));
        let (resp, _) = mutation_outcome(&step, Ok(None));
        assert_eq!(resp.unwrap().entity_id, None);
    }
}

#[test]
fn entity_ids_are_prefix_and_suffix() {
    assert_eq!(entity_id(EntityKind::Card, "0a1b2c3d"), "card_0a1b2c3d");
    assert_eq!(entity_id(EntityKind::Section, "x"), "sec_x");
    assert_eq!(entity_id(EntityKind::Task, ""), "task_");
}

#[test]
fn sorted_rows_give_ascending_overview() {
    let row = |id: &str, kind: &str, wb: &str, title: &str| (s(id), s(kind), s(wb), s(title), s(""));
    // Ordered by whiteboard, then title, in code-point order.
    let entities = vec![
        row("card_3", "card", "Zeta", "b"),
        row("card_1", "card", "alpha", "A"),
        row("card_2", "card", "alpha", "a"),
        row("note_1", "note", "wb_root", "n"),
    ];
    let r = graph_overview_from_rows(&entities, &vec![]);
    let ids: Vec<&str> = r.whiteboards.iter().map(|w| w.whiteboard_id.as_str()).collect();
    assert_eq!(ids, vec!["Zeta", "alpha", "wb_root"]);
    let titles: Vec<&str> = r.whiteboards[1].card_summaries.iter().map(|c| c.title.as_str()).collect();
    assert_eq!(titles, vec!["A", "a"]);
}

#[test]
fn mock_vault_holds_the_last_write_of_each_file() {
    let mut v = MockVaultFs::new().with_file("a.md", "1").with_file("b.md", "2");
    v.write_file("a.md", "3").unwrap();
    v = v.with_file("c.md", "4");
    v.write_file("b.md", "5").unwrap();
    assert_eq!(v.get_file("a.md"), Some(s("3")));
    assert_eq!(v.get_file("b.md"), Some(s("5")));
    assert_eq!(v.get_file("c.md"), Some(s("4")));
    assert_eq!(v.get_file("d.md"), None);
    assert_eq!(v.get_file("a.md"), Some(s("3")));
    assert_eq!(MockVaultFs::new().get_file("a.md"), None);
}
