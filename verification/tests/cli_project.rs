use nanograph::cli::changes::{resolve_changes_window, ChangesWindow};
use nanograph::cli::diagnostic::{default_log_filter, normalize_span};
use nanograph::cli::dotenv::{
    is_valid_env_key, load_dotenv_source, load_found_dotenv, load_project_dotenv,
    parse_dotenv_entries, parse_dotenv_value, DotenvFile, Environment,
};
use nanograph::cli::output::{query_execution_preamble, QueryDecl};
use nanograph::cli::scaffold::{
    gitignore_after, infer_init_project_dir, render_project_relative_path, resolve_against_dir,
    scaffold, scaffold_project_files, toml_basic_string,
};
use nanograph::error::SourceSpan;

#[test]
fn dotenv_loader_sets_missing_and_skips_existing_keys() {
    let mut env = Environment::new();
    env.preset("OPENAI_API_KEY", "preset");
    let stats = load_dotenv_source(
        ".env",
        "OPENAI_API_KEY=from_file\nNANOGRAPH_EMBEDDINGS_MOCK=1\n",
        &mut env,
    )
    .unwrap();

    assert_eq!(stats.loaded, 1);
    assert_eq!(stats.skipped_existing, 1);
    assert_eq!(
        env.get("OPENAI_API_KEY").map(String::as_str),
        Some("preset")
    );
    assert_eq!(
        env.get("NANOGRAPH_EMBEDDINGS_MOCK").map(String::as_str),
        Some("1")
    );
}

#[test]
fn dotenv_loader_is_noop_when_file_missing() {
    let mut env = Environment::new();
    let stats = load_found_dotenv(".env", &DotenvFile::Missing, &mut env).unwrap();
    assert!(stats.is_none());
    assert!(env.made().is_empty());
}

#[test]
fn project_dotenv_loader_prefers_env_nano_before_env() {
    let mut env = Environment::new();
    let (nano, plain) = load_project_dotenv(
        ".env.nano",
        &DotenvFile::Source("OPENAI_API_KEY=from_nano\n".to_string()),
        ".env",
        &DotenvFile::Source("OPENAI_API_KEY=from_env\n".to_string()),
        &mut env,
    );

    assert_eq!(nano.unwrap().unwrap().loaded, 1);
    assert_eq!(plain.unwrap().unwrap().skipped_existing, 1);
    assert_eq!(
        env.get("OPENAI_API_KEY").map(String::as_str),
        Some("from_nano")
    );
}

#[test]
fn unreadable_env_files_are_reported() {
    let mut env = Environment::new();
    let err = load_found_dotenv(
        ".env",
        &DotenvFile::Unreadable("failed to read .env: denied".to_string()),
        &mut env,
    )
    .unwrap_err();
    assert_eq!(err, "failed to read .env: denied");
    assert!(env.made().is_empty());
}

#[test]
fn the_first_entry_of_a_file_counts() {
    let mut env = Environment::new();
    let stats = load_dotenv_source(".env", "A=1\nA=2\n", &mut env).unwrap();
    assert_eq!(stats.loaded, 1);
    assert_eq!(stats.skipped_existing, 1);
    assert_eq!(env.made(), &vec![("A".to_string(), "1".to_string())]);
}

#[test]
fn dotenv_lines_are_read() {
    let source = "# comment\n\n export A = 1 # note\nB=\"x\\ty\\\"z\"\r\nC='a # b'\nD=a#b\n";
    assert_eq!(
        parse_dotenv_entries(".env", source).unwrap(),
        vec![
            ("A".to_string(), "1".to_string()),
            ("B".to_string(), "x\ty\"z".to_string()),
            ("C".to_string(), "a # b".to_string()),
            ("D".to_string(), "a#b".to_string()),
        ]
    );
}

#[test]
fn dotenv_faults_name_their_line() {
    assert_eq!(
        parse_dotenv_entries("/p/.env", "A=1\nnope\n").unwrap_err(),
        "invalid .env line 2 in /p/.env: expected KEY=VALUE"
    );
    assert_eq!(
        parse_dotenv_entries("/p/.env", "1A=1\n").unwrap_err(),
        "invalid .env key '1A' on line 1 in /p/.env"
    );
    assert_eq!(
        parse_dotenv_entries("/p/.env", "\nA=\"x\\\"\n").unwrap_err(),
        "invalid .env value for 'A' on line 2 in /p/.env: unterminated escape sequence"
    );
}

#[test]
fn dotenv_values_and_keys() {
    assert_eq!(parse_dotenv_value("\"a\\nb\\\\\""), Ok("a\nb\\".to_string()));
    assert_eq!(parse_dotenv_value("'a\\n'"), Ok("a\\n".to_string()));
    assert_eq!(parse_dotenv_value("a b # c"), Ok("a b".to_string()));
    assert_eq!(parse_dotenv_value("\""), Ok("\"".to_string()));
    assert_eq!(
        parse_dotenv_value("\"a\\\""),
        Err("unterminated escape sequence")
    );
    assert!(is_valid_env_key("_A1"));
    assert!(!is_valid_env_key(""));
    assert!(!is_valid_env_key("A-B"));
}

#[test]
fn scaffold_project_files_creates_shared_config_and_env_template() {
    let generated =
        scaffold_project_files("/p", "/p/demo.nano", "/p/schema.pg", false, false);
    assert_eq!(generated.len(), 2);

    assert_eq!(generated[0].path, "/p/nanograph.toml");
    let config = &generated[0].contents;
    assert!(config.contains("[db]"));
    assert!(config.contains("default_path = \"demo.nano\""));
    assert!(config.contains("[schema]"));
    assert!(config.contains("default_path = \"schema.pg\""));
    assert!(config.contains("[embedding]"));
    assert!(config.contains("provider = \"openai\""));
    assert!(config.contains("roots = [\"queries\"]"));

    assert_eq!(generated[1].path, "/p/.env.nano");
    let dotenv = &generated[1].contents;
    assert!(dotenv.contains("OPENAI_API_KEY=sk-..."));
    assert!(dotenv.contains("Do not commit this file."));

    let generated_again =
        scaffold_project_files("/p", "/p/demo.nano", "/p/schema.pg", true, true);
    assert!(generated_again.is_empty());
}

#[test]
fn infer_init_project_dir_prefers_shared_parent_of_db_and_schema() {
    let project_dir = infer_init_project_dir("/workspace", "/tmp/demo/db", "/tmp/demo/schema.pg");
    assert_eq!(project_dir, "/tmp/demo");
}

#[test]
fn project_dir_falls_back_to_the_current_directory() {
    assert_eq!(infer_init_project_dir("/work", "/a/db", "/b/schema.pg"), "/work");
    assert_eq!(infer_init_project_dir("/work", "db", "schema.pg"), "/work");
    assert_eq!(resolve_against_dir("/work", "x/y"), "/work/x/y");
    assert_eq!(resolve_against_dir("/work", "/x"), "/x");
}

#[test]
fn project_paths_are_shown_relative_and_quoted() {
    assert_eq!(render_project_relative_path("/p", "/p/a/b.nano"), "a/b.nano");
    assert_eq!(render_project_relative_path("/p", "/q/b.nano"), "/q/b.nano");
    assert_eq!(toml_basic_string("a\\b\"c"), "\"a\\\\b\\\"c\"");
    assert_ne!(toml_basic_string("a\\"), toml_basic_string("a\\\\"));
}

#[test]
fn query_execution_preamble_renders_description_and_instruction() {
    let query = QueryDecl {
        name: "semantic_search".to_string(),
        description: Some("Find semantically similar documents.".to_string()),
        instruction: Some(
            "Use for conceptual search. Prefer keyword_search for exact terms.".to_string(),
        ),
    };

    assert_eq!(
        query_execution_preamble(&query, "table", false).as_deref(),
        Some(
            "Query: semantic_search\nDescription: Find semantically similar documents.\nInstruction: Use for conceptual search. Prefer keyword_search for exact terms.\n\n"
        )
    );
}

#[test]
fn query_execution_preamble_skips_machine_formats() {
    let query = QueryDecl {
        name: "semantic_search".to_string(),
        description: Some("Find semantically similar documents.".to_string()),
        instruction: None,
    };

    assert!(query_execution_preamble(&query, "json", false).is_none());
    assert!(query_execution_preamble(&query, "table", true).is_none());
}

#[test]
fn preamble_says_nothing_where_nothing_is_said() {
    let query = QueryDecl {
        name: "q".to_string(),
        description: None,
        instruction: None,
    };
    assert!(query_execution_preamble(&query, "table", false).is_none());
}

#[test]
fn default_log_filter_matches_build_mode() {
    assert_eq!(default_log_filter(), "error");
}

#[test]
fn resolve_changes_window_supports_since_and_range_modes() {
    let since = resolve_changes_window(Some(5), None, None).unwrap();
    assert_eq!(
        since,
        ChangesWindow {
            from_db_version_exclusive: 5,
            to_db_version_inclusive: None
        }
    );

    let range = resolve_changes_window(None, Some(2), Some(4)).unwrap();
    assert_eq!(
        range,
        ChangesWindow {
            from_db_version_exclusive: 1,
            to_db_version_inclusive: Some(4)
        }
    );
}

#[test]
fn resolve_changes_window_rejects_invalid_ranges() {
    assert!(resolve_changes_window(Some(1), Some(1), Some(2)).is_err());
    assert!(resolve_changes_window(None, Some(4), Some(3)).is_err());
    assert!(resolve_changes_window(None, Some(2), None).is_err());
    assert!(resolve_changes_window(None, None, Some(2)).is_err());
}

#[test]
fn changes_window_messages_and_defaults() {
    assert_eq!(
        resolve_changes_window(Some(1), None, Some(2)).unwrap_err().to_string(),
        "use either --since or --from/--to, not both"
    );
    assert_eq!(
        resolve_changes_window(None, Some(4), Some(3)).unwrap_err().to_string(),
        "--from must be <= --to"
    );
    assert_eq!(
        resolve_changes_window(None, Some(4), None).unwrap_err().to_string(),
        "--from and --to must be provided together"
    );
    let all = resolve_changes_window(None, None, None).unwrap();
    assert_eq!(all.from_db_version_exclusive, 0);
    assert_eq!(all.to_db_version_inclusive, None);
    let zero = resolve_changes_window(None, Some(0), Some(3)).unwrap();
    assert_eq!(zero.from_db_version_exclusive, 0);
}

#[test]
fn spans_are_kept_in_the_source() {
    assert_eq!(normalize_span(None, ""), SourceSpan { start: 0, end: 0 });
    assert_eq!(normalize_span(None, "abc"), SourceSpan { start: 0, end: 1 });
    let inside = Some(SourceSpan { start: 1, end: 2 });
    assert_eq!(normalize_span(inside, "abc"), SourceSpan { start: 1, end: 2 });
    let empty = Some(SourceSpan { start: 1, end: 1 });
    assert_eq!(normalize_span(empty, "abc"), SourceSpan { start: 1, end: 2 });
    let beyond = Some(SourceSpan { start: 9, end: 12 });
    assert_eq!(normalize_span(beyond, "abc"), SourceSpan { start: 2, end: 3 });
    let wide = Some(SourceSpan { start: 0, end: 9 });
    assert_eq!(normalize_span(wide, "\u{e9}\u{e9}"), SourceSpan { start: 0, end: 4 });
}

#[test]
fn the_secrets_file_is_ignored_by_git() {
    assert_eq!(gitignore_after(None).as_deref(), Some(".env.nano\n"));
    assert_eq!(gitignore_after(Some(&String::new())).as_deref(), Some(".env.nano\n"));
    let ended = "target\n".to_string();
    assert_eq!(gitignore_after(Some(&ended)).as_deref(), Some("target\n.env.nano\n"));
    let open = "target\nnode_modules".to_string();
    assert_eq!(
        gitignore_after(Some(&open)).as_deref(),
        Some("target\nnode_modules\n.env.nano\n")
    );
    for listed in vec![".env.nano", "a\n.env.nano\n", ".env.nano\r\nb\r\n"] {
        assert!(gitignore_after(Some(&listed.to_string())).is_none());
    }
    assert!(gitignore_after(Some(&"x.env.nano\n".to_string())).is_some());
}

#[test]
fn a_scaffold_that_makes_the_secrets_file_has_it_ignored() {
    let fresh = scaffold("/p", "/p/demo.nano", "/p/schema.pg", false, false, None);
    assert_eq!(fresh.generated.len(), 2);
    let gitignore = fresh.gitignore.unwrap();
    assert_eq!(gitignore.path, "/p/.gitignore");
    assert!(gitignore.contents.lines().any(|line| line == ".env.nano"));
    let again = scaffold("/p", "/p/demo.nano", "/p/schema.pg", true, true, None);
    assert!(again.generated.is_empty());
    assert!(again.gitignore.is_none());
    let listed = ".env.nano\n".to_string();
    assert!(scaffold("/p", "/p/d", "/p/s", false, false, Some(&listed)).gitignore.is_none());
}
