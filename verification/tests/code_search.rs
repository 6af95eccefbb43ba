use impetus_ext::code_search::{
    search_tool_defs,
    file_size_searchable, filter_rg_output, path_candidate, resolve_under_root, rg_args, rg_candidates, rg_outcome,
    search_params, search_result_text, walk_file_matches, SearchRegex,
};
use impetus_ext::json::Json;
use impetus_ext::workspace::workspace_root_candidate;

fn cobj(fields: Vec<(&str, Json)>) -> Json {
    Json::Obj(fields.into_iter().map(|(k, v)| (k.to_string(), v)).collect())
}

#[test]
fn walk_fallback_matches() {
    let re = SearchRegex::new("world", false).unwrap();
    let (out, n) = walk_file_matches(&re, "src/main.rs", "fn hello() {}\nfn world() {}\n", 10);
    assert!(out.contains("world"));
    assert_eq!(out, "src/main.rs:2:fn world() {}\n");
    assert_eq!(n, 1);
}

#[test]
fn walk_respects_budget_and_case() {
    let re = SearchRegex::new("HELLO", true).unwrap();
    let (out, n) = walk_file_matches(&re, "a.txt", "hello\nHello\nbye\nhello\n", 2);
    assert_eq!(out, "a.txt:1:hello\na.txt:2:Hello\n");
    assert_eq!(n, 2);
    let strict = SearchRegex::new("HELLO", false).unwrap();
    assert_eq!(walk_file_matches(&strict, "a.txt", "hello\n", 5).1, 0);
    let bad = SearchRegex::new("(", false).err().unwrap();
    assert!(bad.starts_with("invalid regex: "));
    assert!(file_size_searchable(2 * 1024 * 1024));
    assert!(!file_size_searchable(2 * 1024 * 1024 + 1));
}

#[test]
fn paths_stay_under_the_root() {
    assert_eq!(path_candidate("/ws", "").unwrap(), "/ws");
    assert_eq!(path_candidate("/ws", ".").unwrap(), "/ws");
    assert_eq!(path_candidate("/ws", "src").unwrap(), "/ws/src");
    assert_eq!(path_candidate("/ws", "/etc").unwrap(), "/etc");
    assert_eq!(path_candidate("/ws", "a\0b").unwrap_err(), "path contains NUL");
    assert_eq!(resolve_under_root("/ws", "/ws/src").unwrap(), "/ws/src");
    assert_eq!(resolve_under_root("/ws", "/wsx").unwrap_err(), "path escapes workspace root");
    assert_eq!(resolve_under_root("/ws", "/").unwrap_err(), "path escapes workspace root");
    assert_eq!(workspace_root_candidate(None).unwrap_err(), "IMPETUS_WORKSPACE_ROOT is required");
    assert_eq!(workspace_root_candidate(Some("  ")).unwrap_err(), "IMPETUS_WORKSPACE_ROOT must be non-empty");
    assert_eq!(workspace_root_candidate(Some("rel")).unwrap_err(), "IMPETUS_WORKSPACE_ROOT must be an absolute path");
    assert_eq!(workspace_root_candidate(Some(" /ws ")).unwrap(), "/ws");
}

#[test]
fn search_arguments() {
    let args = cobj(vec![("pattern", Json::Str("hello".into())), ("max_results", Json::UInt(5000))]);
    let p = search_params(&args).unwrap();
    assert_eq!(p.pattern, "hello");
    assert_eq!(p.path, ".");
    assert!(!p.case_insensitive);
    assert_eq!(p.max_matches, 2000);
    let zero = cobj(vec![("pattern", Json::Str("x".into())), ("max_matches", Json::UInt(0)), ("case_insensitive", Json::Bool(true))]);
    let p = search_params(&zero).unwrap();
    assert_eq!(p.max_matches, 1);
    assert!(p.case_insensitive);
    let default = cobj(vec![("pattern", Json::Str("x".into()))]);
    assert_eq!(search_params(&default).unwrap().max_matches, 200);
    assert_eq!(search_params(&cobj(vec![])).err().unwrap(), "pattern is required");
    assert_eq!(search_params(&cobj(vec![("pattern", Json::Str("".into()))])).err().unwrap(), "pattern must be non-empty");
    assert_eq!(search_params(&cobj(vec![("pattern", Json::Str("a".repeat(513)))])).err().unwrap(), "pattern too long");
    assert_eq!(search_result_text(String::new()), "(no matches)");
    assert_eq!(search_result_text("x".into()), "x");
}

#[test]
fn ripgrep_plumbing() {
    let args = rg_args("fn", "/ws/src", true, 50);
    assert_eq!(
        args,
        vec!["--line-number", "--no-heading", "--color", "never", "--max-count", "50", "-i", "--", "fn", "/ws/src"]
    );
    assert!(rg_outcome(false, Some(1), "exit status: 1", "").is_ok());
    assert_eq!(rg_outcome(false, Some(2), "exit status: 2", "oops").unwrap_err(), "rg failed (exit status: 2): oops");
    let c = rg_candidates("/ws", "src/a.rs:3:fn a()\nno colon\n/abs/b.rs:1:x\n");
    assert_eq!(c, vec![("/ws/src/a.rs".to_string(), "3:fn a()".to_string()), ("/abs/b.rs".to_string(), "1:x".to_string())]);
    let kept = filter_rg_output(
        "/ws",
        &vec![
            (Some("/ws/src/a.rs".to_string()), "3:fn a()".to_string()),
            (Some("/abs/b.rs".to_string()), "1:x".to_string()),
            (None, "2:y".to_string()),
        ],
    );
    assert_eq!(kept, "src/a.rs:3:fn a()\n");
}

#[test]
fn search_tool_table() {
    let t = search_tool_defs();
    assert_eq!(t.len(), 1);
    assert_eq!(t[0].name, "search_text");
    let text = format!("{:?}", t[0].input_schema);
    assert!(text.contains("UInt(2000)") && text.contains("UInt(200)") && text.contains("\"pattern\""));
}
