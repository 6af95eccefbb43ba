use impetus_ext::git_tools::{
    git_tool_defs,
    arg_string, arg_u64, diff_extra, forbidden_arg, git_argv, git_binary_from, git_output, git_path_candidate,
    log_extra, missing_path_parts, reject_forbidden, resolve_under_root, show_extra, show_object, status_extra,
    validate_objectish, validate_subcommand,
};
use impetus_ext::json::Json;

fn gobj(fields: Vec<(&str, Json)>) -> Json {
    Json::Obj(fields.into_iter().map(|(k, v)| (k.to_string(), v)).collect())
}

#[test]
fn allowlist_rejects_write_subcommands() {
    assert!(validate_subcommand("status").is_ok());
    assert!(validate_subcommand("commit").is_err());
    assert!(validate_subcommand("push").is_err());
}

#[test]
fn forbidden_force_flag() {
    assert!(reject_forbidden(&["--force".into()]).is_err());
    assert!(reject_forbidden(&["-n".into()]).is_ok());
}

#[test]
fn objectish_validation() {
    assert!(validate_objectish("HEAD").is_ok());
    assert!(validate_objectish("abc123").is_ok());
    assert!(validate_objectish("--all").is_err());
    assert!(validate_objectish("foo;rm -rf /").is_err());
}

#[test]
fn forbidden_tokens_in_detail() {
    assert!(forbidden_arg("--FORCE"));
    assert!(forbidden_arg("--hard=HEAD"));
    assert!(forbidden_arg("Commit"));
    assert!(!forbidden_arg("--stat"));
    assert!(!forbidden_arg("commits"));
    assert_eq!(
        reject_forbidden(&["-n5".into(), "push".into(), "-f".into()]).unwrap_err(),
        "forbidden git argument: push"
    );
    assert_eq!(validate_subcommand("rebase").unwrap_err(), "git subcommand `rebase` is not allowlisted");
    assert_eq!(validate_objectish("").unwrap_err(), "invalid object");
    assert_eq!(validate_objectish(&"a".repeat(257)).unwrap_err(), "invalid object");
    assert_eq!(validate_objectish("-x").unwrap_err(), "object must not look like a flag");
    assert_eq!(validate_objectish("a b").unwrap_err(), "object contains unsupported characters");
    assert!(validate_objectish("HEAD~2^{tree}@origin/main").is_ok());
}

#[test]
fn git_arguments() {
    let args = gobj(vec![("path", Json::Str("".into())), ("limit", Json::UInt(900)), ("staged", Json::Bool(true))]);
    assert_eq!(arg_string(&args, "path"), None);
    assert_eq!(arg_u64(&args, "limit", 20), 500);
    assert_eq!(arg_u64(&gobj(vec![]), "limit", 20), 20);
    assert_eq!(status_extra(None), vec!["--porcelain=v1", "-b"]);
    assert_eq!(status_extra(Some("/ws/a".into())), vec!["--porcelain=v1", "-b", "--", "/ws/a"]);
    assert_eq!(diff_extra(&args, None), vec!["--cached"]);
    assert_eq!(
        log_extra(&gobj(vec![("limit", Json::UInt(5))]), None),
        vec!["-n5", "--pretty=format:%H%x09%an%x09%ad%x09%s", "--date=iso-strict"]
    );
    assert_eq!(show_object(&gobj(vec![])).unwrap_err(), "object is required");
    assert_eq!(show_object(&gobj(vec![("object", Json::Str("HEAD".into()))])).unwrap(), "HEAD");
    assert_eq!(show_extra("HEAD".into(), None), vec!["--stat", "HEAD"]);
    let argv = git_argv("/ws", "log", &vec!["-n5".to_string()]).unwrap();
    assert_eq!(argv, vec!["-C", "/ws", "log", "-n5"]);
    assert!(git_argv("/ws", "push", &vec![]).is_err());
    assert_eq!(git_argv("/ws", "log", &vec!["--force".to_string()]).unwrap_err(), "forbidden git argument: --force");
}

#[test]
fn git_paths_and_outputs() {
    assert_eq!(git_path_candidate("/ws", " ").unwrap_err(), "path must be non-empty");
    assert_eq!(git_path_candidate("/ws", "a\0").unwrap_err(), "path contains NUL");
    assert_eq!(git_path_candidate("/ws", "a.txt").unwrap(), "/ws/a.txt");
    assert_eq!(missing_path_parts("/ws/new.txt").unwrap(), ("/ws".to_string(), "new.txt".to_string()));
    assert_eq!(missing_path_parts("/").unwrap_err(), "path has no parent");
    assert_eq!(resolve_under_root("/ws", "/outside.txt").unwrap_err(), "path escapes workspace root");
    assert_eq!(git_binary_from(Some("  /usr/bin/git ")), "/usr/bin/git");
    assert_eq!(git_binary_from(Some("   ")), "git");
    assert_eq!(git_binary_from(None), "git");
    assert_eq!(git_output("log", true, "exit status: 0", b"abc", b"").unwrap(), "abc");
    assert_eq!(git_output("log", true, "exit status: 0", b"", b"warn").unwrap(), "warn");
    assert_eq!(
        git_output("log", false, "exit status: 128", b"", b"  fatal: bad\n").unwrap_err(),
        "git log failed (exit status: 128): fatal: bad"
    );
    assert_eq!(git_output("show", true, "", &[0xff, b'a'], b"").unwrap(), "\u{fffd}a");
}

#[test]
fn git_tool_table() {
    let t = git_tool_defs();
    let names: Vec<&str> = t.iter().map(|d| d.name.as_str()).collect();
    assert_eq!(names, vec!["git_status", "git_diff", "git_log", "git_show"]);
    assert_eq!(t[2].description, "Read-only git log (bounded).");
    let text = format!("{:?}", t[2].input_schema);
    assert!(text.contains("UInt(500)") && text.contains("UInt(20)"));
    assert!(format!("{:?}", t[3].input_schema).contains("\"required\""));
}
