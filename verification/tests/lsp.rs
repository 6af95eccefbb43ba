use impetus_ext::json::Json;
use impetus_ext::lsp_mock::{
    check_server_command, command_tool_defs, convenience_method, done_reply, handler_start_args, header_line, mock_replies,
    mock_sample_uri, process_diagnostics, reply_outcome, response_matches, server_allows, started_reply, MockLsp,
};
use impetus_ext::lsp_protocol::{
    cancel_tool_id, content_length, position_request, frame_message, is_allowed_request, json_id_u64, parse_args_list, path_to_uri,
    position_args, push_header_byte, request_message, request_tool_args, symbols_request,
};
use impetus_ext::lsp_session::{
    classify_incoming, idle_info, info_json, lsp_tool_defs, restart_config_from_args, start_config_from_args, start_reply, stop_reply, DiagnosticsStore,
    Incoming, LspSession, StartConfig,
};

fn lobj(fields: Vec<(&str, Json)>) -> Json {
    Json::Obj(fields.into_iter().map(|(k, v)| (k.to_string(), v)).collect())
}

fn lget<'a>(j: &'a Json, key: &str) -> Option<&'a Json> {
    match j {
        Json::Obj(f) => f.iter().find(|(k, _)| k == key).map(|(_, v)| v),
        _ => None,
    }
}

fn mock_config() -> StartConfig {
    StartConfig { command: String::new(), args: vec![], workspace: ".".into(), mock: true }
}

#[test]
fn allowlist_covers_convenience_tools() {
    for m in [
        "textDocument/hover",
        "textDocument/definition",
        "textDocument/references",
        "textDocument/documentSymbol",
        "workspace/symbol",
    ] {
        assert!(is_allowed_request(m), "{m}");
    }
    assert!(!is_allowed_request("workspace/executeCommand"));
    assert!(!is_allowed_request("initialize"));
}

#[test]
fn parse_args_json_and_whitespace() {
    assert_eq!(parse_args_list(Some(r#"["--stdio","--foo"]"#)), vec!["--stdio".to_string(), "--foo".to_string()]);
    assert_eq!(parse_args_list(Some("--stdio --foo")), vec!["--stdio".to_string(), "--foo".to_string()]);
}

#[test]
fn args_list_edge_cases() {
    assert!(parse_args_list(None).is_empty());
    assert!(parse_args_list(Some("   ")).is_empty());
    assert_eq!(parse_args_list(Some(r#"["a", 1, "b"]"#)), vec!["a".to_string(), "b".to_string()]);
    assert_eq!(parse_args_list(Some("[not json")), vec!["[not".to_string(), "json".to_string()]);
    assert_eq!(parse_args_list(Some("  a\t b\n")), vec!["a".to_string(), "b".to_string()]);
}

#[test]
fn roundtrip_framed_message() {
    let body: serde_json::Value = serde_json::from_str(r#"{"jsonrpc":"2.0","id":1,"result":{}}"#).unwrap();
    let payload = serde_json::to_vec(&body).unwrap();
    let framed = frame_message(&payload);
    let mut header = Vec::new();
    let mut at = 0;
    loop {
        let done = push_header_byte(&mut header, framed[at]).unwrap();
        at += 1;
        if done {
            break;
        }
    }
    let len = content_length(&header).unwrap();
    let msg: serde_json::Value = serde_json::from_slice(&framed[at..at + len]).unwrap();
    assert_eq!(msg["id"], 1);
}

#[test]
fn framing_details() {
    let framed = frame_message(b"{}");
    assert_eq!(framed, b"Content-Length: 2\r\n\r\n{}".to_vec());
    assert_eq!(content_length(b"content-length:  12\r\nX: y\r\n\r\n").unwrap(), 12);
    assert_eq!(content_length(b"X: y\r\n\r\n").unwrap_err(), "LSP message missing Content-Length");
    assert_eq!(content_length(b"Content-Length: x1\r\n\r\n").unwrap_err(), "bad Content-Length:  x1");
    let mut h = vec![b'a'; 8192];
    assert_eq!(push_header_byte(&mut h, b'b').unwrap_err(), "LSP header too large");
    assert_eq!(json_id_u64(&Json::UInt(7)), Some(7));
    assert_eq!(json_id_u64(&Json::Int(-1)), Some(u64::MAX));
    assert_eq!(json_id_u64(&Json::Str("42".into())), Some(42));
    assert_eq!(json_id_u64(&Json::Str("x".into())), None);
    assert_eq!(path_to_uri("/tmp/ws"), "file:///tmp/ws");
}

#[test]
fn mock_diagnostics() {
    let mut lsp = MockLsp::start("rust-analyzer", vec![], ".");
    let diag = lsp.diagnostics(None).unwrap();
    assert!(matches!(lget(&diag, "command"), Some(Json::Str(c)) if c == "rust-analyzer"));
    lsp.cancel().unwrap();
    assert_eq!(lsp.diagnostics(None).unwrap_err(), "cancelled");
    lsp.restart().unwrap();
    assert!(lsp.diagnostics(Some("file:///x.rs")).is_ok());
    assert!(lsp.stop().is_ok());
}

#[test]
fn mock_requests_and_conveniences() {
    let lsp = MockLsp::start("ra", vec![], "/ws");
    let r = lsp.request("textDocument/diagnostic", Json::Null).unwrap();
    assert!(matches!(lget(&r, "mock"), Some(Json::Bool(true))));
    assert_eq!(lsp.request("initialize", Json::Null).unwrap_err(), "method `initialize` not allowlisted");
    assert_eq!(lsp.request("shutdown", Json::Null).unwrap_err(), "method `shutdown` not allowlisted");
    assert_eq!(lsp.request("workspace/executeCommand", Json::Null).unwrap_err(), "method `workspace/executeCommand` not allowlisted");
    let hover = lsp.convenience("lsp_hover", Json::Null).unwrap();
    assert!(matches!(lget(&hover, "method"), Some(Json::Str(m)) if m == "textDocument/hover"));
    assert_eq!(lsp.convenience("lsp_bogus", Json::Null).unwrap_err(), "unknown convenience lsp_bogus");
    assert_eq!(convenience_method("lsp_symbols").unwrap(), "textDocument/documentSymbol");
    assert!(!server_allows("initialize"));
    assert!(!server_allows("shutdown"));
    assert!(server_allows("textDocument/rename"));
}

#[test]
fn restart_reuses_prior_config() {
    let mut s = LspSession::new(true, None, vec![], Some(".".into()));
    let cfg = s.prepare_start(mock_config(), "/cwd").unwrap();
    assert!(cfg.mock);
    s.record_start(&cfg);
    assert!(s.is_running());
    let again = s.restart_config(None).unwrap();
    assert_eq!(again.command, "mock-ls");
    assert_eq!(again.args, vec!["--mock".to_string()]);
    let stopped = s.take_live();
    assert!(stopped.is_some());
    let restarted = s.prepare_start(again, "/cwd").unwrap();
    s.record_start(&restarted);
    let reply = start_reply(&restarted, Json::Null);
    assert!(matches!(lget(&reply, "started"), Some(Json::Bool(true))));
}

#[test]
fn allowlist_rejects_dangerous_methods() {
    let mut s = LspSession::new(true, None, vec![], Some(".".into()));
    let cfg = s.prepare_start(mock_config(), "/cwd").unwrap();
    s.record_start(&cfg);
    let err = s.check_request("workspace/executeCommand").unwrap_err();
    assert!(err.contains("allowlist"));
    assert!(!is_allowed_request("initialize"));
    assert!(s.check_request("textDocument/hover").is_ok());
}

#[test]
fn mock_session_initialize_diagnostics_and_hover() {
    let sample = mock_sample_uri("file:///ws");
    let init = lobj(vec![
        ("jsonrpc", Json::Str("2.0".into())),
        ("id", Json::UInt(1)),
        ("method", Json::Str("initialize".into())),
    ]);
    let replies = mock_replies(&init, &sample);
    assert_eq!(replies.len(), 2);
    let first = classify_incoming(&replies[0]);
    match first {
        Incoming::Response { id, outcome: Ok(result) } => {
            assert_eq!(id, 1);
            let caps = lget(&result, "capabilities").unwrap();
            assert!(matches!(lget(caps, "hoverProvider"), Some(Json::Bool(true))));
        },
        other => panic!("unexpected {other:?}"),
    }
    let mut store = DiagnosticsStore::new();
    match classify_incoming(&replies[1]) {
        Incoming::Diagnostics { uri, diagnostics } => store.record(&uri, diagnostics),
        other => panic!("unexpected {other:?}"),
    }
    let all = store.reply(None);
    match lget(&all, "diagnostics") {
        Some(Json::Obj(m)) => assert!(!m.is_empty(), "expected mock publishDiagnostics"),
        other => panic!("diag map {other:?}"),
    }
    let hover = lobj(vec![("jsonrpc", Json::Str("2.0".into())), ("id", Json::UInt(2)), ("method", Json::Str("textDocument/hover".into()))]);
    match classify_incoming(&mock_replies(&hover, &sample)[0]) {
        Incoming::Response { outcome: Ok(r), .. } => assert!(lget(&r, "contents").is_some()),
        other => panic!("unexpected {other:?}"),
    }
    let unknown = lobj(vec![("jsonrpc", Json::Str("2.0".into())), ("id", Json::UInt(3)), ("method", Json::Str("x/y".into()))]);
    match classify_incoming(&mock_replies(&unknown, &sample)[0]) {
        Incoming::Response { outcome: Err(e), .. } => {
            assert!(matches!(lget(&e, "message"), Some(Json::Str(m)) if m == "mock: method not implemented: x/y"))
        },
        other => panic!("unexpected {other:?}"),
    }
    let note = lobj(vec![("jsonrpc", Json::Str("2.0".into())), ("method", Json::Str("initialized".into()))]);
    assert!(mock_replies(&note, &sample).is_empty());
    match store.reply(Some("file:///none.rs")) {
        Json::Obj(f) => assert!(matches!(&f[1].1, Json::Arr(a) if a.is_empty())),
        other => panic!("unexpected {other:?}"),
    }
}

#[test]
fn session_refusals_and_info() {
    let s = LspSession::new(false, None, vec!["--x".into()], None);
    let cfg = StartConfig { command: String::new(), args: vec![], workspace: String::new(), mock: false };
    assert_eq!(
        s.prepare_start(cfg, "/cwd").err().unwrap(),
        "lsp_start: command required (tool arg, --command, or IMPETUS_LSP_COMMAND)"
    );
    let real = StartConfig { command: "ra".into(), args: vec![], workspace: String::new(), mock: false };
    let c = s.prepare_start(real, "/cwd").unwrap();
    assert_eq!(c.args, vec!["--x".to_string()]);
    assert_eq!(c.workspace, "/cwd");
    assert_eq!(s.require_live().unwrap_err(), "LSP not started; call lsp_start first");
    assert_eq!(
        s.restart_config(None).err().unwrap(),
        "lsp_restart: no prior session and no start config provided"
    );
    let info = s.info();
    assert!(!info.running);
    assert_eq!(info.args, vec!["--x".to_string()]);
    assert!(matches!(lget(&stop_reply(false), "reason"), Some(Json::Str(r)) if r == "not running"));
    let mut t = LspSession::new(false, None, vec![], None);
    let c2 = t.prepare_start(StartConfig { command: "ra".into(), args: vec![], workspace: "/w".into(), mock: false }, "/cwd").unwrap();
    t.record_start(&c2);
    assert_eq!(
        t.prepare_start(StartConfig { command: "ra".into(), args: vec![], workspace: "/w".into(), mock: false }, "/cwd").err().unwrap(),
        "LSP session already running; call lsp_stop or lsp_restart"
    );
    assert!(t.info().running);
}

#[test]
fn tool_arguments() {
    let args = lobj(vec![
        ("command", Json::Str("ra".into())),
        ("args", Json::Str("--stdio -v".into())),
        ("mock", Json::Bool(true)),
    ]);
    let cfg = start_config_from_args(&args);
    assert_eq!(cfg.args, vec!["--stdio".to_string(), "-v".to_string()]);
    assert!(cfg.mock);
    assert!(restart_config_from_args(&lobj(vec![])).is_none());
    assert!(restart_config_from_args(&args).is_some());
    let pos = lobj(vec![("uri", Json::Str("file:///a".into())), ("line", Json::UInt(4294967297)), ("character", Json::UInt(2))]);
    assert_eq!(position_args(&pos).unwrap(), ("file:///a".to_string(), 1, 2));
    assert_eq!(position_args(&lobj(vec![("uri", Json::Str("u".into()))])).unwrap_err(), "missing line");
    assert_eq!(request_tool_args(&lobj(vec![])).err().unwrap(), "missing method");
    assert_eq!(cancel_tool_id(&lobj(vec![("id", Json::UInt(9))])).unwrap(), 9);
    let (m, _) = symbols_request(None, Some("q"));
    assert_eq!(m, "workspace/symbol");
    let (command, list, ws) = handler_start_args(&lobj(vec![]));
    assert_eq!((command.as_str(), list.len(), ws.as_str()), ("rust-analyzer", 0, "."));
    assert!(check_server_command("rust-analyzer").is_ok());
    assert_eq!(check_server_command("ra; rm").unwrap_err(), "invalid language server command");
    let req = request_message(3, "textDocument/hover", Json::Null);
    assert!(response_matches(&lobj(vec![("id", Json::UInt(3))]), 3));
    assert!(!response_matches(&lobj(vec![("id", Json::Str("3".into()))]), 3));
    assert!(lget(&req, "jsonrpc").is_some());
    assert!(reply_outcome(&lobj(vec![("error", Json::UInt(1))])).is_err());
    assert_eq!(header_line("\r\n", Some(4)).unwrap(), (true, Some(4)));
    assert_eq!(header_line("Content-Length: 17\r\n", None).unwrap(), (false, Some(17)));
    assert!(header_line("Content-Length: x\r\n", None).is_err());
}

#[test]
fn frame_header_reads_back_exactly() {
    for n in [0usize, 7, 12345] {
        let body = vec![b'x'; n];
        let framed = frame_message(&body);
        let expected_header = format!("Content-Length: {n}\r\n\r\n");
        let mut header = Vec::new();
        let mut at = 0;
        loop {
            let done = push_header_byte(&mut header, framed[at]).unwrap();
            at += 1;
            if done {
                break;
            }
        }
        assert_eq!(at, expected_header.len());
        assert_eq!(header, expected_header.as_bytes().to_vec());
        assert_eq!(content_length(&header).unwrap(), n);
        assert_eq!(&framed[at..], body.as_slice());
    }
}

#[test]
fn cancel_then_restart_restores_diagnostics() {
    let mut lsp = MockLsp::start("pyright", vec!["--stdio".into()], "/ws");
    let before = format!("{:?}", lsp.diagnostics(Some("file:///a.py")).unwrap());
    lsp.cancel().unwrap();
    assert_eq!(lsp.diagnostics(Some("file:///a.py")).unwrap_err(), "cancelled");
    lsp.restart().unwrap();
    let after = format!("{:?}", lsp.diagnostics(Some("file:///a.py")).unwrap());
    assert_eq!(before, after);
}

#[test]
fn command_line_replies() {
    let started = started_reply("rust-analyzer", "/ws");
    assert!(matches!(lget(&started, "started"), Some(Json::Bool(true))));
    assert!(matches!(lget(&started, "command"), Some(Json::Str(c)) if c == "rust-analyzer"));
    assert!(matches!(lget(&started, "workspace"), Some(Json::Str(w)) if w == "/ws"));
    let stopped = done_reply("stopped");
    assert!(matches!(lget(&stopped, "stopped"), Some(Json::Bool(true))));
    let d = process_diagnostics(Some("file:///x.rs"));
    assert!(matches!(lget(&d, "items"), Some(Json::Arr(a)) if a.is_empty()));
    assert!(matches!(lget(&d, "uri"), Some(Json::Str(u)) if u == "file:///x.rs"));
    assert!(matches!(lget(&process_diagnostics(None), "uri"), Some(Json::Null)));
    assert!(matches!(lget(&d, "note"), Some(Json::Str(n)) if n.starts_with("pull diagnostics")));
}

#[test]
fn lsp_tool_tables() {
    let names: Vec<String> = lsp_tool_defs().into_iter().map(|t| t.name).collect();
    assert_eq!(
        names,
        vec![
            "lsp_start", "lsp_stop", "lsp_restart", "lsp_diagnostics", "lsp_request", "lsp_hover", "lsp_definition",
            "lsp_references", "lsp_symbols", "lsp_cancel", "lsp_status",
        ]
    );
    let defs = lsp_tool_defs();
    assert_eq!(defs[9].description, "Cancel in-flight LSP request by id ($/cancelRequest).");
    assert!(matches!(lget(&defs[9].input_schema, "required"), Some(Json::Arr(a)) if matches!(&a[..], [Json::Str(s)] if s == "id")));
    let hover = lget(&defs[5].input_schema, "properties").unwrap();
    assert!(matches!(lget(lget(hover, "line").unwrap(), "minimum"), Some(Json::UInt(0))));
    let cmd = command_tool_defs();
    assert_eq!(cmd.len(), 11);
    assert_eq!(cmd[10].name, "lsp_status");
    assert!(cmd.iter().all(|t| t.name == t.description));
    assert!(matches!(lget(&cmd[0].input_schema, "type"), Some(Json::Str(s)) if s == "object"));
}

#[test]
fn command_line_status_and_allowlist() {
    let lsp = MockLsp::start("rust-analyzer", vec!["--log".into()], "/ws");
    assert!(lsp.request("initialize", Json::Null).is_err());
    let status = info_json(&lsp.info());
    assert!(matches!(lget(&status, "running"), Some(Json::Bool(true))));
    assert!(matches!(lget(&status, "mock"), Some(Json::Bool(true))));
    assert!(matches!(lget(&status, "command"), Some(Json::Str(c)) if c == "rust-analyzer"));
    assert!(matches!(lget(&status, "args"), Some(Json::Arr(a)) if matches!(&a[..], [Json::Str(x)] if x == "--log")));
    assert!(matches!(lget(&status, "workspace"), Some(Json::Str(w)) if w == "/ws"));
    let idle = info_json(&idle_info(false));
    assert!(matches!(lget(&idle, "running"), Some(Json::Bool(false))));
    assert!(matches!(lget(&idle, "command"), Some(Json::Null)));
    assert!(matches!(lget(&idle, "args"), Some(Json::Arr(a)) if a.is_empty()));
}

#[test]
fn position_tools_map_to_methods() {
    let (m, p) = position_request("lsp_hover", "file:///a.rs", 3, 4).unwrap();
    assert_eq!(m, "textDocument/hover");
    assert!(lget(&p, "position").is_some());
    assert!(lget(&p, "context").is_none());
    let (m, p) = position_request("lsp_references", "file:///a.rs", 3, 4).unwrap();
    assert_eq!(m, "textDocument/references");
    assert!(lget(&p, "context").is_some());
    assert_eq!(position_request("lsp_definition", "u", 0, 0).unwrap().0, "textDocument/definition");
    assert!(position_request("lsp_symbols", "u", 0, 0).is_none());
}
