use impetus_ext::json::Json;
use impetus_ext::mcp::{classify_message, response, tool_call_reply, DispatchStep, McpServer, RpcMessage, ServerInfo, ToolDef, ToolResult};

fn mobj(fields: Vec<(&str, Json)>) -> Json {
    Json::Obj(fields.into_iter().map(|(k, v)| (k.to_string(), v)).collect())
}

fn echo_server() -> McpServer {
    McpServer::new(
        ServerInfo { name: "t".into(), version: "0.1.0".into() },
        vec![ToolDef {
            name: "echo".into(),
            description: "echo".into(),
            input_schema: mobj(vec![("type", Json::Str("object".into()))]),
        }],
    )
}

#[test]
fn tools_list_and_call() {
    let server = echo_server();
    match server.dispatch("tools/list", None) {
        DispatchStep::Reply(Json::Obj(f)) => match &f[0].1 {
            Json::Arr(tools) => assert!(tools.len() == 1),
            other => panic!("unexpected {other:?}"),
        },
        _ => panic!("tools/list must reply"),
    }
    let params = mobj(vec![("name", Json::Str("echo".into())), ("arguments", mobj(vec![("x", Json::UInt(1))]))]);
    let result = match server.dispatch("tools/call", Some(&params)) {
        DispatchStep::CallTool { name, arguments } => {
            assert_eq!(name, "echo");
            ToolResult::ok(format!("{}:{:?}", name, arguments))
        },
        _ => panic!("tools/call must reach the handler"),
    };
    match tool_call_reply(&result) {
        Json::Obj(f) => {
            assert_eq!(f[1].0, "isError");
            assert!(matches!(f[1].1, Json::Bool(false)));
        },
        other => panic!("unexpected {other:?}"),
    }
}

#[test]
fn dispatch_refusals() {
    let server = echo_server();
    assert!(matches!(server.dispatch("ping", None), DispatchStep::Reply(Json::Obj(ref f)) if f.is_empty()));
    match server.dispatch("nope", None) {
        DispatchStep::Fail(m) => assert_eq!(m, "method not found: nope"),
        _ => panic!("unknown methods fail"),
    }
    match server.dispatch("tools/call", None) {
        DispatchStep::Fail(m) => assert_eq!(m, "tools/call missing params"),
        _ => panic!("params are required"),
    }
    let unknown = mobj(vec![("name", Json::Str("other".into()))]);
    match server.dispatch("tools/call", Some(&unknown)) {
        DispatchStep::Fail(m) => assert_eq!(m, "unknown tool `other`"),
        _ => panic!("unknown tools fail"),
    }
    match server.dispatch("initialize", None) {
        DispatchStep::Reply(Json::Obj(f)) => {
            assert_eq!(f[0].0, "protocolVersion");
            assert!(matches!(&f[0].1, Json::Str(v) if v == "2024-11-05"));
        },
        _ => panic!("initialize replies"),
    }
}

#[test]
fn tool_results_and_responses() {
    let ok = ToolResult::ok("done".to_string());
    assert!(!ok.is_error);
    let err = ToolResult::err("bad".to_string());
    assert!(err.is_error);
    assert_eq!(err.text, "bad");
    match response(Json::UInt(7), Err("boom".into())) {
        Json::Obj(f) => {
            assert_eq!(f[2].0, "error");
            match &f[2].1 {
                Json::Obj(e) => assert!(matches!(e[0].1, Json::Int(-32000))),
                other => panic!("unexpected {other:?}"),
            }
        },
        other => panic!("unexpected {other:?}"),
    }
}

#[test]
fn messages_are_classified() {
    let req = mobj(vec![
        ("jsonrpc", Json::Str("2.0".into())),
        ("id", Json::UInt(1)),
        ("method", Json::Str("ping".into())),
    ]);
    assert!(matches!(classify_message(&req), Some(RpcMessage::Request { ref method, params: None, .. }) if method == "ping"));
    let note = mobj(vec![
        ("jsonrpc", Json::Str("2.0".into())),
        ("method", Json::Str("notifications/initialized".into())),
    ]);
    assert!(matches!(classify_message(&note), Some(RpcMessage::Notification { .. })));
    assert!(classify_message(&Json::UInt(3)).is_none());
}
