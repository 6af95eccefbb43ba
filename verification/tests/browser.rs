use impetus_ext::browser_backend::{BackendError, CdpBackend, MockBackend};
use impetus_ext::browser_protocol::{
    default_protocol_version, protocol_compatible, BrowserActionRequest, BrowserCapability,
    BrowserFetchRenderedRequest, BrowserNavigateRequest, BrowserNegotiateRequest, BrowserServiceStatus,
    BrowserSessionEnsureRequest, BROWSER_PROVIDER_PROTOCOL_VERSION,
};
use impetus_ext::browser_tools::{closed_reply, required_str, tool_defs, unknown_tool, Backend};
use impetus_ext::json::Json;

fn berr(e: BackendError) -> String {
    match e {
        BackendError::Msg(m) => m,
    }
}

fn action(session_id: &str, selector: Option<&str>, text: Option<&str>, timeout_ms: Option<u64>) -> BrowserActionRequest {
    BrowserActionRequest {
        session_id: session_id.to_string(),
        page_id: None,
        selector: selector.map(str::to_string),
        text: text.map(str::to_string),
        timeout_ms,
    }
}

#[test]
fn protocol_major_match() {
    assert!(protocol_compatible("0.1", "0.1.2"));
    assert!(!protocol_compatible("1.0", "0.1"));
}

#[test]
fn mock_lifecycle_negotiate_navigate_fetch_cancel() {
    let mut backend = Backend::mock();

    let status = backend.status();
    assert!(matches!(status, BrowserServiceStatus::Available { .. }));

    let negotiated = backend
        .negotiate(BrowserNegotiateRequest {
            protocol_version: BROWSER_PROVIDER_PROTOCOL_VERSION.into(),
            required_capabilities: vec![BrowserCapability::Navigate],
            optional_capabilities: vec![BrowserCapability::Click],
        })
        .unwrap();
    assert!(negotiated.compatible);
    assert!(negotiated.granted_capabilities.contains(&BrowserCapability::Navigate));

    let session = backend
        .ensure_session(BrowserSessionEnsureRequest { client_session_id: "t1".into(), browser_preference: None })
        .unwrap();
    assert!(session.session_id.contains("t1"));

    let nav = backend
        .navigate(BrowserNavigateRequest {
            session_id: session.session_id.clone(),
            url: "https://example.test/page".into(),
            page_id: None,
            new_page: false,
        })
        .unwrap();
    assert_eq!(nav.url, "https://example.test/page");

    let state = backend.page_state(&session.session_id, Some(&nav.page_id)).unwrap();
    assert!(state.ready);
    assert_eq!(state.url, "https://example.test/page");

    let fetched = backend
        .fetch_rendered(BrowserFetchRenderedRequest {
            session_id: session.session_id.clone(),
            page_id: Some(nav.page_id.clone()),
            url: None,
        })
        .unwrap();
    assert!(fetched.text.contains("Mock rendered"));
    assert!(fetched.text.contains("example.test"));

    let click = backend.click(action(&session.session_id, Some("#btn"), None, None)).unwrap();
    assert!(click.ok);
    let typed = backend.type_text(action(&session.session_id, Some("input"), Some("hi"), None)).unwrap();
    assert!(typed.ok);
    let waited = backend.wait(action(&session.session_id, None, None, Some(10))).unwrap();
    assert!(waited.ok);

    let cancelled = backend.cancel(Some(&session.session_id));
    assert!(cancelled.ok);

    let closed = backend.close_session(&session.session_id);
    assert!(closed.is_err());
}

#[test]
fn mcp_tools_list_and_status_call() {
    assert!(tool_defs().iter().any(|t| t.name == "browser_status"));
    assert!(tool_defs().iter().any(|t| t.name == "browser_negotiate"));
    assert_eq!(tool_defs().len(), 11);
    let backend = Backend::mock();
    match backend.status() {
        BrowserServiceStatus::Available { provider_id, .. } => assert_eq!(provider_id, "mock"),
        other => panic!("unexpected status {other:?}"),
    }
    let nego = backend
        .negotiate(BrowserNegotiateRequest {
            protocol_version: default_protocol_version(),
            required_capabilities: vec![],
            optional_capabilities: vec![],
        })
        .unwrap();
    assert!(nego.compatible);
    assert_eq!(nego.granted_capabilities.len(), 6);
}

#[test]
fn reject_incompatible_protocol_major() {
    let backend = Backend::mock();
    let err = backend
        .negotiate(BrowserNegotiateRequest {
            protocol_version: "1.0".into(),
            required_capabilities: vec![],
            optional_capabilities: vec![],
        })
        .unwrap_err();
    assert!(berr(err).contains("incompatible"));
}

#[test]
fn mock_session_details() {
    let mut m = MockBackend::new();
    let h = m.ensure_session(BrowserSessionEnsureRequest { client_session_id: "c1".into(), browser_preference: None }).unwrap();
    assert_eq!(h.session_id, "mock-sess-c1");
    assert_eq!(h.default_page_id.as_deref(), Some("page_0"));
    let blank = m.page_state("mock-sess-c1", None).unwrap();
    assert_eq!(blank.page_id, "page_0");
    assert_eq!(blank.url, "about:blank");
    assert_eq!(blank.title.as_deref(), Some("Mock Blank"));
    let p1 = m
        .navigate(BrowserNavigateRequest { session_id: h.session_id.clone(), url: "https://a.test".into(), page_id: None, new_page: false })
        .unwrap();
    assert_eq!(p1.page_id, "page_1");
    assert_eq!(p1.title.as_deref(), Some("Mock Page"));
    let p2 = m
        .navigate(BrowserNavigateRequest {
            session_id: h.session_id.clone(),
            url: "https://b.test".into(),
            page_id: Some("page_1".into()),
            new_page: false,
        })
        .unwrap();
    assert_eq!(p2.page_id, "page_1");
    let p3 = m
        .navigate(BrowserNavigateRequest {
            session_id: h.session_id.clone(),
            url: "https://c.test".into(),
            page_id: Some("page_1".into()),
            new_page: true,
        })
        .unwrap();
    assert_eq!(p3.page_id, "page_2");
    assert_eq!(m.page_state(&h.session_id, None).unwrap().url, "https://c.test");
    assert_eq!(m.page_state(&h.session_id, Some("page_1")).unwrap().url, "https://b.test");
    let typed = m.type_text(action(&h.session_id, None, Some("héllo"), None)).unwrap();
    assert_eq!(typed.detail, "mock type ok chars=6");
    let waited = m.wait(action(&h.session_id, None, None, None)).unwrap();
    assert_eq!(waited.detail, "mock wait ok timeout_ms=0");
    let clicked = m.click(action(&h.session_id, Some("#b\"x"), None, None)).unwrap();
    assert_eq!(clicked.detail, "mock click ok selector=\"#b\\\"x\"");
    assert_eq!(berr(m.close_session("nope").unwrap_err()), "unknown browser session: nope");
    assert_eq!(berr(m.page_state("nope", None).unwrap_err()), "unknown browser session: nope");
    let all = m.cancel(None);
    assert_eq!(all.detail, "cancelled all sessions");
    assert!(matches!(m.status(), BrowserServiceStatus::Unavailable { .. }));
    assert_eq!(
        berr(m.ensure_session(BrowserSessionEnsureRequest { client_session_id: "c2".into(), browser_preference: None }).unwrap_err()),
        "backend cancelled"
    );
    assert_eq!(m.cancel(Some("gone")).detail, "no session gone (already gone)");
}

#[test]
fn negotiate_grants_and_missing() {
    let m = MockBackend::new();
    let r = m
        .negotiate(BrowserNegotiateRequest {
            protocol_version: "0.1.7".into(),
            required_capabilities: vec![BrowserCapability::Screenshot, BrowserCapability::Navigate],
            optional_capabilities: vec![BrowserCapability::Navigate, BrowserCapability::Wait, BrowserCapability::Snapshot],
        })
        .unwrap();
    assert!(!r.compatible);
    assert_eq!(r.missing_required, vec![BrowserCapability::Screenshot]);
    assert_eq!(r.granted_capabilities, vec![BrowserCapability::Navigate, BrowserCapability::Wait]);
    assert_eq!(r.provider.provider_id, "mock");
}

#[test]
fn cdp_scaffold_reports_configuration() {
    let unset = CdpBackend::new(Some(String::new()), false);
    match unset.status() {
        BrowserServiceStatus::Misconfigured { reason } => assert!(reason.starts_with("BROWSER_BIN not set")),
        other => panic!("unexpected {other:?}"),
    }
    let err = unset
        .negotiate(BrowserNegotiateRequest { protocol_version: "0.1".into(), required_capabilities: vec![], optional_capabilities: vec![] })
        .unwrap_err();
    assert!(berr(err).starts_with("cdp not ready: Misconfigured { reason: \"BROWSER_BIN not set"));
    let ready = Backend::cdp(Some("/usr/bin/chromium".into()), true);
    assert!(matches!(ready.status(), BrowserServiceStatus::Available { .. }));
    assert_eq!(ready.descriptor().provider_id, "cdp");
    let mut cdp = Backend::cdp(None, false);
    assert_eq!(
        berr(cdp.ensure_session(BrowserSessionEnsureRequest { client_session_id: "x".into(), browser_preference: None }).unwrap_err()),
        "CDP session open not available; use --mock or rebuild with --features cdp and set BROWSER_BIN"
    );
    assert_eq!(cdp.cancel(None).detail, "cdp cancel no-op");
}

#[test]
fn tool_argument_helpers() {
    let args = Json::Obj(vec![("session_id".to_string(), Json::Str("s1".into()))]);
    assert_eq!(required_str(&args, "session_id").unwrap(), "s1");
    assert_eq!(required_str(&args, "page_id").unwrap_err(), "missing `page_id`");
    assert_eq!(unknown_tool("x"), "unknown tool `x`");
    match closed_reply("s1") {
        Json::Obj(f) => {
            assert_eq!(f[0].0, "closed");
            assert_eq!(f[1].0, "session_id");
        },
        other => panic!("unexpected {other:?}"),
    }
}
