//! The browser extension's runtime backend choice and its MCP tools.
use vstd::prelude::*;
use crate::browser_protocol::{
    BROWSER_PROVIDER_PROTOCOL_VERSION, BrowserActionRequest, BrowserActionResult, BrowserCapability,
    BrowserFetchRenderedRequest, BrowserFetchRenderedResult, BrowserNavigateRequest, BrowserNavigateResult,
    BrowserNegotiateRequest, BrowserNegotiateResult, BrowserPageState, BrowserProviderDescriptor,
    BrowserServiceStatus, BrowserSessionEnsureRequest, BrowserSessionHandle, major_of,
};
use crate::browser_backend::{
    BackendError, MockBackend, CdpBackend, MockV, opt_str, descriptor_is, mock_capabilities, mock_title,
    ensure_session_spec, close_session_spec, navigate_spec, page_state_spec, fetch_spec, fixture_html,
    cancel_spec, session_error, filter_offered, granted_spec, incompatible_msg, cdp_status_reason,
};
use crate::json::{Json, JsonV, push_field, object, fields_v};
use crate::mcp::ToolDef;
use crate::text::{owned, concat, concat3, dec, debug_str_spec};

verus! {

/// The backend the browser tools run on.
pub enum Backend {
    /// The in-memory mock (the default; safe in CI).
    Mock(MockBackend),
    /// The CDP scaffold.
    Cdp(CdpBackend),
}

pub open spec fn opt_v(o: Option<&str>) -> Option<Seq<char>> {
    match o {
        Some(s) => Some(s@),
        None => None,
    }
}

/// What a mock negotiation returns.
pub open spec fn mock_negotiate_post(request: BrowserNegotiateRequest, r: Result<BrowserNegotiateResult, BackendError>) -> bool {
    match r {
        Ok(res) => major_of(request.protocol_version@) == major_of(BROWSER_PROVIDER_PROTOCOL_VERSION@)
            && res.protocol_version@ == BROWSER_PROVIDER_PROTOCOL_VERSION@
            && descriptor_is(res.provider, "mock"@, "mock"@, mock_capabilities())
            && res.missing_required@ == filter_offered(request.required_capabilities@, mock_capabilities(), false)
            && res.granted_capabilities@ == granted_spec(
                request.required_capabilities@,
                request.optional_capabilities@,
                mock_capabilities(),
            )
            && res.compatible == (res.missing_required@.len() == 0),
        Err(e) => major_of(request.protocol_version@) != major_of(BROWSER_PROVIDER_PROTOCOL_VERSION@)
            && e@ == incompatible_msg(request.protocol_version@),
    }
}

/// What a CDP negotiation returns.
pub open spec fn cdp_negotiate_post(c: CdpBackend, request: BrowserNegotiateRequest, r: Result<BrowserNegotiateResult, BackendError>) -> bool {
    &&& major_of(request.protocol_version@) != major_of(BROWSER_PROVIDER_PROTOCOL_VERSION@) ==> (r matches Err(e)
        && e@ == "incompatible protocol version"@)
    &&& major_of(request.protocol_version@) == major_of(BROWSER_PROVIDER_PROTOCOL_VERSION@) ==> match cdp_status_reason(
        opt_str(c.browser_bin),
        c.cdp_feature,
    ) {
        Some(reason) => r matches Err(e) && e@ == "cdp not ready: Misconfigured { reason: "@ + debug_str_spec(reason) + " }"@,
        None => r matches Ok(res) && res.compatible && res.protocol_version@ == BROWSER_PROVIDER_PROTOCOL_VERSION@
            && descriptor_is(res.provider, "cdp"@, "chromium"@, seq![BrowserCapability::Navigate])
            && res.granted_capabilities@ == seq![BrowserCapability::Navigate] && res.missing_required@.len() == 0,
    }
}

/// What a mock session request returns.
pub open spec fn mock_ensure_post(m: MockV, request: BrowserSessionEnsureRequest, r: Result<BrowserSessionHandle, BackendError>) -> bool {
    match r {
        Ok(h) => ensure_session_spec(m, request.client_session_id@).1 == Ok::<Seq<char>, Seq<char>>(h.session_id@)
            && opt_str(h.browser_family) == Some("mock"@) && opt_str(h.default_page_id) == Some("page_0"@),
        Err(e) => ensure_session_spec(m, request.client_session_id@).1 == Err::<Seq<char>, Seq<char>>(e@),
    }
}

/// What a mock navigation returns.
pub open spec fn mock_navigate_post(m: MockV, request: BrowserNavigateRequest, r: Result<BrowserNavigateResult, BackendError>) -> bool {
    let s = navigate_spec(m, request.session_id@, request.url@, opt_str(request.page_id), request.new_page);
    match r {
        Ok(res) => s.1 == Ok::<Seq<char>, Seq<char>>(res.page_id@) && res.url@ == request.url@ && opt_str(res.title)
            == Some(mock_title()),
        Err(e) => s.1 == Err::<Seq<char>, Seq<char>>(e@),
    }
}

/// What a mock page-state query returns.
pub open spec fn mock_page_state_post(m: MockV, session_id: Seq<char>, page_id: Option<Seq<char>>, r: Result<BrowserPageState, BackendError>) -> bool {
    match r {
        Ok(st) => page_state_spec(m, session_id, page_id) == Ok::<(Seq<char>, Seq<char>, Option<Seq<char>>), Seq<char>>(
            (st.page_id@, st.url@, opt_str(st.title)),
        ) && st.session_id@ == session_id && st.ready,
        Err(e) => page_state_spec(m, session_id, page_id) == Err::<(Seq<char>, Seq<char>, Option<Seq<char>>), Seq<char>>(e@),
    }
}

/// What a mock fetch returns.
pub open spec fn mock_fetch_post(m: MockV, request: BrowserFetchRenderedRequest, r: Result<BrowserFetchRenderedResult, BackendError>) -> bool {
    match r {
        Ok(res) => fetch_spec(m, request.session_id@, opt_str(request.page_id), opt_str(request.url))
            == Ok::<(Seq<char>, Seq<char>, Option<Seq<char>>), Seq<char>>((res.page_id@, res.url@, opt_str(res.title)))
            && res.content_type@ == "text/html; charset=utf-8"@ && res.text@ == fixture_html(res.url@),
        Err(e) => fetch_spec(m, request.session_id@, opt_str(request.page_id), opt_str(request.url))
            == Err::<(Seq<char>, Seq<char>, Option<Seq<char>>), Seq<char>>(e@),
    }
}

/// What a mock action returns: `detail` on a live session, else the session error.
pub open spec fn mock_action_post(m: MockV, session_id: Seq<char>, detail: Seq<char>, r: Result<BrowserActionResult, BackendError>) -> bool {
    match r {
        Ok(res) => session_error(m, session_id) is None && res.ok && res.detail@ == detail,
        Err(e) => session_error(m, session_id) == Some(e@),
    }
}

pub open spec fn click_detail(request: BrowserActionRequest) -> Seq<char> {
    "mock click ok selector="@ + debug_str_spec(match request.selector { Some(s) => s@, None => Seq::empty() })
}

pub open spec fn type_detail(request: BrowserActionRequest) -> Seq<char> {
    "mock type ok chars="@ + dec(
        match request.text { Some(t) => (vstd::utf8::encode_utf8(t@).len() as usize) as nat, None => 0 },
    )
}

pub open spec fn wait_detail(request: BrowserActionRequest) -> Seq<char> {
    "mock wait ok timeout_ms="@ + dec(match request.timeout_ms { Some(t) => t as nat, None => 0 })
}

/// The CDP scaffold fails with `msg`.
pub open spec fn fails_with<T>(r: Result<T, BackendError>, msg: Seq<char>) -> bool {
    r matches Err(e) && e@ == msg
}

impl Backend {
    /// The mock backend is well formed.
    pub open spec fn wf(&self) -> bool {
        match self {
            Backend::Mock(b) => b.wf(),
            Backend::Cdp(_) => true,
        }
    }

    /// A fresh mock backend.
    pub fn mock() -> (r: Backend)
        ensures
            r.wf(),
            r matches Backend::Mock(b) && b.model() == (MockV { root_cancelled: false, sessions: Map::empty() }),
    {
        Backend::Mock(MockBackend::new())
    }

    /// The CDP backend for a `BROWSER_BIN` value (`None` when unset).
    pub fn cdp(browser_bin: Option<String>, cdp_feature: bool) -> (r: Backend)
        ensures
            r.wf(),
            r matches Backend::Cdp(c) && c.cdp_feature == cdp_feature && opt_str(c.browser_bin) == (match opt_str(browser_bin) {
                Some(b) => if b.len() == 0 { None } else { Some(b) },
                None => None,
            }),
    {
        Backend::Cdp(CdpBackend::new(browser_bin, cdp_feature))
    }

    /// The provider descriptor.
    pub fn descriptor(&self) -> (d: BrowserProviderDescriptor)
        ensures
            self is Mock ==> descriptor_is(d, "mock"@, "mock"@, mock_capabilities()),
            self is Cdp ==> descriptor_is(d, "cdp"@, "chromium"@, seq![BrowserCapability::Navigate]),
    {
        match self {
            Backend::Mock(b) => b.descriptor(),
            Backend::Cdp(c) => c.descriptor(),
        }
    }

    /// The provider status.
    pub fn status(&self) -> (r: BrowserServiceStatus)
        ensures
            match self {
                Backend::Mock(b) => (b.model().root_cancelled ==> (r matches BrowserServiceStatus::Unavailable { reason }
                    && reason@ == "mock backend cancelled"@)) && (!b.model().root_cancelled
                    ==> (r matches BrowserServiceStatus::Available { provider_id, capabilities } && provider_id@ == "mock"@
                    && capabilities@ == mock_capabilities())),
                Backend::Cdp(c) => match cdp_status_reason(opt_str(c.browser_bin), c.cdp_feature) {
                    Some(reason) => r matches BrowserServiceStatus::Misconfigured { reason: got } && got@ == reason,
                    None => r matches BrowserServiceStatus::Available { provider_id, capabilities } && provider_id@
                        == "cdp"@ && capabilities@ == seq![BrowserCapability::Navigate],
                },
            },
    {
        match self {
            Backend::Mock(b) => b.status(),
            Backend::Cdp(c) => c.status(),
        }
    }

    /// Capability negotiation.
    pub fn negotiate(&self, request: BrowserNegotiateRequest) -> (r: Result<BrowserNegotiateResult, BackendError>)
        ensures
            match self {
                Backend::Mock(_) => mock_negotiate_post(request, r),
                Backend::Cdp(c) => cdp_negotiate_post(*c, request, r),
            },
    {
        match self {
            Backend::Mock(b) => b.negotiate(request),
            Backend::Cdp(c) => c.negotiate(request),
        }
    }

    /// Opens or reuses a session.
    pub fn ensure_session(&mut self, request: BrowserSessionEnsureRequest) -> (r: Result<BrowserSessionHandle, BackendError>)
        requires
            old(self).wf(),
        ensures
            final(self).wf(),
            match *old(self) {
                Backend::Mock(b) => *final(self) matches Backend::Mock(b2) && b2.model() == ensure_session_spec(
                    b.model(),
                    request.client_session_id@,
                ).0 && mock_ensure_post(b.model(), request, r),
                Backend::Cdp(c) => *final(self) == *old(self) && fails_with(r, if c.cdp_feature {
                    "CDP session open scaffold: chromiumoxide feature present but session API not wired yet; use --mock"@
                } else {
                    "CDP session open not available; use --mock or rebuild with --features cdp and set BROWSER_BIN"@
                }),
            },
    {
        match self {
            Backend::Mock(b) => b.ensure_session(request),
            Backend::Cdp(c) => c.ensure_session(request),
        }
    }

    /// Closes a session.
    pub fn close_session(&mut self, session_id: &str) -> (r: Result<(), BackendError>)
        requires
            old(self).wf(),
        ensures
            final(self).wf(),
            match *old(self) {
                Backend::Mock(b) => *final(self) matches Backend::Mock(b2) && b2.model() == close_session_spec(b.model(), session_id@).0
                    && match r {
                    Ok(()) => close_session_spec(b.model(), session_id@).1 is Ok,
                    Err(e) => close_session_spec(b.model(), session_id@).1 == Err::<(), Seq<char>>(e@),
                },
                Backend::Cdp(_) => *final(self) == *old(self) && fails_with(r, "cdp session close unavailable"@),
            },
    {
        match self {
            Backend::Mock(b) => b.close_session(session_id),
            Backend::Cdp(c) => c.close_session(session_id),
        }
    }

    /// Navigates a session.
    pub fn navigate(&mut self, request: BrowserNavigateRequest) -> (r: Result<BrowserNavigateResult, BackendError>)
        requires
            old(self).wf(),
            *old(self) matches Backend::Mock(b) ==> (b.model().sessions.contains_key(request.session_id@)
                ==> b.model().sessions[request.session_id@].page_counter < u64::MAX),
        ensures
            final(self).wf(),
            match *old(self) {
                Backend::Mock(b) => *final(self) matches Backend::Mock(b2) && b2.model() == navigate_spec(
                    b.model(),
                    request.session_id@,
                    request.url@,
                    opt_str(request.page_id),
                    request.new_page,
                ).0 && mock_navigate_post(b.model(), request, r),
                Backend::Cdp(_) => *final(self) == *old(self) && fails_with(r, "cdp navigate unavailable"@),
            },
    {
        match self {
            Backend::Mock(b) => b.navigate(request),
            Backend::Cdp(c) => c.navigate(request),
        }
    }

    /// Whether the session's page counter cannot advance any more (only the
    /// mock counts pages).
    pub fn page_counter_exhausted(&self, session_id: &str) -> (r: bool)
        requires
            self.wf(),
        ensures
            match self {
                Backend::Mock(b) => r == (b.model().sessions.contains_key(session_id@)
                    && b.model().sessions[session_id@].page_counter == u64::MAX),
                Backend::Cdp(_) => !r,
            },
    {
        match self {
            Backend::Mock(b) => b.page_counter_exhausted(session_id),
            Backend::Cdp(_) => false,
        }
    }

    /// The state of a page.
    pub fn page_state(&self, session_id: &str, page_id: Option<&str>) -> (r: Result<BrowserPageState, BackendError>)
        requires
            self.wf(),
        ensures
            match self {
                Backend::Mock(b) => mock_page_state_post(b.model(), session_id@, opt_v(page_id), r),
                Backend::Cdp(_) => fails_with(r, "cdp page_state unavailable"@),
            },
    {
        match self {
            Backend::Mock(b) => b.page_state(session_id, page_id),
            Backend::Cdp(c) => c.page_state(session_id, page_id),
        }
    }

    /// The rendered content of a page.
    pub fn fetch_rendered(&self, request: BrowserFetchRenderedRequest) -> (r: Result<BrowserFetchRenderedResult, BackendError>)
        requires
            self.wf(),
        ensures
            match self {
                Backend::Mock(b) => mock_fetch_post(b.model(), request, r),
                Backend::Cdp(_) => fails_with(r, "cdp fetch_rendered unavailable"@),
            },
    {
        match self {
            Backend::Mock(b) => b.fetch_rendered(request),
            Backend::Cdp(c) => c.fetch_rendered(request),
        }
    }

    /// A click.
    pub fn click(&self, request: BrowserActionRequest) -> (r: Result<BrowserActionResult, BackendError>)
        requires
            self.wf(),
        ensures
            match self {
                Backend::Mock(b) => mock_action_post(b.model(), request.session_id@, click_detail(request), r),
                Backend::Cdp(_) => fails_with(r, "cdp click unavailable"@),
            },
    {
        match self {
            Backend::Mock(b) => b.click(request),
            Backend::Cdp(c) => c.click(request),
        }
    }

    /// Typing.
    pub fn type_text(&self, request: BrowserActionRequest) -> (r: Result<BrowserActionResult, BackendError>)
        requires
            self.wf(),
        ensures
            match self {
                Backend::Mock(b) => mock_action_post(b.model(), request.session_id@, type_detail(request), r),
                Backend::Cdp(_) => fails_with(r, "cdp type unavailable"@),
            },
    {
        match self {
            Backend::Mock(b) => b.type_text(request),
            Backend::Cdp(c) => c.type_text(request),
        }
    }

    /// A wait.
    pub fn wait(&self, request: BrowserActionRequest) -> (r: Result<BrowserActionResult, BackendError>)
        requires
            self.wf(),
        ensures
            match self {
                Backend::Mock(b) => mock_action_post(b.model(), request.session_id@, wait_detail(request), r),
                Backend::Cdp(_) => fails_with(r, "cdp wait unavailable"@),
            },
    {
        match self {
            Backend::Mock(b) => b.wait(request),
            Backend::Cdp(c) => c.wait(request),
        }
    }

    /// Cancels one session or everything.
    pub fn cancel(&mut self, session_id: Option<&str>) -> (r: BrowserActionResult)
        requires
            old(self).wf(),
        ensures
            final(self).wf(),
            r.ok,
            match *old(self) {
                Backend::Mock(b) => *final(self) matches Backend::Mock(b2) && b2.model() == cancel_spec(b.model(), opt_v(session_id)).0
                    && r.detail@ == cancel_spec(b.model(), opt_v(session_id)).1,
                Backend::Cdp(_) => *final(self) == *old(self) && r.detail@ == "cdp cancel no-op"@,
            },
    {
        match self {
            Backend::Mock(b) => b.cancel(session_id),
            Backend::Cdp(c) => c.cancel(session_id),
        }
    }
}

// ---------------------------------------------------------------------------
// Tools

pub open spec fn tool_names() -> Seq<Seq<char>> {
    seq![
        "browser_status"@, "browser_negotiate"@, "browser_ensure_session"@, "browser_close_session"@,
        "browser_navigate"@, "browser_page_state"@, "browser_fetch_rendered"@, "browser_click"@,
        "browser_type"@, "browser_wait"@, "browser_cancel"@,
    ]
}

pub open spec fn tool_descriptions() -> Seq<Seq<char>> {
    seq![
        "Provider health/status (protocol 0.1)"@, "Negotiate protocol 0.1 capabilities"@,
        "Create or reuse a browser session"@, "Close a session"@, "Navigate session to http(s) URL"@,
        "Current page URL/title/id"@, "Fetch rendered readable text"@, "Click selector (best-effort)"@,
        "Type into selector (best-effort)"@, "Wait for condition (best-effort)"@,
        "Cancel in-flight work / cleanup"@,
    ]
}

/// The input schema of every browser tool: any object.
pub open spec fn open_object_schema() -> JsonV {
    JsonV::Obj(seq![("type"@, JsonV::Str("object"@)), ("additionalProperties"@, JsonV::Bool(true))])
}

fn open_object() -> (r: Json)
    ensures
        r@ == open_object_schema(),
{
    let mut f: Vec<(String, Json)> = Vec::new();
    push_field(&mut f, "type", Json::string("object"));
    push_field(&mut f, "additionalProperties", Json::Bool(true));
    assert(fields_v(f@) =~= open_object_schema()->Obj_0);
    object(f)
}

fn push_tool(v: &mut Vec<ToolDef>, name: &str, description: &str)
    ensures
        final(v)@.len() == old(v)@.len() + 1,
        forall|i: int| 0 <= i < old(v)@.len() ==> #[trigger] final(v)@[i] == old(v)@[i],
        final(v)@.last().name@ == name@,
        final(v)@.last().description@ == description@,
        final(v)@.last().input_schema@ == open_object_schema(),
{
    v.push(ToolDef { name: owned(name), description: owned(description), input_schema: open_object() });
}

/// The eleven browser tools, each taking any object.
pub fn tool_defs() -> (r: Vec<ToolDef>)
    ensures
        r@.len() == tool_names().len(),
        forall|i: int| 0 <= i < r@.len() ==> (#[trigger] r@[i]).name@ == tool_names()[i]
            && r@[i].description@ == tool_descriptions()[i] && r@[i].input_schema@ == open_object_schema(),
{
    let mut v: Vec<ToolDef> = Vec::new();
    push_tool(&mut v, "browser_status", "Provider health/status (protocol 0.1)");
    push_tool(&mut v, "browser_negotiate", "Negotiate protocol 0.1 capabilities");
    push_tool(&mut v, "browser_ensure_session", "Create or reuse a browser session");
    push_tool(&mut v, "browser_close_session", "Close a session");
    push_tool(&mut v, "browser_navigate", "Navigate session to http(s) URL");
    push_tool(&mut v, "browser_page_state", "Current page URL/title/id");
    push_tool(&mut v, "browser_fetch_rendered", "Fetch rendered readable text");
    push_tool(&mut v, "browser_click", "Click selector (best-effort)");
    push_tool(&mut v, "browser_type", "Type into selector (best-effort)");
    push_tool(&mut v, "browser_wait", "Wait for condition (best-effort)");
    push_tool(&mut v, "browser_cancel", "Cancel in-flight work / cleanup");
    v
}

/// A required string argument.
pub fn required_str(args: &Json, key: &str) -> (r: Result<String, String>)
    ensures
        crate::workspace::str_result(r) == (match args@.str_at(key@) {
            Some(s) => Ok(s),
            None => Err("missing `"@ + key@ + "`"@),
        }),
{
    match args.str_at(key) {
        Some(s) => Ok(s),
        None => Err(concat3("missing `", key, "`")),
    }
}

/// The answer of a successful `browser_close_session`.
pub fn closed_reply(session_id: &str) -> (r: Json)
    ensures
        r@ == JsonV::Obj(seq![("closed"@, JsonV::Bool(true)), ("session_id"@, JsonV::Str(session_id@))]),
{
    let mut f: Vec<(String, Json)> = Vec::new();
    push_field(&mut f, "closed", Json::Bool(true));
    push_field(&mut f, "session_id", Json::string(session_id));
    assert(fields_v(f@) =~= seq![("closed"@, JsonV::Bool(true)), ("session_id"@, JsonV::Str(session_id@))]);
    object(f)
}

/// The error text for a tool that is not known.
pub fn unknown_tool(name: &str) -> (r: String)
    ensures
        r@ == "unknown tool `"@ + name@ + "`"@,
{
    concat3("unknown tool `", name, "`")
}

} // verus!
