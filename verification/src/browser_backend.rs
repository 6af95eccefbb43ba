//! The in-memory mock browser backend (a session state machine) and the CDP
//! backend scaffold.
use vstd::prelude::*;
use crate::browser_protocol::{
    BROWSER_PROVIDER_PROTOCOL_VERSION, BrowserActionRequest, BrowserActionResult, BrowserCapability,
    BrowserFetchRenderedRequest, BrowserFetchRenderedResult, BrowserNavigateRequest, BrowserNavigateResult,
    BrowserNegotiateRequest, BrowserNegotiateResult, BrowserPageState, BrowserProviderDescriptor,
    BrowserServiceStatus, BrowserSessionEnsureRequest, BrowserSessionHandle, major_of, protocol_compatible,
};
use crate::keyed::{unique_keys, has_key, kmap, lemma_kmap_at, lemma_kmap_push, lemma_kmap_update, lemma_kmap_remove, lemma_kmap_empty};
use crate::text::{owned, concat, concat3, str_eq, dec, dec_string, debug_str, debug_str_spec, has_infix, occurs_at};

verus! {

/// A backend failure, reported as a message.
#[derive(Debug)]
pub enum BackendError {
    Msg(String),
}

impl View for BackendError {
    type V = Seq<char>;

    open spec fn view(&self) -> Seq<char> {
        match self {
            BackendError::Msg(s) => s@,
        }
    }
}

impl BackendError {
    pub fn msg(s: String) -> (r: BackendError)
        ensures
            r@ == s@,
    {
        BackendError::Msg(s)
    }
}

/// The package version reported as the provider version.
pub const PROVIDER_VERSION: &'static str = "0.1.0";

pub open spec fn opt_str(o: Option<String>) -> Option<Seq<char>> {
    match o {
        Some(s) => Some(s@),
        None => None,
    }
}

fn copy_opt(o: &Option<String>) -> (r: Option<String>)
    ensures
        opt_str(r) == opt_str(*o),
{
    match o {
        Some(s) => Some(s.clone()),
        None => None,
    }
}

// ---------------------------------------------------------------------------
// Model

/// What the mock backend remembers of a page.
pub struct PageV {
    pub url: Seq<char>,
    pub title: Option<Seq<char>>,
}

/// What the mock backend remembers of a session.
pub struct SessionV {
    pub cancelled: bool,
    pub page_counter: u64,
    pub pages: Map<Seq<char>, PageV>,
    pub default_page_id: Seq<char>,
}

/// The state of the mock backend: whether everything was cancelled, and the
/// sessions by id.
pub struct MockV {
    pub root_cancelled: bool,
    pub sessions: Map<Seq<char>, SessionV>,
}

struct PageEntry {
    page_id: String,
    url: String,
    title: Option<String>,
}

struct SessionState {
    session_id: String,
    cancelled: bool,
    page_counter: u64,
    pages: Vec<PageEntry>,
    default_page_id: String,
}

/// In-memory CI backend: no browser binary.
pub struct MockBackend {
    sessions: Vec<SessionState>,
    root_cancelled: bool,
}

spec fn page_key() -> spec_fn(PageEntry) -> Seq<char> {
    |p: PageEntry| p.page_id@
}

spec fn page_val() -> spec_fn(PageEntry) -> PageV {
    |p: PageEntry| PageV { url: p.url@, title: opt_str(p.title) }
}

spec fn session_key() -> spec_fn(SessionState) -> Seq<char> {
    |s: SessionState| s.session_id@
}

spec fn session_val() -> spec_fn(SessionState) -> SessionV {
    |s: SessionState|
        SessionV {
            cancelled: s.cancelled,
            page_counter: s.page_counter,
            pages: kmap(s.pages@, page_key(), page_val()),
            default_page_id: s.default_page_id@,
        }
}

spec fn session_wf(s: SessionState) -> bool {
    unique_keys(s.pages@, page_key())
}

/// A fresh session: not cancelled, no pages, default page `page_0`.
pub open spec fn fresh_session() -> SessionV {
    SessionV { cancelled: false, page_counter: 0, pages: Map::empty(), default_page_id: "page_0"@ }
}

pub open spec fn unknown_session_msg(id: Seq<char>) -> Seq<char> {
    "unknown browser session: "@ + id
}

/// Why a session cannot be used, if it cannot.
pub open spec fn session_error(m: MockV, id: Seq<char>) -> Option<Seq<char>> {
    if !m.sessions.contains_key(id) {
        Some(unknown_session_msg(id))
    } else if m.sessions[id].cancelled || m.root_cancelled {
        Some("session cancelled"@)
    } else {
        None
    }
}

/// `ensure_session`: the new state and the session id (or the error message).
pub open spec fn ensure_session_spec(m: MockV, client: Seq<char>) -> (MockV, Result<Seq<char>, Seq<char>>) {
    if m.root_cancelled {
        (m, Err("backend cancelled"@))
    } else {
        let sid = "mock-sess-"@ + client;
        if !m.sessions.contains_key(sid) || m.sessions[sid].cancelled {
            (MockV { sessions: m.sessions.insert(sid, fresh_session()), ..m }, Ok(sid))
        } else {
            (m, Ok(sid))
        }
    }
}

/// `close_session`.
pub open spec fn close_session_spec(m: MockV, id: Seq<char>) -> (MockV, Result<(), Seq<char>>) {
    if !m.sessions.contains_key(id) {
        (m, Err(unknown_session_msg(id)))
    } else {
        (MockV { sessions: m.sessions.remove(id), ..m }, Ok(()))
    }
}

/// The title every mock navigation gives a page.
pub open spec fn mock_title() -> Seq<char> {
    "Mock Page"@
}

/// `navigate`: the new state and the page id navigated (or the error message).
pub open spec fn navigate_spec(
    m: MockV,
    sid: Seq<char>,
    url: Seq<char>,
    page_id: Option<Seq<char>>,
    new_page: bool,
) -> (MockV, Result<Seq<char>, Seq<char>>) {
    match session_error(m, sid) {
        Some(e) => (m, Err(e)),
        None => {
            let s = m.sessions[sid];
            let reuse = page_id is Some && !new_page;
            let counter = if reuse { s.page_counter } else { (s.page_counter + 1) as u64 };
            let pid = if reuse { page_id.unwrap() } else { "page_"@ + dec(counter as nat) };
            let s2 = SessionV {
                page_counter: counter,
                pages: s.pages.insert(pid, PageV { url, title: Some(mock_title()) }),
                default_page_id: pid,
                ..s
            };
            (MockV { sessions: m.sessions.insert(sid, s2), ..m }, Ok(pid))
        },
    }
}

/// `page_state`: page id, url and title (or the error message).
pub open spec fn page_state_spec(m: MockV, sid: Seq<char>, page_id: Option<Seq<char>>) -> Result<
    (Seq<char>, Seq<char>, Option<Seq<char>>),
    Seq<char>,
> {
    match session_error(m, sid) {
        Some(e) => Err(e),
        None => {
            let s = m.sessions[sid];
            let pid = match page_id {
                Some(p) => p,
                None => s.default_page_id,
            };
            if s.pages.contains_key(pid) {
                Ok((pid, s.pages[pid].url, s.pages[pid].title))
            } else {
                Ok((pid, "about:blank"@, Some("Mock Blank"@)))
            }
        },
    }
}

/// The rendered fixture document for `url`.
pub open spec fn fixture_html(url: Seq<char>) -> Seq<char> {
    "<!doctype html><html><head><title>Mock</title></head><body><h1>Mock rendered</h1><p>fixture for "@
        + url + "</p></body></html>"@
}

/// `fetch_rendered`: page id, url and title (or the error message).
pub open spec fn fetch_spec(m: MockV, sid: Seq<char>, page_id: Option<Seq<char>>, url: Option<Seq<char>>) -> Result<
    (Seq<char>, Seq<char>, Option<Seq<char>>),
    Seq<char>,
> {
    match session_error(m, sid) {
        Some(e) => Err(e),
        None => {
            let s = m.sessions[sid];
            let pid = match page_id {
                Some(p) => p,
                None => s.default_page_id,
            };
            let u = match url {
                Some(u) => u,
                None => if s.pages.contains_key(pid) {
                    s.pages[pid].url
                } else {
                    "about:blank"@
                },
            };
            let t = if s.pages.contains_key(pid) && s.pages[pid].title is Some {
                s.pages[pid].title
            } else {
                Some(mock_title())
            };
            Ok((pid, u, t))
        },
    }
}

/// `cancel`: the new state and the detail reported.
pub open spec fn cancel_spec(m: MockV, id: Option<Seq<char>>) -> (MockV, Seq<char>) {
    match id {
        Some(i) => if m.sessions.contains_key(i) {
            (MockV { sessions: m.sessions.remove(i), ..m }, "cancelled session "@ + i)
        } else {
            (m, "no session "@ + i + " (already gone)"@)
        },
        None => (MockV { root_cancelled: true, sessions: Map::empty() }, "cancelled all sessions"@),
    }
}

/// The capabilities the mock provider offers.
pub open spec fn mock_capabilities() -> Seq<BrowserCapability> {
    seq![
        BrowserCapability::Navigate,
        BrowserCapability::RenderedReadableText,
        BrowserCapability::RenderedLinks,
        BrowserCapability::Click,
        BrowserCapability::Type,
        BrowserCapability::Wait,
    ]
}

fn mock_capability_list() -> (r: Vec<BrowserCapability>)
    ensures
        r@ == mock_capabilities(),
{
    let mut v = Vec::new();
    v.push(BrowserCapability::Navigate);
    v.push(BrowserCapability::RenderedReadableText);
    v.push(BrowserCapability::RenderedLinks);
    v.push(BrowserCapability::Click);
    v.push(BrowserCapability::Type);
    v.push(BrowserCapability::Wait);
    assert(v@ =~= mock_capabilities());
    v
}

pub open spec fn strings_v(v: Seq<String>) -> Seq<Seq<char>> {
    v.map_values(|s: String| s@)
}

/// A provider descriptor as values: id, version, protocol, families, capabilities.
pub open spec fn descriptor_is(
    d: BrowserProviderDescriptor,
    id: Seq<char>,
    family: Seq<char>,
    caps: Seq<BrowserCapability>,
) -> bool {
    &&& d.provider_id@ == id
    &&& opt_str(d.provider_version) == Some(PROVIDER_VERSION@)
    &&& d.protocol_version@ == BROWSER_PROVIDER_PROTOCOL_VERSION@
    &&& strings_v(d.browser_families@) == seq![family]
    &&& d.capabilities@ == caps
}

fn descriptor_of(id: &str, family: &str, caps: Vec<BrowserCapability>) -> (d: BrowserProviderDescriptor)
    ensures
        descriptor_is(d, id@, family@, caps@),
{
    let mut fams: Vec<String> = Vec::new();
    fams.push(owned(family));
    assert(strings_v(fams@) =~= seq![family@]);
    BrowserProviderDescriptor {
        provider_id: owned(id),
        provider_version: Some(owned(PROVIDER_VERSION)),
        protocol_version: owned(BROWSER_PROVIDER_PROTOCOL_VERSION),
        browser_families: fams,
        capabilities: caps,
    }
}

impl MockBackend {
    /// Sessions have distinct ids, and pages within a session distinct ids.
    pub closed spec fn wf(&self) -> bool {
        &&& unique_keys(self.sessions@, session_key())
        &&& forall|i: int| 0 <= i < self.sessions@.len() ==> session_wf(#[trigger] self.sessions@[i])
    }

    pub closed spec fn model(&self) -> MockV {
        MockV { root_cancelled: self.root_cancelled, sessions: kmap(self.sessions@, session_key(), session_val()) }
    }

    /// A backend with no sessions, not cancelled.
    pub fn new() -> (r: MockBackend)
        ensures
            r.wf(),
            r.model() == (MockV { root_cancelled: false, sessions: Map::empty() }),
    {
        let r = MockBackend { sessions: Vec::new(), root_cancelled: false };
        proof {
            lemma_kmap_empty(r.sessions@, session_key(), session_val());
        }
        r
    }

    /// The mock provider descriptor.
    pub fn descriptor(&self) -> (d: BrowserProviderDescriptor)
        ensures
            descriptor_is(d, "mock"@, "mock"@, mock_capabilities()),
    {
        descriptor_of("mock", "mock", mock_capability_list())
    }

    /// `Unavailable` once everything was cancelled, `Available` otherwise.
    pub fn status(&self) -> (r: BrowserServiceStatus)
        ensures
            self.model().root_cancelled ==> (r matches BrowserServiceStatus::Unavailable { reason } && reason@
                == "mock backend cancelled"@),
            !self.model().root_cancelled ==> (r matches BrowserServiceStatus::Available {
                provider_id,
                capabilities,
            } && provider_id@ == "mock"@ && capabilities@ == mock_capabilities()),
    {
        if self.root_cancelled {
            BrowserServiceStatus::Unavailable { reason: owned("mock backend cancelled") }
        } else {
            BrowserServiceStatus::Available { provider_id: owned("mock"), capabilities: mock_capability_list() }
        }
    }

    fn find_session(&self, id: &str) -> (r: Option<usize>)
        requires
            self.wf(),
        ensures
            match r {
                Some(i) => i < self.sessions@.len() && self.sessions@[i as int].session_id@ == id@,
                None => !has_key(self.sessions@, session_key(), id@),
            },
    {
        let mut i: usize = 0;
        while i < self.sessions.len()
            invariant
                i <= self.sessions.len(),
                forall|j: int| 0 <= j < i ==> self.sessions@[j].session_id@ != id@,
            decreases self.sessions.len() - i,
        {
            if str_eq(self.sessions[i].session_id.as_str(), id) {
                return Some(i);
            }
            i += 1;
        }
        assert forall|j: int| 0 <= j < self.sessions@.len() implies (session_key())(self.sessions@[j]) != id@ by {}
        None
    }

    proof fn lemma_session_at(&self, i: int)
        requires
            self.wf(),
            0 <= i < self.sessions@.len(),
        ensures
            self.model().sessions.contains_key(self.sessions@[i].session_id@),
            self.model().sessions[self.sessions@[i].session_id@] == (session_val())(self.sessions@[i]),
    {
        lemma_kmap_at(self.sessions@, session_key(), session_val(), i);
    }

    /// Creates the session `mock-sess-<client id>`, or reuses it when it exists and
    /// is not cancelled. Fails once everything was cancelled.
    pub fn ensure_session(&mut self, request: BrowserSessionEnsureRequest) -> (r: Result<BrowserSessionHandle, BackendError>)
        requires
            old(self).wf(),
        ensures
            final(self).wf(),
            final(self).model() == ensure_session_spec(old(self).model(), request.client_session_id@).0,
            match r {
                Ok(h) => ensure_session_spec(old(self).model(), request.client_session_id@).1 == Ok::<
                    Seq<char>,
                    Seq<char>,
                >(h.session_id@) && opt_str(h.browser_family) == Some("mock"@) && opt_str(h.default_page_id)
                    == Some("page_0"@),
                Err(e) => ensure_session_spec(old(self).model(), request.client_session_id@).1 == Err::<
                    Seq<char>,
                    Seq<char>,
                >(e@),
            },
    {
        if self.root_cancelled {
            return Err(BackendError::msg(owned("backend cancelled")));
        }
        let session_id = concat("mock-sess-", request.client_session_id.as_str());
        let fresh = SessionState {
            session_id: session_id.clone(),
            cancelled: false,
            page_counter: 0,
            pages: Vec::new(),
            default_page_id: owned("page_0"),
        };
        proof {
            lemma_kmap_empty(fresh.pages@, page_key(), page_val());
            assert((session_val())(fresh) == fresh_session());
        }
        let ghost m = self.model();
        match self.find_session(session_id.as_str()) {
            None => {
                proof {
                    lemma_kmap_push(self.sessions@, session_key(), session_val(), fresh);
                }
                self.sessions.push(fresh);
                proof {
                    assert forall|i: int| 0 <= i < self.sessions@.len() implies session_wf(#[trigger] self.sessions@[i]) by {
                        if i < old(self).sessions@.len() {
                            assert(self.sessions@[i] == old(self).sessions@[i]);
                        }
                    }
                }
            },
            Some(i) => {
                proof {
                    self.lemma_session_at(i as int);
                }
                if self.sessions[i].cancelled {
                    let old_s = self.sessions.remove(i);
                    self.sessions.insert(i, fresh);
                    proof {
                        assert(self.sessions@ =~= old(self).sessions@.update(i as int, fresh));
                        lemma_kmap_update(old(self).sessions@, session_key(), session_val(), i as int, fresh);
                        assert forall|j: int| 0 <= j < self.sessions@.len() implies session_wf(#[trigger] self.sessions@[j]) by {
                            if j != i {
                                assert(self.sessions@[j] == old(self).sessions@[j]);
                            }
                        }
                    }
                }
            },
        }
        Ok(BrowserSessionHandle {
            session_id,
            browser_family: Some(owned("mock")),
            default_page_id: Some(owned("page_0")),
        })
    }

    /// Removes a session; fails when there is none with that id.
    pub fn close_session(&mut self, session_id: &str) -> (r: Result<(), BackendError>)
        requires
            old(self).wf(),
        ensures
            final(self).wf(),
            final(self).model() == close_session_spec(old(self).model(), session_id@).0,
            match r {
                Ok(()) => close_session_spec(old(self).model(), session_id@).1 is Ok,
                Err(e) => close_session_spec(old(self).model(), session_id@).1 == Err::<(), Seq<char>>(e@),
            },
    {
        match self.find_session(session_id) {
            None => Err(BackendError::msg(concat("unknown browser session: ", session_id))),
            Some(i) => {
                proof {
                    self.lemma_session_at(i as int);
                    lemma_kmap_remove(self.sessions@, session_key(), session_val(), i as int);
                }
                let _gone = self.sessions.remove(i);
                proof {
                    assert forall|j: int| 0 <= j < self.sessions@.len() implies session_wf(#[trigger] self.sessions@[j]) by {
                        if j < i {
                            assert(self.sessions@[j] == old(self).sessions@[j]);
                        } else {
                            assert(self.sessions@[j] == old(self).sessions@[j + 1]);
                        }
                    }
                }
                Ok(())
            },
        }
    }

    /// Whether the session's page counter cannot advance any more.
    pub fn page_counter_exhausted(&self, session_id: &str) -> (r: bool)
        requires
            self.wf(),
        ensures
            r == (self.model().sessions.contains_key(session_id@)
                && self.model().sessions[session_id@].page_counter == u64::MAX),
    {
        match self.find_session(session_id) {
            Some(i) => {
                proof {
                    self.lemma_session_at(i as int);
                }
                self.sessions[i].page_counter == u64::MAX
            },
            None => false,
        }
    }

    /// The index of a live session, or the error that `session_error` reports.
    fn live_index(&self, id: &str) -> (r: Result<usize, BackendError>)
        requires
            self.wf(),
        ensures
            match r {
                Ok(i) => i < self.sessions@.len() && self.sessions@[i as int].session_id@ == id@
                    && session_error(self.model(), id@) is None,
                Err(e) => session_error(self.model(), id@) == Some(e@),
            },
    {
        match self.find_session(id) {
            None => Err(BackendError::msg(concat("unknown browser session: ", id))),
            Some(i) => {
                proof {
                    self.lemma_session_at(i as int);
                }
                if self.sessions[i].cancelled || self.root_cancelled {
                    Err(BackendError::msg(owned("session cancelled")))
                } else {
                    Ok(i)
                }
            },
        }
    }

    /// Opens `url` in the session: in the given page unless a new page is asked
    /// for, else in page `page_<n>` for the next counter value `n`. The page
    /// becomes the session's default page.
    pub fn navigate(&mut self, request: BrowserNavigateRequest) -> (r: Result<BrowserNavigateResult, BackendError>)
        requires
            old(self).wf(),
            old(self).model().sessions.contains_key(request.session_id@)
                ==> old(self).model().sessions[request.session_id@].page_counter < u64::MAX,
        ensures
            final(self).wf(),
            final(self).model() == navigate_spec(
                old(self).model(),
                request.session_id@,
                request.url@,
                opt_str(request.page_id),
                request.new_page,
            ).0,
            match r {
                Ok(res) => navigate_spec(
                    old(self).model(),
                    request.session_id@,
                    request.url@,
                    opt_str(request.page_id),
                    request.new_page,
                ).1 == Ok::<Seq<char>, Seq<char>>(res.page_id@) && res.url@ == request.url@ && opt_str(res.title)
                    == Some(mock_title()),
                Err(e) => navigate_spec(
                    old(self).model(),
                    request.session_id@,
                    request.url@,
                    opt_str(request.page_id),
                    request.new_page,
                ).1 == Err::<Seq<char>, Seq<char>>(e@),
            },
    {
        let i = match self.live_index(request.session_id.as_str()) {
            Ok(i) => i,
            Err(e) => return Err(e),
        };
        proof {
            self.lemma_session_at(i as int);
        }
        let ghost m = self.model();
        let mut s = self.sessions.remove(i);
        assert(session_wf(s));
        let reuse = request.page_id.is_some() && !request.new_page;
        let page_id: String = if reuse {
            match &request.page_id {
                Some(p) => p.clone(),
                None => owned(""),
            }
        } else {
            s.page_counter = s.page_counter + 1;
            let n = dec_string(s.page_counter);
            concat("page_", n.as_str())
        };
        let entry = PageEntry {
            page_id: page_id.clone(),
            url: request.url.clone(),
            title: Some(owned("Mock Page")),
        };
        let ghost old_pages = s.pages@;
        match find_page(&s.pages, page_id.as_str()) {
            Some(j) => {
                proof {
                    lemma_kmap_update(old_pages, page_key(), page_val(), j as int, entry);
                }
                let _prev = s.pages.remove(j);
                s.pages.insert(j, entry);
                assert(s.pages@ =~= old_pages.update(j as int, entry));
            },
            None => {
                proof {
                    lemma_kmap_push(old_pages, page_key(), page_val(), entry);
                }
                s.pages.push(entry);
            },
        }
        s.default_page_id = page_id.clone();
        let ghost s_new = s;
        self.sessions.insert(i, s);
        proof {
            assert(self.sessions@ =~= old(self).sessions@.update(i as int, s_new));
            lemma_kmap_update(old(self).sessions@, session_key(), session_val(), i as int, s_new);
            assert forall|j: int| 0 <= j < self.sessions@.len() implies session_wf(#[trigger] self.sessions@[j]) by {
                if j != i {
                    assert(self.sessions@[j] == old(self).sessions@[j]);
                }
            }
            assert((session_val())(s_new) == navigate_spec(
                m,
                request.session_id@,
                request.url@,
                opt_str(request.page_id),
                request.new_page,
            ).0.sessions[request.session_id@]);
        }
        Ok(BrowserNavigateResult { page_id, url: request.url, title: Some(owned("Mock Page")) })
    }

    fn page_at(&self, i: usize, pid: &str) -> (r: Option<(String, Option<String>)>)
        requires
            self.wf(),
            i < self.sessions@.len(),
        ensures
            ({
                let pages = (session_val())(self.sessions@[i as int]).pages;
                match r {
                    Some((u, t)) => pages.contains_key(pid@) && pages[pid@].url == u@ && pages[pid@].title == opt_str(t),
                    None => !pages.contains_key(pid@),
                }
            }),
    {
        let s = &self.sessions[i];
        assert(session_wf(self.sessions@[i as int]));
        match find_page(&s.pages, pid) {
            Some(j) => {
                proof {
                    lemma_kmap_at(s.pages@, page_key(), page_val(), j as int);
                }
                Some((s.pages[j].url.clone(), copy_opt(&s.pages[j].title)))
            },
            None => None,
        }
    }

    /// URL, title and readiness of a page of a live session (the default page
    /// when none is named; `about:blank` for a page never navigated).
    pub fn page_state(&self, session_id: &str, page_id: Option<&str>) -> (r: Result<BrowserPageState, BackendError>)
        requires
            self.wf(),
        ensures
            match r {
                Ok(st) => page_state_spec(
                    self.model(),
                    session_id@,
                    match page_id { Some(p) => Some(p@), None => None },
                ) == Ok::<(Seq<char>, Seq<char>, Option<Seq<char>>), Seq<char>>(
                    (st.page_id@, st.url@, opt_str(st.title)),
                ) && st.session_id@ == session_id@ && st.ready,
                Err(e) => page_state_spec(
                    self.model(),
                    session_id@,
                    match page_id { Some(p) => Some(p@), None => None },
                ) == Err::<(Seq<char>, Seq<char>, Option<Seq<char>>), Seq<char>>(e@),
            },
    {
        let i = match self.live_index(session_id) {
            Ok(i) => i,
            Err(e) => return Err(e),
        };
        proof {
            self.lemma_session_at(i as int);
        }
        let pid: String = match page_id {
            Some(p) => owned(p),
            None => self.sessions[i].default_page_id.clone(),
        };
        let (url, title) = match self.page_at(i, pid.as_str()) {
            Some((u, t)) => (u, t),
            None => (owned("about:blank"), Some(owned("Mock Blank"))),
        };
        Ok(BrowserPageState { session_id: owned(session_id), page_id: pid, url, title, ready: true })
    }

    /// The rendered fixture for a page of a live session.
    pub fn fetch_rendered(&self, request: BrowserFetchRenderedRequest) -> (r: Result<BrowserFetchRenderedResult, BackendError>)
        requires
            self.wf(),
        ensures
            match r {
                Ok(res) => fetch_spec(self.model(), request.session_id@, opt_str(request.page_id), opt_str(request.url))
                    == Ok::<(Seq<char>, Seq<char>, Option<Seq<char>>), Seq<char>>(
                    (res.page_id@, res.url@, opt_str(res.title)),
                ) && res.content_type@ == "text/html; charset=utf-8"@ && res.text@ == fixture_html(res.url@),
                Err(e) => fetch_spec(self.model(), request.session_id@, opt_str(request.page_id), opt_str(request.url))
                    == Err::<(Seq<char>, Seq<char>, Option<Seq<char>>), Seq<char>>(e@),
            },
    {
        let i = match self.live_index(request.session_id.as_str()) {
            Ok(i) => i,
            Err(e) => return Err(e),
        };
        proof {
            self.lemma_session_at(i as int);
        }
        let pid: String = match &request.page_id {
            Some(p) => p.clone(),
            None => self.sessions[i].default_page_id.clone(),
        };
        let page = self.page_at(i, pid.as_str());
        let url: String = match &request.url {
            Some(u) => u.clone(),
            None => match &page {
                Some((u, _)) => u.clone(),
                None => owned("about:blank"),
            },
        };
        let title: Option<String> = match &page {
            Some((_, Some(t))) => Some(t.clone()),
            _ => Some(owned("Mock Page")),
        };
        let text = concat3(
            "<!doctype html><html><head><title>Mock</title></head><body><h1>Mock rendered</h1><p>fixture for ",
            url.as_str(),
            "</p></body></html>",
        );
        Ok(BrowserFetchRenderedResult {
            page_id: pid,
            url,
            title,
            content_type: owned("text/html; charset=utf-8"),
            text,
        })
    }

    /// Best-effort click: succeeds on a live session.
    pub fn click(&self, request: BrowserActionRequest) -> (r: Result<BrowserActionResult, BackendError>)
        requires
            self.wf(),
        ensures
            match r {
                Ok(res) => session_error(self.model(), request.session_id@) is None && res.ok && res.detail@
                    == "mock click ok selector="@ + debug_str_spec(
                    match request.selector { Some(s) => s@, None => Seq::empty() },
                ),
                Err(e) => session_error(self.model(), request.session_id@) == Some(e@),
            },
    {
        match self.live_index(request.session_id.as_str()) {
            Ok(_) => {},
            Err(e) => return Err(e),
        }
        let sel: String = match &request.selector {
            Some(s) => s.clone(),
            None => String::new(),
        };
        let d = debug_str(sel.as_str());
        Ok(BrowserActionResult { ok: true, detail: concat("mock click ok selector=", d.as_str()) })
    }

    /// Best-effort typing: succeeds on a live session, reporting the byte length
    /// of the text.
    pub fn type_text(&self, request: BrowserActionRequest) -> (r: Result<BrowserActionResult, BackendError>)
        requires
            self.wf(),
        ensures
            match r {
                Ok(res) => session_error(self.model(), request.session_id@) is None && res.ok && res.detail@
                    == "mock type ok chars="@ + dec(
                    match request.text { Some(t) => (vstd::utf8::encode_utf8(t@).len() as usize) as nat, None => 0 },
                ),
                Err(e) => session_error(self.model(), request.session_id@) == Some(e@),
            },
    {
        match self.live_index(request.session_id.as_str()) {
            Ok(_) => {},
            Err(e) => return Err(e),
        }
        let n: usize = match &request.text {
            Some(t) => t.as_str().len(),
            None => 0,
        };
        let d = dec_string(n as u64);
        Ok(BrowserActionResult { ok: true, detail: concat("mock type ok chars=", d.as_str()) })
    }

    /// Best-effort wait: succeeds on a live session, reporting the timeout (0
    /// when none is given).
    pub fn wait(&self, request: BrowserActionRequest) -> (r: Result<BrowserActionResult, BackendError>)
        requires
            self.wf(),
        ensures
            match r {
                Ok(res) => session_error(self.model(), request.session_id@) is None && res.ok && res.detail@
                    == "mock wait ok timeout_ms="@ + dec(
                    match request.timeout_ms { Some(t) => t as nat, None => 0 },
                ),
                Err(e) => session_error(self.model(), request.session_id@) == Some(e@),
            },
    {
        match self.live_index(request.session_id.as_str()) {
            Ok(_) => {},
            Err(e) => return Err(e),
        }
        let t: u64 = match request.timeout_ms {
            Some(t) => t,
            None => 0,
        };
        let d = dec_string(t);
        Ok(BrowserActionResult { ok: true, detail: concat("mock wait ok timeout_ms=", d.as_str()) })
    }

    /// Cancels one session (removing it), or everything: then every session is
    /// dropped and the backend refuses new sessions.
    pub fn cancel(&mut self, session_id: Option<&str>) -> (r: BrowserActionResult)
        requires
            old(self).wf(),
        ensures
            final(self).wf(),
            final(self).model() == cancel_spec(old(self).model(), match session_id { Some(s) => Some(s@), None => None }).0,
            r.ok,
            r.detail@ == cancel_spec(old(self).model(), match session_id { Some(s) => Some(s@), None => None }).1,
    {
        match session_id {
            Some(id) => match self.find_session(id) {
                Some(i) => {
                    proof {
                        self.lemma_session_at(i as int);
                        lemma_kmap_remove(self.sessions@, session_key(), session_val(), i as int);
                    }
                    let _gone = self.sessions.remove(i);
                    proof {
                        assert forall|j: int| 0 <= j < self.sessions@.len() implies session_wf(#[trigger] self.sessions@[j]) by {
                            if j < i {
                                assert(self.sessions@[j] == old(self).sessions@[j]);
                            } else {
                                assert(self.sessions@[j] == old(self).sessions@[j + 1]);
                            }
                        }
                    }
                    BrowserActionResult { ok: true, detail: concat("cancelled session ", id) }
                },
                None => BrowserActionResult { ok: true, detail: concat3("no session ", id, " (already gone)") },
            },
            None => {
                self.root_cancelled = true;
                self.sessions = Vec::new();
                proof {
                    lemma_kmap_empty(self.sessions@, session_key(), session_val());
                }
                BrowserActionResult { ok: true, detail: owned("cancelled all sessions") }
            },
        }
    }
}


// ---------------------------------------------------------------------------
// Capability negotiation

/// The elements of `req` that `offered` holds (`keep`), or lacks (`!keep`), in order.
pub open spec fn filter_offered(req: Seq<BrowserCapability>, offered: Seq<BrowserCapability>, keep: bool) -> Seq<BrowserCapability>
    decreases req.len(),
{
    if req.len() == 0 {
        Seq::empty()
    } else {
        let f = filter_offered(req.drop_last(), offered, keep);
        if offered.contains(req.last()) == keep {
            f.push(req.last())
        } else {
            f
        }
    }
}

/// `granted` extended by each optional capability that is offered and not yet
/// granted, in order.
pub open spec fn add_optional(granted: Seq<BrowserCapability>, opt: Seq<BrowserCapability>, offered: Seq<BrowserCapability>) -> Seq<BrowserCapability>
    decreases opt.len(),
{
    if opt.len() == 0 {
        granted
    } else {
        let g = add_optional(granted, opt.drop_last(), offered);
        let c = opt.last();
        if offered.contains(c) && !g.contains(c) {
            g.push(c)
        } else {
            g
        }
    }
}

/// The capabilities granted: every offered one when nothing is asked for; else the
/// offered required ones, then the offered optional ones not already granted.
pub open spec fn granted_spec(req: Seq<BrowserCapability>, opt: Seq<BrowserCapability>, offered: Seq<BrowserCapability>) -> Seq<BrowserCapability> {
    if req.len() == 0 && opt.len() == 0 {
        offered
    } else {
        add_optional(filter_offered(req, offered, true), opt, offered)
    }
}

pub open spec fn incompatible_msg(requested: Seq<char>) -> Seq<char> {
    "incompatible browser protocol version: requested "@ + requested + ", provider "@ + BROWSER_PROVIDER_PROTOCOL_VERSION@
}

fn caps_contain(v: &Vec<BrowserCapability>, c: BrowserCapability) -> (r: bool)
    ensures
        r == v@.contains(c),
{
    let mut i: usize = 0;
    while i < v.len()
        invariant
            i <= v.len(),
            forall|j: int| 0 <= j < i ==> v@[j] != c,
        decreases v.len() - i,
    {
        if v[i] == c {
            return true;
        }
        i += 1;
    }
    false
}

fn filter_caps(req: &Vec<BrowserCapability>, offered: &Vec<BrowserCapability>, keep: bool) -> (r: Vec<BrowserCapability>)
    ensures
        r@ == filter_offered(req@, offered@, keep),
{
    let mut r: Vec<BrowserCapability> = Vec::new();
    let mut i: usize = 0;
    while i < req.len()
        invariant
            i <= req.len(),
            r@ == filter_offered(req@.take(i as int), offered@, keep),
        decreases req.len() - i,
    {
        let c = req[i];
        proof {
            assert(req@.take(i + 1).drop_last() == req@.take(i as int));
            assert(req@.take(i + 1).last() == c);
        }
        if caps_contain(offered, c) == keep {
            r.push(c);
        }
        i += 1;
    }
    assert(req@.take(req.len() as int) == req@);
    r
}

fn add_optional_caps(granted: &mut Vec<BrowserCapability>, opt: &Vec<BrowserCapability>, offered: &Vec<BrowserCapability>)
    ensures
        final(granted)@ == add_optional(old(granted)@, opt@, offered@),
{
    let ghost g0 = granted@;
    let mut i: usize = 0;
    while i < opt.len()
        invariant
            i <= opt.len(),
            granted@ == add_optional(g0, opt@.take(i as int), offered@),
        decreases opt.len() - i,
    {
        let c = opt[i];
        proof {
            assert(opt@.take(i + 1).drop_last() == opt@.take(i as int));
            assert(opt@.take(i + 1).last() == c);
        }
        if caps_contain(offered, c) && !caps_contain(granted, c) {
            granted.push(c);
        }
        i += 1;
    }
    assert(opt@.take(opt.len() as int) == opt@);
}

impl MockBackend {
    /// Negotiates capabilities for a request whose protocol major matches `0.1`.
    pub fn negotiate(&self, request: BrowserNegotiateRequest) -> (r: Result<BrowserNegotiateResult, BackendError>)
        ensures
            match r {
                Ok(res) => major_of(request.protocol_version@) == major_of(BROWSER_PROVIDER_PROTOCOL_VERSION@)
                    && res.protocol_version@ == BROWSER_PROVIDER_PROTOCOL_VERSION@
                    && descriptor_is(res.provider, "mock"@, "mock"@, mock_capabilities())
                    && res.missing_required@ == filter_offered(request.required_capabilities@, mock_capabilities(), false)
                    && res.granted_capabilities@ == granted_spec(
                        request.required_capabilities@,
                        request.optional_capabilities@,
                        mock_capabilities(),
                    )
                    && res.compatible == (res.missing_required@.len() == 0),
                Err(e) => major_of(request.protocol_version@) != major_of(BROWSER_PROVIDER_PROTOCOL_VERSION@)
                    && e@ == incompatible_msg(request.protocol_version@),
            },
    {
        if !protocol_compatible(request.protocol_version.as_str(), BROWSER_PROVIDER_PROTOCOL_VERSION) {
            let m = concat3(
                "incompatible browser protocol version: requested ",
                request.protocol_version.as_str(),
                ", provider ",
            );
            return Err(BackendError::msg(concat(m.as_str(), BROWSER_PROVIDER_PROTOCOL_VERSION)));
        }
        let provider = self.descriptor();
        let offered = mock_capability_list();
        let missing_required = filter_caps(&request.required_capabilities, &offered, false);
        let mut granted = filter_caps(&request.required_capabilities, &offered, true);
        add_optional_caps(&mut granted, &request.optional_capabilities, &offered);
        if request.required_capabilities.len() == 0 && request.optional_capabilities.len() == 0 {
            granted = offered;
        }
        let compatible = missing_required.len() == 0;
        Ok(BrowserNegotiateResult {
            protocol_version: owned(BROWSER_PROVIDER_PROTOCOL_VERSION),
            compatible,
            provider,
            granted_capabilities: granted,
            missing_required,
        })
    }
}

// ---------------------------------------------------------------------------
// CDP scaffold

/// Optional CDP path: launches only the allowlisted `BROWSER_BIN`. In this build
/// the session operations report that CDP is not wired.
pub struct CdpBackend {
    pub browser_bin: Option<String>,
    pub cdp_feature: bool,
}

pub open spec fn cdp_status_reason(browser_bin: Option<Seq<char>>, cdp_feature: bool) -> Option<Seq<char>> {
    match browser_bin {
        None => Some("BROWSER_BIN not set; CDP backend needs allowlisted browser binary path"@),
        Some(_) => if !cdp_feature {
            Some("rebuild with --features cdp to enable chromiumoxide CDP backend"@)
        } else {
            None
        },
    }
}

impl CdpBackend {
    /// A CDP backend for the given browser binary (empty means unset).
    pub fn new(browser_bin: Option<String>, cdp_feature: bool) -> (r: CdpBackend)
        ensures
            opt_str(r.browser_bin) == (match opt_str(browser_bin) {
                Some(b) => if b.len() == 0 { None } else { Some(b) },
                None => None,
            }),
            r.cdp_feature == cdp_feature,
    {
        let bin = match browser_bin {
            Some(b) => if b.as_str().is_empty() { None } else { Some(b) },
            None => None,
        };
        CdpBackend { browser_bin: bin, cdp_feature }
    }

    /// The CDP provider descriptor.
    pub fn descriptor(&self) -> (d: BrowserProviderDescriptor)
        ensures
            descriptor_is(d, "cdp"@, "chromium"@, seq![BrowserCapability::Navigate]),
    {
        let mut caps = Vec::new();
        caps.push(BrowserCapability::Navigate);
        assert(caps@ =~= seq![BrowserCapability::Navigate]);
        descriptor_of("cdp", "chromium", caps)
    }

    /// `Misconfigured` without a browser binary or without the CDP feature,
    /// `Available` with both.
    pub fn status(&self) -> (r: BrowserServiceStatus)
        ensures
            match cdp_status_reason(opt_str(self.browser_bin), self.cdp_feature) {
                Some(reason) => r matches BrowserServiceStatus::Misconfigured { reason: got } && got@ == reason,
                None => r matches BrowserServiceStatus::Available { provider_id, capabilities } && provider_id@
                    == "cdp"@ && capabilities@ == seq![BrowserCapability::Navigate],
            },
    {
        match &self.browser_bin {
            None => BrowserServiceStatus::Misconfigured {
                reason: owned("BROWSER_BIN not set; CDP backend needs allowlisted browser binary path"),
            },
            Some(_) => if !self.cdp_feature {
                BrowserServiceStatus::Misconfigured {
                    reason: owned("rebuild with --features cdp to enable chromiumoxide CDP backend"),
                }
            } else {
                let mut caps = Vec::new();
                caps.push(BrowserCapability::Navigate);
                assert(caps@ =~= seq![BrowserCapability::Navigate]);
                BrowserServiceStatus::Available { provider_id: owned("cdp"), capabilities: caps }
            },
        }
    }

    /// Grants the CDP capabilities when the protocol major matches and the
    /// backend is ready.
    pub fn negotiate(&self, request: BrowserNegotiateRequest) -> (r: Result<BrowserNegotiateResult, BackendError>)
        ensures
            major_of(request.protocol_version@) != major_of(BROWSER_PROVIDER_PROTOCOL_VERSION@) ==> (r matches Err(e)
                && e@ == "incompatible protocol version"@),
            major_of(request.protocol_version@) == major_of(BROWSER_PROVIDER_PROTOCOL_VERSION@) ==> match cdp_status_reason(
                opt_str(self.browser_bin),
                self.cdp_feature,
            ) {
                Some(reason) => r matches Err(e) && e@ == "cdp not ready: Misconfigured { reason: "@ + debug_str_spec(
                    reason,
                ) + " }"@,
                None => r matches Ok(res) && res.compatible && res.protocol_version@
                    == BROWSER_PROVIDER_PROTOCOL_VERSION@ && descriptor_is(
                    res.provider,
                    "cdp"@,
                    "chromium"@,
                    seq![BrowserCapability::Navigate],
                ) && res.granted_capabilities@ == seq![BrowserCapability::Navigate]
                    && res.missing_required@.len() == 0,
            },
    {
        if !protocol_compatible(request.protocol_version.as_str(), BROWSER_PROVIDER_PROTOCOL_VERSION) {
            return Err(BackendError::msg(owned("incompatible protocol version")));
        }
        let status = self.status();
        match status {
            BrowserServiceStatus::Available { .. } | BrowserServiceStatus::Degraded { .. } => {},
            BrowserServiceStatus::Misconfigured { reason } => {
                let d = debug_str(reason.as_str());
                let m = concat3("cdp not ready: Misconfigured { reason: ", d.as_str(), " }");
                return Err(BackendError::msg(m));
            },
            BrowserServiceStatus::Unavailable { reason } => {
                let d = debug_str(reason.as_str());
                let m = concat3("cdp not ready: Unavailable { reason: ", d.as_str(), " }");
                return Err(BackendError::msg(m));
            },
        }
        let provider = self.descriptor();
        let mut granted = Vec::new();
        granted.push(BrowserCapability::Navigate);
        assert(granted@ =~= seq![BrowserCapability::Navigate]);
        Ok(BrowserNegotiateResult {
            protocol_version: owned(BROWSER_PROVIDER_PROTOCOL_VERSION),
            compatible: true,
            granted_capabilities: granted,
            missing_required: Vec::new(),
            provider,
        })
    }

    /// Session open is not wired for CDP.
    pub fn ensure_session(&self, _request: BrowserSessionEnsureRequest) -> (r: Result<BrowserSessionHandle, BackendError>)
        ensures
            r matches Err(e) && e@ == (if self.cdp_feature {
                "CDP session open scaffold: chromiumoxide feature present but session API not wired yet; use --mock"@
            } else {
                "CDP session open not available; use --mock or rebuild with --features cdp and set BROWSER_BIN"@
            }),
    {
        if self.cdp_feature {
            Err(BackendError::msg(owned("CDP session open scaffold: chromiumoxide feature present but session API not wired yet; use --mock")))
        } else {
            Err(BackendError::msg(owned("CDP session open not available; use --mock or rebuild with --features cdp and set BROWSER_BIN")))
        }
    }

    pub fn close_session(&self, _session_id: &str) -> (r: Result<(), BackendError>)
        ensures
            r matches Err(e) && e@ == "cdp session close unavailable"@,
    {
        Err(BackendError::msg(owned("cdp session close unavailable")))
    }

    pub fn navigate(&self, _request: BrowserNavigateRequest) -> (r: Result<BrowserNavigateResult, BackendError>)
        ensures
            r matches Err(e) && e@ == "cdp navigate unavailable"@,
    {
        Err(BackendError::msg(owned("cdp navigate unavailable")))
    }

    pub fn page_state(&self, _session_id: &str, _page_id: Option<&str>) -> (r: Result<BrowserPageState, BackendError>)
        ensures
            r matches Err(e) && e@ == "cdp page_state unavailable"@,
    {
        Err(BackendError::msg(owned("cdp page_state unavailable")))
    }

    pub fn fetch_rendered(&self, _request: BrowserFetchRenderedRequest) -> (r: Result<BrowserFetchRenderedResult, BackendError>)
        ensures
            r matches Err(e) && e@ == "cdp fetch_rendered unavailable"@,
    {
        Err(BackendError::msg(owned("cdp fetch_rendered unavailable")))
    }

    pub fn click(&self, _request: BrowserActionRequest) -> (r: Result<BrowserActionResult, BackendError>)
        ensures
            r matches Err(e) && e@ == "cdp click unavailable"@,
    {
        Err(BackendError::msg(owned("cdp click unavailable")))
    }

    pub fn type_text(&self, _request: BrowserActionRequest) -> (r: Result<BrowserActionResult, BackendError>)
        ensures
            r matches Err(e) && e@ == "cdp type unavailable"@,
    {
        Err(BackendError::msg(owned("cdp type unavailable")))
    }

    pub fn wait(&self, _request: BrowserActionRequest) -> (r: Result<BrowserActionResult, BackendError>)
        ensures
            r matches Err(e) && e@ == "cdp wait unavailable"@,
    {
        Err(BackendError::msg(owned("cdp wait unavailable")))
    }

    pub fn cancel(&self, _session_id: Option<&str>) -> (r: BrowserActionResult)
        ensures
            r.ok && r.detail@ == "cdp cancel no-op"@,
    {
        BrowserActionResult { ok: true, detail: owned("cdp cancel no-op") }
    }
}

fn find_page(pages: &Vec<PageEntry>, id: &str) -> (r: Option<usize>)
    ensures
        match r {
            Some(i) => i < pages@.len() && pages@[i as int].page_id@ == id@,
            None => !has_key(pages@, page_key(), id@),
        },
{
    let mut i: usize = 0;
    while i < pages.len()
        invariant
            i <= pages.len(),
            forall|j: int| 0 <= j < i ==> pages@[j].page_id@ != id@,
        decreases pages.len() - i,
    {
        if str_eq(pages[i].page_id.as_str(), id) {
            return Some(i);
        }
        i += 1;
    }
    assert forall|j: int| 0 <= j < pages@.len() implies (page_key())(pages@[j]) != id@ by {}
    None
}


// ---------------------------------------------------------------------------
// Laws of the mock backend

/// A page that was navigated reads back: its page state has the URL navigated
/// and the mock title, whether asked for by id or as the session's default page.
pub proof fn lemma_navigate_then_page_state(
    m: MockV,
    sid: Seq<char>,
    url: Seq<char>,
    page_id: Option<Seq<char>>,
    new_page: bool,
)
    requires
        navigate_spec(m, sid, url, page_id, new_page).1 is Ok,
    ensures
        ({
            let (m2, res) = navigate_spec(m, sid, url, page_id, new_page);
            let p = res->Ok_0;
            &&& page_state_spec(m2, sid, Some(p)) == Ok::<(Seq<char>, Seq<char>, Option<Seq<char>>), Seq<char>>(
                (p, url, Some(mock_title())),
            )
            &&& page_state_spec(m2, sid, None) == Ok::<(Seq<char>, Seq<char>, Option<Seq<char>>), Seq<char>>(
                (p, url, Some(mock_title())),
            )
            &&& fetch_spec(m2, sid, None, None) == Ok::<(Seq<char>, Seq<char>, Option<Seq<char>>), Seq<char>>(
                (p, url, Some(mock_title())),
            )
        }),
{
}

/// A closed session is gone: using it or closing it again reports it unknown.
pub proof fn lemma_close_then_unknown(m: MockV, sid: Seq<char>)
    requires
        close_session_spec(m, sid).1 is Ok,
    ensures
        session_error(close_session_spec(m, sid).0, sid) == Some(unknown_session_msg(sid)),
        close_session_spec(close_session_spec(m, sid).0, sid).1 == Err::<(), Seq<char>>(unknown_session_msg(sid)),
{
}

/// Ensuring a session yields a live session with that id.
pub proof fn lemma_ensure_then_live(m: MockV, client: Seq<char>)
    requires
        ensure_session_spec(m, client).1 is Ok,
    ensures
        session_error(ensure_session_spec(m, client).0, ensure_session_spec(m, client).1->Ok_0) is None,
{
}

/// Ensuring the same session twice is the same as ensuring it once.
pub proof fn lemma_ensure_idempotent(m: MockV, client: Seq<char>)
    ensures
        ({
            let (m1, r1) = ensure_session_spec(m, client);
            let (m2, r2) = ensure_session_spec(m1, client);
            m2 == m1 && r2 == r1
        }),
{
}

/// Cancelling everything reports `cancelled all sessions`, leaves no session
/// (closing any id then reports it unknown), marks the backend cancelled (so
/// `status` reports it unavailable), and refuses every later session.
pub proof fn lemma_cancel_all_refuses_sessions(m: MockV, client: Seq<char>, sid: Seq<char>)
    ensures
        cancel_spec(m, None).1 == "cancelled all sessions"@,
        cancel_spec(m, None).0.root_cancelled,
        cancel_spec(m, None).0.sessions.dom().len() == 0,
        !cancel_spec(m, None).0.sessions.contains_key(sid),
        close_session_spec(cancel_spec(m, None).0, sid).1 == Err::<(), Seq<char>>(unknown_session_msg(sid)),
        ensure_session_spec(cancel_spec(m, None).0, client).1 == Err::<Seq<char>, Seq<char>>("backend cancelled"@),
{
}

/// Cancelling one session reports it cancelled (or already gone), removes it
/// (closing it then reports it unknown), and leaves every other session and the
/// backend's own state as they were.
pub proof fn lemma_cancel_session_removes(m: MockV, sid: Seq<char>, other: Seq<char>)
    requires
        other != sid,
    ensures
        cancel_spec(m, Some(sid)).1 == (if m.sessions.contains_key(sid) {
            "cancelled session "@ + sid
        } else {
            "no session "@ + sid + " (already gone)"@
        }),
        session_error(cancel_spec(m, Some(sid)).0, sid) == Some(unknown_session_msg(sid)),
        close_session_spec(cancel_spec(m, Some(sid)).0, sid).1 == Err::<(), Seq<char>>(unknown_session_msg(sid)),
        cancel_spec(m, Some(sid)).0.root_cancelled == m.root_cancelled,
        cancel_spec(m, Some(sid)).0.sessions.contains_key(other) == m.sessions.contains_key(other),
        m.sessions.contains_key(other) ==> cancel_spec(m, Some(sid)).0.sessions[other] == m.sessions[other],
{
}

proof fn lemma_filter_offered(req: Seq<BrowserCapability>, offered: Seq<BrowserCapability>, keep: bool)
    ensures
        forall|i: int| 0 <= i < filter_offered(req, offered, keep).len() ==> offered.contains(
            #[trigger] filter_offered(req, offered, keep)[i],
        ) == keep,
        forall|c: BrowserCapability| req.contains(c) && offered.contains(c) == keep ==> #[trigger] filter_offered(
            req,
            offered,
            keep,
        ).contains(c),
    decreases req.len(),
{
    if req.len() > 0 {
        lemma_filter_offered(req.drop_last(), offered, keep);
        let f = filter_offered(req.drop_last(), offered, keep);
        assert forall|c: BrowserCapability| req.contains(c) && offered.contains(c) == keep implies #[trigger] filter_offered(
            req,
            offered,
            keep,
        ).contains(c) by {
            let i = choose|i: int| 0 <= i < req.len() && req[i] == c;
            if i < req.len() - 1 {
                assert(req.drop_last()[i] == c);
                assert(req.drop_last().contains(c));
                assert(f.contains(c));
                let k = choose|k: int| 0 <= k < f.len() && f[k] == c;
                if offered.contains(req.last()) == keep {
                    assert(f.push(req.last())[k] == c);
                }
            } else {
                assert(f.push(req.last())[f.len() as int] == c);
            }
        }
        assert forall|i: int| 0 <= i < filter_offered(req, offered, keep).len() implies offered.contains(
            #[trigger] filter_offered(req, offered, keep)[i],
        ) == keep by {
            if i < f.len() {
                assert(filter_offered(req, offered, keep)[i] == f[i]);
            }
        }
    }
}

proof fn lemma_add_optional(g: Seq<BrowserCapability>, opt: Seq<BrowserCapability>, offered: Seq<BrowserCapability>)
    requires
        forall|i: int| 0 <= i < g.len() ==> offered.contains(#[trigger] g[i]),
    ensures
        forall|i: int| 0 <= i < add_optional(g, opt, offered).len() ==> offered.contains(
            #[trigger] add_optional(g, opt, offered)[i],
        ),
        forall|c: BrowserCapability| #[trigger] g.contains(c) ==> add_optional(g, opt, offered).contains(c),
    decreases opt.len(),
{
    if opt.len() > 0 {
        lemma_add_optional(g, opt.drop_last(), offered);
        let h = add_optional(g, opt.drop_last(), offered);
        assert forall|i: int| 0 <= i < add_optional(g, opt, offered).len() implies offered.contains(
            #[trigger] add_optional(g, opt, offered)[i],
        ) by {
            if i < h.len() {
                assert(add_optional(g, opt, offered)[i] == h[i]);
            }
        }
        assert forall|c: BrowserCapability| #[trigger] g.contains(c) implies add_optional(g, opt, offered).contains(c) by {
            assert(h.contains(c));
            let k = choose|k: int| 0 <= k < h.len() && h[k] == c;
            if offered.contains(opt.last()) && !h.contains(opt.last()) {
                assert(h.push(opt.last())[k] == c);
            }
        }
    }
}

/// Negotiation grants only offered capabilities, reports as missing exactly the
/// required ones not offered, and grants every required one that is offered.
pub proof fn lemma_negotiate_sound(req: Seq<BrowserCapability>, opt: Seq<BrowserCapability>, offered: Seq<BrowserCapability>)
    ensures
        forall|i: int| 0 <= i < granted_spec(req, opt, offered).len() ==> offered.contains(
            #[trigger] granted_spec(req, opt, offered)[i],
        ),
        forall|i: int| 0 <= i < filter_offered(req, offered, false).len() ==> !offered.contains(
            #[trigger] filter_offered(req, offered, false)[i],
        ),
        forall|c: BrowserCapability| req.contains(c) && !offered.contains(c) ==> #[trigger] filter_offered(
            req,
            offered,
            false,
        ).contains(c),
        forall|c: BrowserCapability| req.contains(c) && offered.contains(c) ==> #[trigger] granted_spec(
            req,
            opt,
            offered,
        ).contains(c),
        (filter_offered(req, offered, false).len() == 0) == (forall|c: BrowserCapability| #[trigger] req.contains(c) ==> offered.contains(c)),
{
    lemma_filter_offered(req, offered, true);
    lemma_filter_offered(req, offered, false);
    let kept = filter_offered(req, offered, true);
    if !(req.len() == 0 && opt.len() == 0) {
        lemma_add_optional(kept, opt, offered);
    } else {
        assert forall|i: int| 0 <= i < offered.len() implies offered.contains(#[trigger] offered[i]) by {}
    }
    let missing = filter_offered(req, offered, false);
    lemma_filter_subset(req, offered, false);
    assert forall|c: BrowserCapability| req.contains(c) && offered.contains(c) implies #[trigger] granted_spec(
        req,
        opt,
        offered,
    ).contains(c) by {
        assert(kept.contains(c));
    }
    if missing.len() != 0 {
        let c = missing[0];
        assert(!offered.contains(c));
        assert(req.contains(c));
    } else {
        assert forall|c: BrowserCapability| #[trigger] req.contains(c) implies offered.contains(c) by {
            if !offered.contains(c) {
                assert(missing.contains(c));
            }
        }
    }
}

proof fn lemma_filter_subset(req: Seq<BrowserCapability>, offered: Seq<BrowserCapability>, keep: bool)
    ensures
        forall|i: int| 0 <= i < filter_offered(req, offered, keep).len() ==> req.contains(
            #[trigger] filter_offered(req, offered, keep)[i],
        ),
    decreases req.len(),
{
    if req.len() > 0 {
        lemma_filter_subset(req.drop_last(), offered, keep);
        let f = filter_offered(req.drop_last(), offered, keep);
        assert forall|i: int| 0 <= i < filter_offered(req, offered, keep).len() implies req.contains(
            #[trigger] filter_offered(req, offered, keep)[i],
        ) by {
            if i < f.len() {
                let c = f[i];
                assert(filter_offered(req, offered, keep)[i] == c);
                let k = choose|k: int| 0 <= k < req.drop_last().len() && req.drop_last()[k] == c;
                assert(req[k] == c);
            } else {
                assert(req[req.len() - 1] == req.last());
            }
        }
    }
}


/// Fetching with a URL renders that URL: on a live session the result's URL is
/// the one asked for and the fixture text names it; a fetch succeeds exactly
/// when the session is live.
pub proof fn lemma_fetch_uses_requested_url(m: MockV, sid: Seq<char>, page_id: Option<Seq<char>>, url: Seq<char>)
    ensures
        fetch_spec(m, sid, page_id, Some(url)) is Ok <==> session_error(m, sid) is None,
        fetch_spec(m, sid, page_id, Some(url)) is Ok ==> fetch_spec(m, sid, page_id, Some(url))->Ok_0.1 == url,
        has_infix(fixture_html(url), url),
{
    let pre = "<!doctype html><html><head><title>Mock</title></head><body><h1>Mock rendered</h1><p>fixture for "@;
    let h = fixture_html(url);
    assert(h.subrange(pre.len() as int, (pre.len() + url.len()) as int) =~= url);
    assert(occurs_at(h, url, pre.len() as int));
}

} // verus!
