//! One long-lived language-server session: its configuration, what `lsp_start`,
//! `lsp_stop`, `lsp_restart` and `lsp_status` decide, the published diagnostics,
//! and how messages from the server are sorted.
use vstd::prelude::*;
use crate::json::{Json, JsonV, push_field, object, array, fields_v, elems_v, set_entry, set_field, lookup,
    lemma_lookup_set_entry, lemma_obj_view};
use crate::text::{owned, str_eq, views_s};
use crate::lsp_protocol::{json_id_u64, json_id_spec, allowed_request_methods, is_allowed_request,
    args_list_spec, parse_args_list};
use crate::json::{obj1, obj2, obj3, obj4, obj5, arr1, arr2, arr3, typed, typed_spec};
use crate::mcp::{ToolDef, push_tool_def, object_schema, required_schema, described_string,
    object_schema_json, required_schema_json, described_string_json};

verus! {

/// How to start a language server.
pub struct StartConfig {
    pub command: String,
    pub args: Vec<String>,
    pub workspace: String,
    pub mock: bool,
}

/// A start configuration as values: command, arguments, workspace, mock.
pub type StartConfigV = (Seq<char>, Seq<Seq<char>>, Seq<char>, bool);

impl View for StartConfig {
    type V = StartConfigV;

    open spec fn view(&self) -> StartConfigV {
        (self.command@, views_s(self.args@), self.workspace@, self.mock)
    }
}

/// A copy of a list of strings.
pub fn copy_strings(v: &Vec<String>) -> (r: Vec<String>)
    ensures
        views_s(r@) == views_s(v@),
{
    let mut r: Vec<String> = Vec::new();
    let mut i: usize = 0;
    while i < v.len()
        invariant
            i <= v.len(),
            views_s(r@) == views_s(v@).take(i as int),
        decreases v.len() - i,
    {
        let ghost old_r = r@;
        r.push(owned(v[i].as_str()));
        assert(views_s(r@) =~= views_s(old_r).push(v@[i as int]@));
        assert(views_s(v@).take(i + 1) =~= views_s(v@).take(i as int).push(v@[i as int]@));
        i += 1;
    }
    assert(views_s(v@).take(v.len() as int) =~= views_s(v@));
    r
}

impl StartConfig {
    /// A copy of the configuration.
    pub fn copy(&self) -> (r: StartConfig)
        ensures
            r@ == self@,
    {
        StartConfig {
            command: owned(self.command.as_str()),
            args: copy_strings(&self.args),
            workspace: owned(self.workspace.as_str()),
            mock: self.mock,
        }
    }
}

/// What `lsp_status` reports.
pub struct SessionInfo {
    pub running: bool,
    pub mock: bool,
    pub command: Option<String>,
    pub args: Vec<String>,
    pub workspace: Option<String>,
}

pub open spec fn opt_v(o: Option<String>) -> Option<Seq<char>> {
    match o {
        Some(s) => Some(s@),
        None => None,
    }
}

pub type SessionInfoV = (bool, bool, Option<Seq<char>>, Seq<Seq<char>>, Option<Seq<char>>);

impl View for SessionInfo {
    type V = SessionInfoV;

    open spec fn view(&self) -> SessionInfoV {
        (self.running, self.mock, opt_v(self.command), views_s(self.args@), opt_v(self.workspace))
    }
}

/// The session: the running server's configuration, if any, and the defaults
/// that `lsp_start` falls back on.
pub struct LspSession {
    live: Option<StartConfig>,
    default_command: Option<String>,
    default_args: Vec<String>,
    default_workspace: Option<String>,
    prefer_mock: bool,
}

/// The session as values.
pub struct LspSessionV {
    pub live: Option<StartConfigV>,
    pub default_command: Option<Seq<char>>,
    pub default_args: Seq<Seq<char>>,
    pub default_workspace: Option<Seq<char>>,
    pub prefer_mock: bool,
}

impl View for LspSession {
    type V = LspSessionV;

    closed spec fn view(&self) -> LspSessionV {
        LspSessionV {
            live: match self.live {
                Some(c) => Some(c@),
                None => None,
            },
            default_command: opt_v(self.default_command),
            default_args: views_s(self.default_args@),
            default_workspace: opt_v(self.default_workspace),
            prefer_mock: self.prefer_mock,
        }
    }
}

/// What `lsp_status` reports for a session.
pub open spec fn info_spec(s: LspSessionV) -> SessionInfoV {
    match s.live {
        Some(c) => (true, c.3, Some(c.0), c.1, Some(c.2)),
        None => (false, s.prefer_mock, s.default_command, s.default_args, s.default_workspace),
    }
}

/// The configuration a start request runs with, or why it is refused: empty
/// fields take the defaults (the workspace falls back to `cwd`), the session's
/// mock preference wins, a real server needs a command, and only one session runs.
pub open spec fn prepare_start_spec(s: LspSessionV, cfg: StartConfigV, cwd: Seq<char>) -> Result<StartConfigV, Seq<char>> {
    let command = if cfg.0.len() == 0 && s.default_command is Some { s.default_command->0 } else { cfg.0 };
    let args = if cfg.1.len() == 0 && s.default_args.len() != 0 { s.default_args } else { cfg.1 };
    let workspace = if cfg.2.len() == 0 {
        match s.default_workspace {
            Some(w) => w,
            None => cwd,
        }
    } else {
        cfg.2
    };
    let mock = cfg.3 || s.prefer_mock;
    if !mock && command.len() == 0 {
        Err("lsp_start: command required (tool arg, --command, or IMPETUS_LSP_COMMAND)"@)
    } else if s.live is Some {
        Err("LSP session already running; call lsp_stop or lsp_restart"@)
    } else {
        Ok((command, args, workspace, mock))
    }
}

/// What the running session records of a configuration: the mock server runs
/// as `mock-ls --mock`.
pub open spec fn live_spec(cfg: StartConfigV) -> StartConfigV {
    if cfg.3 {
        ("mock-ls"@, seq!["--mock"@], cfg.2, true)
    } else {
        cfg
    }
}

pub open spec fn cfg_result_v(r: Result<StartConfig, String>) -> Result<StartConfigV, Seq<char>> {
    match r {
        Ok(c) => Ok(c@),
        Err(e) => Err(e@),
    }
}

fn copy_opt(o: &Option<String>) -> (r: Option<String>)
    ensures
        opt_v(r) == opt_v(*o),
{
    match o {
        Some(s) => Some(owned(s.as_str())),
        None => None,
    }
}

impl LspSession {
    /// A session with nothing running.
    pub fn new(prefer_mock: bool, default_command: Option<String>, default_args: Vec<String>, default_workspace: Option<String>) -> (r: LspSession)
        ensures
            r@ == (LspSessionV {
                live: None,
                default_command: opt_v(default_command),
                default_args: views_s(default_args@),
                default_workspace: opt_v(default_workspace),
                prefer_mock,
            }),
    {
        LspSession { live: None, default_command, default_args, default_workspace, prefer_mock }
    }

    /// Whether a server is running.
    pub fn is_running(&self) -> (r: bool)
        ensures
            r == self@.live is Some,
    {
        self.live.is_some()
    }

    /// What `lsp_status` reports.
    pub fn info(&self) -> (r: SessionInfo)
        ensures
            r@ == info_spec(self@),
    {
        match &self.live {
            Some(c) => SessionInfo {
                running: true,
                mock: c.mock,
                command: Some(owned(c.command.as_str())),
                args: copy_strings(&c.args),
                workspace: Some(owned(c.workspace.as_str())),
            },
            None => SessionInfo {
                running: false,
                mock: self.prefer_mock,
                command: copy_opt(&self.default_command),
                args: copy_strings(&self.default_args),
                workspace: copy_opt(&self.default_workspace),
            },
        }
    }

    /// Fills in a start request and checks it may run.
    pub fn prepare_start(&self, cfg: StartConfig, cwd: &str) -> (r: Result<StartConfig, String>)
        ensures
            cfg_result_v(r) == prepare_start_spec(self@, cfg@, cwd@),
    {
        let mut cfg = cfg;
        if cfg.command.as_str().is_empty() {
            match &self.default_command {
                Some(c) => { cfg.command = owned(c.as_str()); },
                None => {},
            }
        }
        if cfg.args.len() == 0 && self.default_args.len() != 0 {
            cfg.args = copy_strings(&self.default_args);
        }
        if cfg.workspace.as_str().is_empty() {
            match &self.default_workspace {
                Some(w) => { cfg.workspace = owned(w.as_str()); },
                None => { cfg.workspace = owned(cwd); },
            }
        }
        if self.prefer_mock {
            cfg.mock = true;
        }
        if !cfg.mock && cfg.command.as_str().is_empty() {
            return Err(owned("lsp_start: command required (tool arg, --command, or IMPETUS_LSP_COMMAND)"));
        }
        if self.live.is_some() {
            return Err(owned("LSP session already running; call lsp_stop or lsp_restart"));
        }
        Ok(cfg)
    }

    /// Records that a server started with `cfg` is running.
    pub fn record_start(&mut self, cfg: &StartConfig)
        ensures
            final(self)@ == (LspSessionV { live: Some(live_spec(cfg@)), ..old(self)@ }),
    {
        let live = if cfg.mock {
            let mut a: Vec<String> = Vec::new();
            a.push(owned("--mock"));
            assert(views_s(a@) =~= seq!["--mock"@]);
            StartConfig { command: owned("mock-ls"), args: a, workspace: owned(cfg.workspace.as_str()), mock: true }
        } else {
            cfg.copy()
        };
        self.live = Some(live);
    }

    /// Takes the running server's configuration, leaving nothing running.
    pub fn take_live(&mut self) -> (r: Option<StartConfig>)
        ensures
            final(self)@ == (LspSessionV { live: None, ..old(self)@ }),
            match r {
                Some(c) => old(self)@.live == Some(c@),
                None => old(self)@.live is None,
            },
    {
        let r = self.live.take();
        r
    }

    /// The configuration a restart runs with: the one given, else the running
    /// server's.
    pub fn restart_config(&self, cfg: Option<StartConfig>) -> (r: Result<StartConfig, String>)
        ensures
            cfg_result_v(r) == (match cfg {
                Some(c) => Ok(c@),
                None => match self@.live {
                    Some(l) => Ok(l),
                    None => Err("lsp_restart: no prior session and no start config provided"@),
                },
            }),
    {
        match cfg {
            Some(c) => Ok(c),
            None => match &self.live {
                Some(l) => Ok(l.copy()),
                None => Err(owned("lsp_restart: no prior session and no start config provided")),
            },
        }
    }

    /// Requests need a running server.
    pub fn require_live(&self) -> (r: Result<(), String>)
        ensures
            r is Ok <==> self@.live is Some,
            r matches Err(e) ==> e@ == "LSP not started; call lsp_start first"@,
    {
        if self.live.is_some() {
            Ok(())
        } else {
            Err(owned("LSP not started; call lsp_start first"))
        }
    }

    /// A generic request must name an allowlisted method and needs a running
    /// server.
    pub fn check_request(&self, method: &str) -> (r: Result<(), String>)
        ensures
            r is Ok <==> allowed_request_methods().contains(method@) && self@.live is Some,
            r matches Err(e) ==> !allowed_request_methods().contains(method@) ==> e@ == "method `"@ + method@
                + "` not on allowlist; use convenience tools or allowed LSP methods"@,
            r matches Err(e) ==> allowed_request_methods().contains(method@) ==> e@ == "LSP not started; call lsp_start first"@,
    {
        if !is_allowed_request(method) {
            return Err(crate::text::concat3(
                "method `",
                method,
                "` not on allowlist; use convenience tools or allowed LSP methods",
            ));
        }
        self.require_live()
    }
}

/// Starting records the server, and status then reports it running with the
/// configuration it runs with.
pub proof fn lemma_start_then_running(s: LspSessionV, cfg: StartConfigV, cwd: Seq<char>)
    requires
        prepare_start_spec(s, cfg, cwd) is Ok,
    ensures
        s.live is None,
        info_spec(LspSessionV { live: Some(live_spec(prepare_start_spec(s, cfg, cwd)->Ok_0)), ..s }).0,
        ({
            let c = prepare_start_spec(s, cfg, cwd)->Ok_0;
            c.3 || c.0.len() > 0
        }),
{
}

/// While a server runs, every start request is refused.
pub proof fn lemma_start_refused_while_running(s: LspSessionV, cfg: StartConfigV, cwd: Seq<char>)
    requires
        s.live is Some,
    ensures
        prepare_start_spec(s, cfg, cwd) is Err,
{
}

/// A restart without a configuration, after a start, stops the server and
/// starts it again with the configuration it ran with, and that start is accepted.
pub proof fn lemma_restart_reuses_live(s: LspSessionV, cfg: StartConfigV, cwd: Seq<char>, cwd2: Seq<char>)
    requires
        prepare_start_spec(s, cfg, cwd) is Ok,
    ensures
        ({
            let started = LspSessionV { live: Some(live_spec(prepare_start_spec(s, cfg, cwd)->Ok_0)), ..s };
            let stopped = LspSessionV { live: None, ..started };
            &&& started.live == Some(live_spec(prepare_start_spec(s, cfg, cwd)->Ok_0))
            &&& prepare_start_spec(stopped, started.live->0, cwd2) is Ok
        }),
{
    let c = prepare_start_spec(s, cfg, cwd)->Ok_0;
    let l = live_spec(c);
    if l.3 {
        assert(l.0 == "mock-ls"@);
    }
}

/// Stopping leaves nothing running, whatever ran before.
pub proof fn lemma_stop_then_not_running(s: LspSessionV)
    ensures
        !info_spec(LspSessionV { live: None, ..s }).0,
{
}

/// What `lsp_start` answers once the server is up.
pub open spec fn start_reply_spec(cfg: StartConfigV, init: JsonV) -> JsonV {
    JsonV::Obj(seq![
        ("started"@, JsonV::Bool(true)),
        ("mock"@, JsonV::Bool(cfg.3)),
        ("command"@, JsonV::Str(if cfg.3 { "mock-ls"@ } else { cfg.0 })),
        ("args"@, JsonV::Arr(cfg.1.map_values(|a: Seq<char>| JsonV::Str(a)))),
        ("workspace"@, JsonV::Str(cfg.2)),
        ("initialize"@, init),
    ])
}

/// A list of strings as a JSON array.
pub fn string_array(v: &Vec<String>) -> (r: Json)
    ensures
        r@ == JsonV::Arr(views_s(v@).map_values(|a: Seq<char>| JsonV::Str(a))),
{
    let mut e: Vec<Json> = Vec::new();
    let mut i: usize = 0;
    while i < v.len()
        invariant
            i <= v.len(),
            elems_v(e@) == views_s(v@).take(i as int).map_values(|a: Seq<char>| JsonV::Str(a)),
        decreases v.len() - i,
    {
        let ghost old_e = elems_v(e@);
        crate::json::push_elem(&mut e, Json::string(v[i].as_str()));
        assert(views_s(v@).take(i + 1) =~= views_s(v@).take(i as int).push(v@[i as int]@));
        assert(elems_v(e@) =~= views_s(v@).take(i + 1).map_values(|a: Seq<char>| JsonV::Str(a)));
        i += 1;
    }
    assert(views_s(v@).take(v.len() as int) =~= views_s(v@));
    array(e)
}

/// The answer to a successful `lsp_start`.
pub fn start_reply(cfg: &StartConfig, init: Json) -> (r: Json)
    ensures
        r@ == start_reply_spec(cfg@, init@),
{
    let ghost iv = init@;
    let mut f: Vec<(String, Json)> = Vec::new();
    push_field(&mut f, "started", Json::Bool(true));
    push_field(&mut f, "mock", Json::Bool(cfg.mock));
    let command = if cfg.mock { owned("mock-ls") } else { owned(cfg.command.as_str()) };
    push_field(&mut f, "command", Json::Str(command));
    push_field(&mut f, "args", string_array(&cfg.args));
    push_field(&mut f, "workspace", Json::string(cfg.workspace.as_str()));
    push_field(&mut f, "initialize", init);
    assert(fields_v(f@) =~= start_reply_spec(cfg@, iv)->Obj_0);
    object(f)
}

/// What `lsp_stop` answers.
pub open spec fn stop_reply_spec(was_running: bool) -> JsonV {
    if was_running {
        JsonV::Obj(seq![("stopped"@, JsonV::Bool(true))])
    } else {
        JsonV::Obj(seq![("stopped"@, JsonV::Bool(false)), ("reason"@, JsonV::Str("not running"@))])
    }
}

/// The answer to `lsp_stop`.
pub fn stop_reply(was_running: bool) -> (r: Json)
    ensures
        r@ == stop_reply_spec(was_running),
{
    let mut f: Vec<(String, Json)> = Vec::new();
    push_field(&mut f, "stopped", Json::Bool(was_running));
    if !was_running {
        push_field(&mut f, "reason", Json::string("not running"));
    }
    assert(fields_v(f@) =~= stop_reply_spec(was_running)->Obj_0);
    object(f)
}

/// The answer to `lsp_cancel`.
pub fn cancel_reply(id: u64) -> (r: Json)
    ensures
        r@ == JsonV::Obj(seq![("cancelled"@, JsonV::UInt(id))]),
{
    let mut f: Vec<(String, Json)> = Vec::new();
    push_field(&mut f, "cancelled", Json::UInt(id));
    assert(fields_v(f@) =~= seq![("cancelled"@, JsonV::UInt(id))]);
    object(f)
}

/// The parameters of `$/cancelRequest`.
pub fn cancel_params(id: u64) -> (r: Json)
    ensures
        r@ == JsonV::Obj(seq![("id"@, JsonV::UInt(id))]),
{
    let mut f: Vec<(String, Json)> = Vec::new();
    push_field(&mut f, "id", Json::UInt(id));
    assert(fields_v(f@) =~= seq![("id"@, JsonV::UInt(id))]);
    object(f)
}

/// The capabilities the client announces.
pub open spec fn client_capabilities_spec() -> JsonV {
    JsonV::Obj(seq![
        ("textDocument"@, JsonV::Obj(seq![
            ("hover"@, JsonV::Obj(seq![("contentFormat"@, JsonV::Arr(seq![JsonV::Str("markdown"@), JsonV::Str("plaintext"@)]))])),
            ("publishDiagnostics"@, JsonV::Obj(Seq::empty())),
            ("definition"@, JsonV::Obj(seq![("linkSupport"@, JsonV::Bool(true))])),
            ("references"@, JsonV::Obj(Seq::empty())),
            ("documentSymbol"@, JsonV::Obj(seq![("hierarchicalDocumentSymbolSupport"@, JsonV::Bool(true))])),
        ])),
        ("workspace"@, JsonV::Obj(seq![
            ("symbol"@, JsonV::Obj(Seq::empty())),
            ("workspaceFolders"@, JsonV::Bool(true)),
        ])),
    ])
}

fn one_field(key: &str, value: Json) -> (r: Json)
    ensures
        r@ == JsonV::Obj(seq![(key@, value@)]),
{
    let ghost vv = value@;
    let mut f: Vec<(String, Json)> = Vec::new();
    push_field(&mut f, key, value);
    assert(fields_v(f@) =~= seq![(key@, vv)]);
    object(f)
}

fn client_capabilities() -> (r: Json)
    ensures
        r@ == client_capabilities_spec(),
{
    let mut formats: Vec<Json> = Vec::new();
    crate::json::push_elem(&mut formats, Json::string("markdown"));
    crate::json::push_elem(&mut formats, Json::string("plaintext"));
    let ghost fmv = elems_v(formats@);
    let mut td: Vec<(String, Json)> = Vec::new();
    push_field(&mut td, "hover", one_field("contentFormat", array(formats)));
    push_field(&mut td, "publishDiagnostics", Json::empty_object());
    push_field(&mut td, "definition", one_field("linkSupport", Json::Bool(true)));
    push_field(&mut td, "references", Json::empty_object());
    push_field(&mut td, "documentSymbol", one_field("hierarchicalDocumentSymbolSupport", Json::Bool(true)));
    let ghost tdv = fields_v(td@);
    let mut ws: Vec<(String, Json)> = Vec::new();
    push_field(&mut ws, "symbol", Json::empty_object());
    push_field(&mut ws, "workspaceFolders", Json::Bool(true));
    let ghost wsv = fields_v(ws@);
    let mut f: Vec<(String, Json)> = Vec::new();
    push_field(&mut f, "textDocument", object(td));
    push_field(&mut f, "workspace", object(ws));
    proof {
        let c = client_capabilities_spec()->Obj_0;
        assert(fmv =~= c[0].1->Obj_0[0].1->Obj_0[0].1->Arr_0);
        assert(tdv =~= c[0].1->Obj_0);
        assert(wsv =~= c[1].1->Obj_0);
        assert(fields_v(f@) =~= c);
    }
    object(f)
}

/// The `initialize` parameters: the client's process id, the workspace as uri
/// and path, the client capabilities, the workspace folder (named after its last
/// component, `workspace` when it has none), and the client's name and version.
pub open spec fn initialize_params_spec(process_id: u32, root_uri: Seq<char>, root_path: Seq<char>, folder_name: Option<Seq<char>>, version: Seq<char>) -> JsonV {
    JsonV::Obj(seq![
        ("processId"@, JsonV::UInt(process_id as u64)),
        ("rootUri"@, JsonV::Str(root_uri)),
        ("rootPath"@, JsonV::Str(root_path)),
        ("capabilities"@, client_capabilities_spec()),
        ("workspaceFolders"@, JsonV::Arr(seq![JsonV::Obj(seq![
            ("uri"@, JsonV::Str(root_uri)),
            ("name"@, JsonV::Str(match folder_name { Some(n) => n, None => "workspace"@ })),
        ])])),
        ("clientInfo"@, JsonV::Obj(seq![("name"@, JsonV::Str("impetus-ext-lsp"@)), ("version"@, JsonV::Str(version))])),
    ])
}

/// The parameters of the `initialize` request.
pub fn initialize_params(process_id: u32, root_uri: &str, root_path: &str, folder_name: Option<&str>, version: &str) -> (r: Json)
    ensures
        r@ == initialize_params_spec(process_id, root_uri@, root_path@, match folder_name { Some(n) => Some(n@), None => None }, version@),
{
    let name = match folder_name {
        Some(n) => owned(n),
        None => owned("workspace"),
    };
    let mut folder: Vec<(String, Json)> = Vec::new();
    push_field(&mut folder, "uri", Json::string(root_uri));
    push_field(&mut folder, "name", Json::Str(name));
    let ghost fv = fields_v(folder@);
    let mut folders: Vec<Json> = Vec::new();
    crate::json::push_elem(&mut folders, object(folder));
    let ghost fsv = elems_v(folders@);
    let mut ci: Vec<(String, Json)> = Vec::new();
    push_field(&mut ci, "name", Json::string("impetus-ext-lsp"));
    push_field(&mut ci, "version", Json::string(version));
    let ghost civ = fields_v(ci@);
    let mut f: Vec<(String, Json)> = Vec::new();
    push_field(&mut f, "processId", Json::UInt(process_id as u64));
    push_field(&mut f, "rootUri", Json::string(root_uri));
    push_field(&mut f, "rootPath", Json::string(root_path));
    push_field(&mut f, "capabilities", client_capabilities());
    push_field(&mut f, "workspaceFolders", array(folders));
    push_field(&mut f, "clientInfo", object(ci));
    proof {
        let p = initialize_params_spec(process_id, root_uri@, root_path@, match folder_name { Some(n) => Some(n@), None => None }, version@)->Obj_0;
        assert(fv =~= p[4].1->Arr_0[0]->Obj_0);
        assert(fsv =~= p[4].1->Arr_0);
        assert(civ =~= p[5].1->Obj_0);
        assert(fields_v(f@) =~= p);
    }
    object(f)
}

// ---------------------------------------------------------------------------
// Tool arguments

/// The start configuration of an `lsp_start` or `lsp_restart` call: the command
/// (empty by default), the arguments as an array of strings or a string to
/// parse, the workspace (empty by default), and the mock flag.
pub open spec fn start_config_spec(args: JsonV) -> StartConfigV {
    let command = match args.str_at("command"@) {
        Some(c) => c,
        None => Seq::empty(),
    };
    let list = match args.get("args"@) {
        Some(JsonV::Arr(a)) => crate::lsp_protocol::present(a.map_values(|v: JsonV| v.as_str())),
        Some(JsonV::Str(s)) => args_list_spec(Some(s)),
        _ => Seq::empty(),
    };
    let workspace = match args.str_at("workspace"@) {
        Some(w) => w,
        None => Seq::empty(),
    };
    let mock = args.bool_at("mock"@) == Some(true);
    (command, list, workspace, mock)
}

/// The strings among the elements of an array, in order.
pub fn string_elements(a: &Vec<Json>) -> (r: Vec<String>)
    ensures
        views_s(r@) == crate::lsp_protocol::present(elems_v(a@).map_values(|v: JsonV| v.as_str())),
{
    let ghost m = elems_v(a@).map_values(|v: JsonV| v.as_str());
    let mut r: Vec<String> = Vec::new();
    let mut i: usize = 0;
    while i < a.len()
        invariant
            i <= a.len(),
            m == elems_v(a@).map_values(|v: JsonV| v.as_str()),
            views_s(r@) == crate::lsp_protocol::present(m.take(i as int)),
        decreases a.len() - i,
    {
        proof {
            assert(m.take(i + 1).drop_last() =~= m.take(i as int));
            assert(m[i as int] == a@[i as int]@.as_str());
        }
        match a[i].as_str() {
            Some(s) => {
                let ghost old_r = r@;
                r.push(owned(s));
                assert(views_s(r@) =~= views_s(old_r).push(s@));
            },
            None => {},
        }
        i += 1;
    }
    assert(m.take(a.len() as int) =~= m);
    r
}

/// Reads a start configuration from tool arguments.
pub fn start_config_from_args(args: &Json) -> (r: StartConfig)
    ensures
        r@ == start_config_spec(args@),
{
    let command = match args.str_at("command") {
        Some(c) => c,
        None => String::new(),
    };
    let list = match args.get("args") {
        Some(Json::Arr(a)) => {
            proof {
                crate::json::lemma_arr_view(*a);
            }
            string_elements(a)
        },
        Some(Json::Str(s)) => parse_args_list(Some(s.as_str())),
        _ => {
            let v: Vec<String> = Vec::new();
            assert(views_s(v@) =~= Seq::<Seq<char>>::empty());
            v
        },
    };
    let workspace = match args.str_at("workspace") {
        Some(w) => w,
        None => String::new(),
    };
    let mock = match args.bool_at("mock") {
        Some(b) => b,
        None => false,
    };
    StartConfig { command, args: list, workspace, mock }
}

/// `lsp_restart` takes a new configuration only when its arguments are a
/// non-empty object.
pub fn restart_config_from_args(args: &Json) -> (r: Option<StartConfig>)
    ensures
        match r {
            Some(c) => args@ matches JsonV::Obj(f) && f.len() > 0 && c@ == start_config_spec(args@),
            None => !(args@ matches JsonV::Obj(f) && f.len() > 0),
        },
{
    match args {
        Json::Obj(f) => {
            proof {
                lemma_obj_view(*f);
            }
            if f.len() > 0 {
                Some(start_config_from_args(args))
            } else {
                None
            }
        },
        _ => None,
    }
}

// ---------------------------------------------------------------------------
// Diagnostics

/// The diagnostics the server has published, one entry per document.
pub struct DiagnosticsStore {
    entries: Vec<(String, Json)>,
}

impl View for DiagnosticsStore {
    type V = Seq<(Seq<char>, JsonV)>;

    closed spec fn view(&self) -> Seq<(Seq<char>, JsonV)> {
        fields_v(self.entries@)
    }
}

/// The answer to `lsp_diagnostics`: one document's diagnostics (an empty list
/// when none were published), or all of them by document.
pub open spec fn diagnostics_reply_spec(store: Seq<(Seq<char>, JsonV)>, uri: Option<Seq<char>>) -> JsonV {
    match uri {
        Some(u) => JsonV::Obj(seq![
            ("uri"@, JsonV::Str(u)),
            ("diagnostics"@, match lookup(store, u) {
                Some(d) => d,
                None => JsonV::Arr(Seq::empty()),
            }),
        ]),
        None => JsonV::Obj(seq![("diagnostics"@, JsonV::Obj(store))]),
    }
}

impl DiagnosticsStore {
    pub fn new() -> (r: DiagnosticsStore)
        ensures
            r@ == Seq::<(Seq<char>, JsonV)>::empty(),
    {
        let r = DiagnosticsStore { entries: Vec::new() };
        assert(r@ =~= Seq::<(Seq<char>, JsonV)>::empty());
        r
    }

    /// Records what the server published for a document, replacing what it
    /// published before.
    pub fn record(&mut self, uri: &str, diagnostics: Json)
        ensures
            final(self)@ == set_entry(old(self)@, uri@, diagnostics@),
    {
        set_field(&mut self.entries, uri, diagnostics);
    }

    /// The answer to `lsp_diagnostics`.
    pub fn reply(&self, uri: Option<&str>) -> (r: Json)
        ensures
            r@ == diagnostics_reply_spec(self@, match uri { Some(u) => Some(u@), None => None }),
    {
        match uri {
            Some(u) => {
                let d = match self.lookup(u) {
                    Some(d) => d,
                    None => {
                        let e: Vec<Json> = Vec::new();
                        assert(elems_v(e@) =~= Seq::<JsonV>::empty());
                        array(e)
                    },
                };
                let ghost dv = d@;
                let mut f: Vec<(String, Json)> = Vec::new();
                push_field(&mut f, "uri", Json::string(u));
                push_field(&mut f, "diagnostics", d);
                assert(fields_v(f@) =~= diagnostics_reply_spec(self@, Some(u@))->Obj_0);
                object(f)
            },
            None => {
                let mut all: Vec<(String, Json)> = Vec::new();
                let mut i: usize = 0;
                while i < self.entries.len()
                    invariant
                        i <= self.entries.len(),
                        fields_v(all@) == fields_v(self.entries@).take(i as int),
                    decreases self.entries.len() - i,
                {
                    let ghost old_all = fields_v(all@);
                    push_field(&mut all, self.entries[i].0.as_str(), self.entries[i].1.copy());
                    assert(fields_v(self.entries@).take(i + 1) =~= fields_v(self.entries@).take(i as int).push(fields_v(self.entries@)[i as int]));
                    i += 1;
                }
                assert(fields_v(self.entries@).take(self.entries.len() as int) =~= fields_v(self.entries@));
                let inner = object(all);
                let mut f: Vec<(String, Json)> = Vec::new();
                push_field(&mut f, "diagnostics", inner);
                assert(fields_v(f@) =~= diagnostics_reply_spec(self@, None)->Obj_0);
                object(f)
            },
        }
    }

    /// The diagnostics published for a document.
    pub fn lookup(&self, uri: &str) -> (r: Option<Json>)
        ensures
            match r {
                Some(d) => lookup(self@, uri@) == Some(d@),
                None => lookup(self@, uri@) is None,
            },
    {
        let mut i: usize = 0;
        let ghost f = self@;
        assert(f.skip(0) =~= f);
        while i < self.entries.len()
            invariant
                i <= self.entries.len(),
                f == fields_v(self.entries@),
                lookup(f, uri@) == lookup(f.skip(i as int), uri@),
            decreases self.entries.len() - i,
        {
            proof {
                let t = f.skip(i as int);
                assert(t.drop_first() =~= f.skip(i + 1));
                assert(t[0] == f[i as int]);
            }
            if str_eq(self.entries[i].0.as_str(), uri) {
                return Some(self.entries[i].1.copy());
            }
            i += 1;
        }
        assert(f.skip(i as int) =~= Seq::<(Seq<char>, JsonV)>::empty());
        None
    }
}

/// Diagnostics read back for a document are the last ones published for it,
/// and publishing for one document leaves the others as they were.
pub proof fn lemma_diagnostics_read_your_write(store: Seq<(Seq<char>, JsonV)>, uri: Seq<char>, d: JsonV, other: Seq<char>)
    ensures
        diagnostics_reply_spec(set_entry(store, uri, d), Some(uri)) == JsonV::Obj(seq![
            ("uri"@, JsonV::Str(uri)),
            ("diagnostics"@, d),
        ]),
        other != uri ==> diagnostics_reply_spec(set_entry(store, uri, d), Some(other))
            == diagnostics_reply_spec(store, Some(other)),
{
    lemma_lookup_set_entry(store, uri, d, other);
    assert(diagnostics_reply_spec(set_entry(store, uri, d), Some(uri))->Obj_0 =~= seq![
        ("uri"@, JsonV::Str(uri)),
        ("diagnostics"@, d),
    ]);
}

// ---------------------------------------------------------------------------
// Messages from the server

/// A message from the server, sorted.
#[derive(Debug)]
pub enum Incoming {
    /// The answer to request `id`: its result, or its error object.
    Response { id: u64, outcome: Result<Json, Json> },
    /// Diagnostics published for a document.
    Diagnostics { uri: String, diagnostics: Json },
    /// Anything else.
    Other,
}

pub enum IncomingV {
    Response { id: u64, outcome: Result<JsonV, JsonV> },
    Diagnostics { uri: Seq<char>, diagnostics: JsonV },
    Other,
}

impl View for Incoming {
    type V = IncomingV;

    open spec fn view(&self) -> IncomingV {
        match self {
            Incoming::Response { id, outcome } => IncomingV::Response {
                id: *id,
                outcome: match outcome {
                    Ok(j) => Ok(j@),
                    Err(j) => Err(j@),
                },
            },
            Incoming::Diagnostics { uri, diagnostics } => IncomingV::Diagnostics { uri: uri@, diagnostics: diagnostics@ },
            Incoming::Other => IncomingV::Other,
        }
    }
}

/// How a message from the server is sorted: without a method and with a usable
/// id it answers a request (its `error` when present, else its `result`, null by
/// default); a `textDocument/publishDiagnostics` with a document uri publishes
/// diagnostics (an empty list by default); anything else is ignored.
pub open spec fn classify_spec(msg: JsonV) -> IncomingV {
    let id = match msg.get("id"@) {
        Some(v) => json_id_spec(v),
        None => None,
    };
    if msg.get("method"@) is None && id is Some {
        IncomingV::Response {
            id: id->0,
            outcome: match msg.get("error"@) {
                Some(e) => Err(e),
                None => Ok(match msg.get("result"@) {
                    Some(r) => r,
                    None => JsonV::Null,
                }),
            },
        }
    } else if msg.str_at("method"@) == Some("textDocument/publishDiagnostics"@) {
        match msg.get("params"@) {
            Some(p) => match p.str_at("uri"@) {
                Some(u) => IncomingV::Diagnostics {
                    uri: u,
                    diagnostics: match p.get("diagnostics"@) {
                        Some(d) => d,
                        None => JsonV::Arr(Seq::empty()),
                    },
                },
                None => IncomingV::Other,
            },
            None => IncomingV::Other,
        }
    } else {
        IncomingV::Other
    }
}

/// Sorts a message from the server.
pub fn classify_incoming(msg: &Json) -> (r: Incoming)
    ensures
        r@ == classify_spec(msg@),
{
    let id = match msg.get("id") {
        Some(v) => json_id_u64(v),
        None => None,
    };
    if msg.get("method").is_none() {
        match id {
            Some(n) => {
                let outcome = match msg.get("error") {
                    Some(e) => Err(e.copy()),
                    None => Ok(match msg.get("result") {
                        Some(r) => r.copy(),
                        None => Json::Null,
                    }),
                };
                return Incoming::Response { id: n, outcome };
            },
            None => {},
        }
    }
    let is_diag = match msg.str_at("method") {
        Some(m) => str_eq(m.as_str(), "textDocument/publishDiagnostics"),
        None => false,
    };
    if is_diag {
        match msg.get("params") {
            Some(p) => match p.str_at("uri") {
                Some(u) => {
                    let d = match p.get("diagnostics") {
                        Some(d) => d.copy(),
                        None => {
                            let e: Vec<Json> = Vec::new();
                            assert(elems_v(e@) =~= Seq::<JsonV>::empty());
                            array(e)
                        },
                    };
                    Incoming::Diagnostics { uri: u, diagnostics: d }
                },
                None => Incoming::Other,
            },
            None => Incoming::Other,
        }
    } else {
        Incoming::Other
    }
}


// ---------------------------------------------------------------------------
// Status

/// A status with nothing running.
pub fn idle_info(mock: bool) -> (r: SessionInfo)
    ensures
        r@ == (false, mock, None::<Seq<char>>, Seq::<Seq<char>>::empty(), None::<Seq<char>>),
{
    let r = SessionInfo { running: false, mock, command: None, args: Vec::new(), workspace: None };
    assert(views_s(r.args@) =~= Seq::<Seq<char>>::empty());
    r
}

/// A status with a server running.
pub fn running_info(mock: bool, command: &str, args: &Vec<String>, workspace: &str) -> (r: SessionInfo)
    ensures
        r@ == (true, mock, Some(command@), views_s(args@), Some(workspace@)),
{
    SessionInfo {
        running: true,
        mock,
        command: Some(owned(command)),
        args: copy_strings(args),
        workspace: Some(owned(workspace)),
    }
}

pub open spec fn opt_str_json(o: Option<Seq<char>>) -> JsonV {
    match o {
        Some(s) => JsonV::Str(s),
        None => JsonV::Null,
    }
}

/// What `lsp_status` answers: `running`, `mock`, `command` and `workspace`
/// (`null` when unknown), and `args`.
pub open spec fn info_json_spec(i: SessionInfoV) -> JsonV {
    JsonV::Obj(seq![
        ("running"@, JsonV::Bool(i.0)),
        ("mock"@, JsonV::Bool(i.1)),
        ("command"@, opt_str_json(i.2)),
        ("args"@, JsonV::Arr(i.3.map_values(|a: Seq<char>| JsonV::Str(a)))),
        ("workspace"@, opt_str_json(i.4)),
    ])
}

fn opt_json(o: &Option<String>) -> (r: Json)
    ensures
        r@ == opt_str_json(opt_v(*o)),
{
    match o {
        Some(s) => Json::string(s.as_str()),
        None => Json::Null,
    }
}

/// The `lsp_status` answer for a status.
pub fn info_json(i: &SessionInfo) -> (r: Json)
    ensures
        r@ == info_json_spec(i@),
{
    obj5(
        "running", Json::Bool(i.running),
        "mock", Json::Bool(i.mock),
        "command", opt_json(&i.command),
        "args", string_array(&i.args),
        "workspace", opt_json(&i.workspace),
    )
}

// ---------------------------------------------------------------------------
// The session server's tools

/// The tools of the session server, in the order they are listed.
pub open spec fn lsp_tool_names() -> Seq<Seq<char>> {
    seq![
        "lsp_start"@, "lsp_stop"@, "lsp_restart"@, "lsp_diagnostics"@, "lsp_request"@, "lsp_hover"@,
        "lsp_definition"@, "lsp_references"@, "lsp_symbols"@, "lsp_cancel"@, "lsp_status"@,
    ]
}

/// What each tool of the session server is listed with.
pub open spec fn lsp_tool_descriptions() -> Seq<Seq<char>> {
    seq![
        "Start language server child (stdio JSON-RPC). Pass command/args/workspace or rely on env / CLI defaults. Set mock=true for CI fake LS."@,
        "Stop the running language server session."@,
        "Restart the language server (optional new command/args/workspace)."@,
        "Return cached publishDiagnostics (optionally filtered by uri)."@,
        "Generic allowlisted LSP request escape hatch."@,
        "textDocument/hover convenience."@,
        "textDocument/definition convenience."@,
        "textDocument/references convenience."@,
        "documentSymbol (uri) or workspace/symbol (query)."@,
        "Cancel in-flight LSP request by id ($/cancelRequest)."@,
        "Session status (running, mock, command, workspace)."@,
    ]
}

/// `args`: an array of strings, or one string.
pub open spec fn args_schema() -> JsonV {
    JsonV::Obj(seq![("oneOf"@, JsonV::Arr(seq![
        JsonV::Obj(seq![("type"@, JsonV::Str("array"@)), ("items"@, typed_spec("string"@))]),
        typed_spec("string"@),
    ]))])
}

/// A non-negative integer argument.
pub open spec fn natural_schema() -> JsonV {
    JsonV::Obj(seq![("type"@, JsonV::Str("integer"@)), ("minimum"@, JsonV::UInt(0))])
}

/// The input of the position tools: a document and a position in it.
pub open spec fn position_schema() -> JsonV {
    required_schema(
        seq![JsonV::Str("uri"@), JsonV::Str("line"@), JsonV::Str("character"@)],
        seq![("uri"@, typed_spec("string"@)), ("line"@, natural_schema()), ("character"@, natural_schema())],
    )
}

/// The input schema of each tool of the session server.
pub open spec fn lsp_tool_schemas() -> Seq<JsonV> {
    seq![
        object_schema(seq![
            ("command"@, described_string("Language server binary"@)),
            ("args"@, args_schema()),
            ("workspace"@, described_string("Workspace root path"@)),
            ("mock"@, typed_spec("boolean"@)),
        ]),
        object_schema(Seq::empty()),
        object_schema(seq![
            ("command"@, typed_spec("string"@)),
            ("args"@, args_schema()),
            ("workspace"@, typed_spec("string"@)),
            ("mock"@, typed_spec("boolean"@)),
        ]),
        object_schema(seq![("uri"@, typed_spec("string"@))]),
        required_schema(seq![JsonV::Str("method"@)], seq![("method"@, typed_spec("string"@)), ("params"@, JsonV::Obj(Seq::empty()))]),
        position_schema(),
        position_schema(),
        position_schema(),
        object_schema(seq![("uri"@, typed_spec("string"@)), ("query"@, typed_spec("string"@))]),
        required_schema(seq![JsonV::Str("id"@)], seq![("id"@, typed_spec("integer"@))]),
        object_schema(Seq::empty()),
    ]
}

fn args_schema_json() -> (r: Json)
    ensures
        r@ == args_schema(),
{
    obj1("oneOf", arr2(obj2("type", Json::string("array"), "items", typed("string")), typed("string")))
}

fn natural_json() -> (r: Json)
    ensures
        r@ == natural_schema(),
{
    obj2("type", Json::string("integer"), "minimum", Json::UInt(0))
}

fn position_schema_json() -> (r: Json)
    ensures
        r@ == position_schema(),
{
    required_schema_json(
        arr3(Json::string("uri"), Json::string("line"), Json::string("character")),
        obj3("uri", typed("string"), "line", natural_json(), "character", natural_json()),
    )
}

/// The tools of the session server: name, description and input schema of
/// each, in order.
pub fn lsp_tool_defs() -> (r: Vec<ToolDef>)
    ensures
        r@.len() == 11,
        forall|i: int| 0 <= i < 11 ==> (#[trigger] r@[i]).name@ == lsp_tool_names()[i]
            && r@[i].description@ == lsp_tool_descriptions()[i] && r@[i].input_schema@ == lsp_tool_schemas()[i],
{
    let mut v: Vec<ToolDef> = Vec::new();
    push_tool_def(&mut v, "lsp_start",
        "Start language server child (stdio JSON-RPC). Pass command/args/workspace or rely on env / CLI defaults. Set mock=true for CI fake LS.",
        object_schema_json(obj4(
            "command", described_string_json("Language server binary"),
            "args", args_schema_json(),
            "workspace", described_string_json("Workspace root path"),
            "mock", typed("boolean"),
        )));
    push_tool_def(&mut v, "lsp_stop", "Stop the running language server session.", object_schema_json(Json::empty_object()));
    push_tool_def(&mut v, "lsp_restart", "Restart the language server (optional new command/args/workspace).",
        object_schema_json(obj4(
            "command", typed("string"),
            "args", args_schema_json(),
            "workspace", typed("string"),
            "mock", typed("boolean"),
        )));
    push_tool_def(&mut v, "lsp_diagnostics", "Return cached publishDiagnostics (optionally filtered by uri).",
        object_schema_json(obj1("uri", typed("string"))));
    push_tool_def(&mut v, "lsp_request", "Generic allowlisted LSP request escape hatch.",
        required_schema_json(arr1(Json::string("method")), obj2("method", typed("string"), "params", Json::empty_object())));
    push_tool_def(&mut v, "lsp_hover", "textDocument/hover convenience.", position_schema_json());
    push_tool_def(&mut v, "lsp_definition", "textDocument/definition convenience.", position_schema_json());
    push_tool_def(&mut v, "lsp_references", "textDocument/references convenience.", position_schema_json());
    push_tool_def(&mut v, "lsp_symbols", "documentSymbol (uri) or workspace/symbol (query).",
        object_schema_json(obj2("uri", typed("string"), "query", typed("string"))));
    push_tool_def(&mut v, "lsp_cancel", "Cancel in-flight LSP request by id ($/cancelRequest).",
        required_schema_json(arr1(Json::string("id")), obj1("id", typed("integer"))));
    push_tool_def(&mut v, "lsp_status", "Session status (running, mock, command, workspace).",
        object_schema_json(Json::empty_object()));
    v
}

} // verus!
