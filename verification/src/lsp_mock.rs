//! The in-process stand-ins for a language server (for CI and tests), and the
//! checks the process-backed session makes on its command and its replies.
use vstd::prelude::*;
use crate::json::{Json, JsonV, push_field, push_elem, object, array, fields_v, elems_v, typed, typed_spec};
use crate::mcp::{ToolDef, push_tool_def};
use crate::lsp_protocol::{allowed_request_methods, is_allowed_request};
use crate::lsp_session::{SessionInfo, running_info};
use crate::text::{chars_of, owned, concat, str_eq, contains_char, strs_v, in_list, views_s,
    ascii_lower, to_ascii_lower, has_prefix, starts_with, trim, trim_chars, slice_range, string_of,
    parse_unsigned};

verus! {

// ---------------------------------------------------------------------------
// JSON pieces

pub open spec fn pos_spec(line: u64, character: u64) -> JsonV {
    JsonV::Obj(seq![("line"@, JsonV::UInt(line)), ("character"@, JsonV::UInt(character))])
}

pub open spec fn range_spec(l1: u64, c1: u64, l2: u64, c2: u64) -> JsonV {
    JsonV::Obj(seq![("start"@, pos_spec(l1, c1)), ("end"@, pos_spec(l2, c2))])
}

fn pos_json(line: u64, character: u64) -> (r: Json)
    ensures
        r@ == pos_spec(line, character),
{
    let mut f: Vec<(String, Json)> = Vec::new();
    push_field(&mut f, "line", Json::UInt(line));
    push_field(&mut f, "character", Json::UInt(character));
    assert(fields_v(f@) =~= pos_spec(line, character)->Obj_0);
    object(f)
}

fn range_json(l1: u64, c1: u64, l2: u64, c2: u64) -> (r: Json)
    ensures
        r@ == range_spec(l1, c1, l2, c2),
{
    let mut f: Vec<(String, Json)> = Vec::new();
    push_field(&mut f, "start", pos_json(l1, c1));
    push_field(&mut f, "end", pos_json(l2, c2));
    assert(fields_v(f@) =~= range_spec(l1, c1, l2, c2)->Obj_0);
    object(f)
}

pub open spec fn location_spec(uri: Seq<char>, range: JsonV) -> JsonV {
    JsonV::Obj(seq![("uri"@, JsonV::Str(uri)), ("range"@, range)])
}

fn location_json(uri: &str, range: Json) -> (r: Json)
    ensures
        r@ == location_spec(uri@, range@),
{
    let ghost rv = range@;
    let mut f: Vec<(String, Json)> = Vec::new();
    push_field(&mut f, "uri", Json::string(uri));
    push_field(&mut f, "range", range);
    assert(fields_v(f@) =~= location_spec(uri@, rv)->Obj_0);
    object(f)
}

fn single(j: Json) -> (r: Json)
    ensures
        r@ == JsonV::Arr(seq![j@]),
{
    let ghost jv = j@;
    let mut e: Vec<Json> = Vec::new();
    push_elem(&mut e, j);
    assert(elems_v(e@) =~= seq![jv]);
    array(e)
}

// ---------------------------------------------------------------------------
// The mock session of the command-line server

/// Whether the command-line server forwards `method`: exactly the methods of the
/// `lsp_request` allowlist.
pub fn server_allows(method: &str) -> (r: bool)
    ensures
        r == allowed_request_methods().contains(method@),
{
    is_allowed_request(method)
}

/// The method behind a convenience tool.
pub open spec fn convenience_spec(tool: Seq<char>) -> Result<Seq<char>, Seq<char>> {
    if tool == "lsp_hover"@ {
        Ok("textDocument/hover"@)
    } else if tool == "lsp_definition"@ {
        Ok("textDocument/definition"@)
    } else if tool == "lsp_references"@ {
        Ok("textDocument/references"@)
    } else if tool == "lsp_symbols"@ {
        Ok("textDocument/documentSymbol"@)
    } else {
        Err("unknown convenience "@ + tool)
    }
}

/// Maps a convenience tool to its LSP method.
pub fn convenience_method(tool: &str) -> (r: Result<String, String>)
    ensures
        crate::workspace::str_result(r) == convenience_spec(tool@),
{
    if str_eq(tool, "lsp_hover") {
        Ok(owned("textDocument/hover"))
    } else if str_eq(tool, "lsp_definition") {
        Ok(owned("textDocument/definition"))
    } else if str_eq(tool, "lsp_references") {
        Ok(owned("textDocument/references"))
    } else if str_eq(tool, "lsp_symbols") {
        Ok(owned("textDocument/documentSymbol"))
    } else {
        Err(concat("unknown convenience ", tool))
    }
}

/// A fake language server: it echoes requests and reports one diagnostic.
pub struct MockLsp {
    command: String,
    args: Vec<String>,
    workspace: String,
    cancelled: bool,
}

impl View for MockLsp {
    type V = (Seq<char>, Seq<char>, bool);

    closed spec fn view(&self) -> (Seq<char>, Seq<char>, bool) {
        (self.command@, self.workspace@, self.cancelled)
    }
}

/// The one diagnostic the fake server reports.
pub open spec fn mock_diagnostics_spec(command: Seq<char>, workspace: Seq<char>, uri: Option<Seq<char>>) -> JsonV {
    JsonV::Obj(seq![
        ("items"@, JsonV::Arr(seq![JsonV::Obj(seq![
            ("uri"@, JsonV::Str(match uri { Some(u) => u, None => "file:///mock.rs"@ })),
            ("severity"@, JsonV::UInt(2)),
            ("message"@, JsonV::Str("mock diagnostic from impetus-ext-lsp"@)),
            ("range"@, range_spec(0, 0, 0, 1)),
        ])])),
        ("command"@, JsonV::Str(command)),
        ("workspace"@, JsonV::Str(workspace)),
    ])
}

/// What the fake server answers a request.
pub open spec fn mock_request_spec(method: Seq<char>, params: JsonV) -> Result<JsonV, Seq<char>> {
    if allowed_request_methods().contains(method) {
        Ok(JsonV::Obj(seq![("method"@, JsonV::Str(method)), ("params"@, params), ("mock"@, JsonV::Bool(true))]))
    } else {
        Err("method `"@ + method + "` not allowlisted"@)
    }
}

/// What the fake server answers a diagnostics request in state `s`.
pub open spec fn mock_diagnostics_result(s: (Seq<char>, Seq<char>, bool), uri: Option<Seq<char>>) -> Result<JsonV, Seq<char>> {
    if s.2 {
        Err("cancelled"@)
    } else {
        Ok(mock_diagnostics_spec(s.0, s.1, uri))
    }
}

/// The state after a cancel.
pub open spec fn mock_cancelled(s: (Seq<char>, Seq<char>, bool)) -> (Seq<char>, Seq<char>, bool) {
    (s.0, s.1, true)
}

/// The state after a restart.
pub open spec fn mock_restarted(s: (Seq<char>, Seq<char>, bool)) -> (Seq<char>, Seq<char>, bool) {
    (s.0, s.1, false)
}

pub open spec fn json_result_v(r: Result<Json, String>) -> Result<JsonV, Seq<char>> {
    match r {
        Ok(j) => Ok(j@),
        Err(e) => Err(e@),
    }
}

impl MockLsp {
    /// The arguments the fake server was started with (it runs without them).
    pub closed spec fn start_args(&self) -> Seq<Seq<char>> {
        views_s(self.args@)
    }

    /// Starts the fake server; the arguments are only recorded.
    pub fn start(command: &str, args: Vec<String>, workspace: &str) -> (r: MockLsp)
        ensures
            r@ == (command@, workspace@, false),
            r.start_args() == views_s(args@),
    {
        MockLsp { command: owned(command), args, workspace: owned(workspace), cancelled: false }
    }

    /// What `lsp_status` reports for the fake server: running, in mock mode,
    /// with the command, arguments and workspace it was started with.
    pub fn info(&self) -> (r: SessionInfo)
        ensures
            r@ == (true, true, Some(self@.0), self.start_args(), Some(self@.1)),
    {
        running_info(true, self.command.as_str(), &self.args, self.workspace.as_str())
    }

    /// Stopping the fake server always succeeds.
    pub fn stop(&mut self) -> (r: Result<(), String>)
        ensures
            r is Ok,
            final(self)@ == old(self)@,
            final(self).start_args() == old(self).start_args(),
    {
        Ok(())
    }

    /// Restarting clears a cancellation.
    pub fn restart(&mut self) -> (r: Result<(), String>)
        ensures
            r is Ok,
            final(self)@ == mock_restarted(old(self)@),
            final(self).start_args() == old(self).start_args(),
    {
        self.cancelled = false;
        Ok(())
    }

    /// The diagnostics, unless the session was cancelled.
    pub fn diagnostics(&self, uri: Option<&str>) -> (r: Result<Json, String>)
        ensures
            json_result_v(r) == mock_diagnostics_result(self@, match uri { Some(u) => Some(u@), None => None }),
    {
        if self.cancelled {
            return Err(owned("cancelled"));
        }
        let u = match uri {
            Some(u) => owned(u),
            None => owned("file:///mock.rs"),
        };
        let ghost uv = u@;
        let mut item: Vec<(String, Json)> = Vec::new();
        push_field(&mut item, "uri", Json::Str(u));
        push_field(&mut item, "severity", Json::UInt(2));
        push_field(&mut item, "message", Json::string("mock diagnostic from impetus-ext-lsp"));
        push_field(&mut item, "range", range_json(0, 0, 0, 1));
        let ghost itv = fields_v(item@);
        let items = single(object(item));
        let mut f: Vec<(String, Json)> = Vec::new();
        push_field(&mut f, "items", items);
        push_field(&mut f, "command", Json::string(self.command.as_str()));
        push_field(&mut f, "workspace", Json::string(self.workspace.as_str()));
        proof {
            let spec = mock_diagnostics_spec(self@.0, self@.1, match uri { Some(u) => Some(u@), None => None });
            assert(itv =~= spec->Obj_0[0].1->Arr_0[0]->Obj_0);
            assert(fields_v(f@) =~= spec->Obj_0);
        }
        Ok(object(f))
    }

    /// Echoes an allowlisted request.
    pub fn request(&self, method: &str, params: Json) -> (r: Result<Json, String>)
        ensures
            json_result_v(r) == mock_request_spec(method@, params@),
    {
        if !server_allows(method) {
            return Err(crate::text::concat3("method `", method, "` not allowlisted"));
        }
        let ghost pv = params@;
        let mut f: Vec<(String, Json)> = Vec::new();
        push_field(&mut f, "method", Json::string(method));
        push_field(&mut f, "params", params);
        push_field(&mut f, "mock", Json::Bool(true));
        assert(fields_v(f@) =~= mock_request_spec(method@, pv)->Ok_0->Obj_0);
        Ok(object(f))
    }

    /// A convenience tool, as the request of its method.
    pub fn convenience(&self, tool: &str, args: Json) -> (r: Result<Json, String>)
        ensures
            json_result_v(r) == (match convenience_spec(tool@) {
                Ok(m) => mock_request_spec(m, args@),
                Err(e) => Err(e),
            }),
    {
        match convenience_method(tool) {
            Err(e) => Err(e),
            Ok(m) => self.request(m.as_str(), args),
        }
    }

    /// Cancels the session: diagnostics fail until a restart.
    pub fn cancel(&mut self) -> (r: Result<(), String>)
        ensures
            r is Ok,
            final(self)@ == mock_cancelled(old(self)@),
            final(self).start_args() == old(self).start_args(),
    {
        self.cancelled = true;
        Ok(())
    }
}

/// After a cancel, diagnostics fail; after a restart they are the ones the
/// session reported before the cancel.
pub proof fn lemma_cancel_then_restart(s: (Seq<char>, Seq<char>, bool), uri: Option<Seq<char>>)
    ensures
        mock_diagnostics_result(mock_cancelled(s), uri) == Err::<JsonV, Seq<char>>("cancelled"@),
        mock_diagnostics_result(mock_restarted(mock_cancelled(s)), uri)
            == Ok::<JsonV, Seq<char>>(mock_diagnostics_spec(s.0, s.1, uri)),
        !s.2 ==> mock_diagnostics_result(mock_restarted(mock_cancelled(s)), uri) == mock_diagnostics_result(s, uri),
{
}

// ---------------------------------------------------------------------------
// The command-line server's tools

/// The answer of `lsp_start` on the command-line server.
pub fn started_reply(command: &str, workspace: &str) -> (r: Json)
    ensures
        r@ == JsonV::Obj(seq![
            ("started"@, JsonV::Bool(true)),
            ("command"@, JsonV::Str(command@)),
            ("workspace"@, JsonV::Str(workspace@)),
        ]),
{
    let mut f: Vec<(String, Json)> = Vec::new();
    push_field(&mut f, "started", Json::Bool(true));
    push_field(&mut f, "command", Json::string(command));
    push_field(&mut f, "workspace", Json::string(workspace));
    assert(fields_v(f@) =~= seq![
        ("started"@, JsonV::Bool(true)),
        ("command"@, JsonV::Str(command@)),
        ("workspace"@, JsonV::Str(workspace@)),
    ]);
    object(f)
}

/// The answer `{key: true}` of `lsp_stop` (`stopped`), `lsp_restart`
/// (`restarted`) and `lsp_cancel` (`cancelled`) on the command-line server.
pub fn done_reply(key: &str) -> (r: Json)
    ensures
        r@ == JsonV::Obj(seq![(key@, JsonV::Bool(true))]),
{
    let mut f: Vec<(String, Json)> = Vec::new();
    push_field(&mut f, key, Json::Bool(true));
    assert(fields_v(f@) =~= seq![(key@, JsonV::Bool(true))]);
    object(f)
}

/// What a language-server process answers a diagnostics request with: no
/// items, a note on pulling them, and the URI asked about (`null` if none).
pub open spec fn process_diagnostics_spec(uri: Option<Seq<char>>) -> JsonV {
    JsonV::Obj(seq![
        ("items"@, JsonV::Arr(Seq::empty())),
        ("note"@, JsonV::Str("pull diagnostics via lsp_request textDocument/diagnostic when supported"@)),
        ("uri"@, match uri { Some(u) => JsonV::Str(u), None => JsonV::Null }),
    ])
}

/// The diagnostics answer of a language-server process.
pub fn process_diagnostics(uri: Option<&str>) -> (r: Json)
    ensures
        r@ == process_diagnostics_spec(match uri { Some(u) => Some(u@), None => None }),
{
    let mut f: Vec<(String, Json)> = Vec::new();
    push_field(&mut f, "items", array(Vec::new()));
    push_field(&mut f, "note", Json::string("pull diagnostics via lsp_request textDocument/diagnostic when supported"));
    push_field(&mut f, "uri", match uri {
        Some(u) => Json::string(u),
        None => Json::Null,
    });
    proof {
        assert(elems_v(Seq::<Json>::empty()) =~= Seq::<JsonV>::empty());
        assert(fields_v(f@) =~= process_diagnostics_spec(match uri { Some(u) => Some(u@), None => None })->Obj_0);
    }
    object(f)
}

/// The `lsp_start` arguments of the command-line server: the command
/// (`rust-analyzer` by default), its arguments (the strings of an array), and
/// the workspace (`.` by default).
pub open spec fn handler_start_spec(args: JsonV) -> (Seq<char>, Seq<Seq<char>>, Seq<char>) {
    (
        match args.str_at("command"@) { Some(c) => c, None => "rust-analyzer"@ },
        match args.get("args"@) {
            Some(JsonV::Arr(a)) => crate::lsp_protocol::present(a.map_values(|v: JsonV| v.as_str())),
            _ => Seq::empty(),
        },
        match args.str_at("workspace"@) { Some(w) => w, None => "."@ },
    )
}

/// Reads the `lsp_start` arguments of the command-line server.
pub fn handler_start_args(args: &Json) -> (r: (String, Vec<String>, String))
    ensures
        (r.0@, views_s(r.1@), r.2@) == handler_start_spec(args@),
{
    let command = match args.str_at("command") {
        Some(c) => c,
        None => owned("rust-analyzer"),
    };
    let list = match args.get("args") {
        Some(Json::Arr(a)) => {
            proof {
                crate::json::lemma_arr_view(*a);
            }
            crate::lsp_session::string_elements(a)
        },
        _ => {
            let v: Vec<String> = Vec::new();
            assert(views_s(v@) =~= Seq::<Seq<char>>::empty());
            v
        },
    };
    let workspace = match args.str_at("workspace") {
        Some(w) => w,
        None => owned("."),
    };
    (command, list, workspace)
}

/// Characters a server command may not contain.
pub open spec fn shell_meta(c: char) -> bool {
    c == '|' || c == '&' || c == ';' || c == '<' || c == '>' || c == '$' || c == '`' || c == '('
        || c == ')' || c == '{' || c == '}' || c == '[' || c == ']'
}

/// A server command is refused if it holds a shell metacharacter.
pub fn check_server_command(command: &str) -> (r: Result<(), String>)
    ensures
        r is Ok <==> (forall|i: int| 0 <= i < command@.len() ==> !shell_meta(#[trigger] command@[i])),
        r matches Err(e) ==> e@ == "invalid language server command"@,
{
    let c = chars_of(command);
    let mut i: usize = 0;
    while i < c.len()
        invariant
            i <= c.len(),
            c@ == command@,
            forall|j: int| 0 <= j < i ==> !shell_meta(#[trigger] c@[j]),
        decreases c.len() - i,
    {
        let x = c[i];
        if x == '|' || x == '&' || x == ';' || x == '<' || x == '>' || x == '$' || x == '`' || x == '('
            || x == ')' || x == '{' || x == '}' || x == '[' || x == ']'
        {
            assert(shell_meta(command@[i as int]));
            return Err(owned("invalid language server command"));
        }
        i += 1;
    }
    Ok(())
}

/// Whether a reply answers request `id` (its id is that number).
pub fn response_matches(resp: &Json, id: u64) -> (r: bool)
    ensures
        r == (resp@.get("id"@) == Some(JsonV::UInt(id))),
{
    match resp.get("id") {
        Some(Json::UInt(n)) => *n == id,
        Some(_) => false,
        None => false,
    }
}

/// The outcome a reply carries: its `error` when present, else its `result`
/// (null by default).
pub fn reply_outcome(resp: &Json) -> (r: Result<Json, Json>)
    ensures
        match r {
            Ok(v) => resp@.get("error"@) is None && v@ == (match resp@.get("result"@) { Some(x) => x, None => JsonV::Null }),
            Err(e) => resp@.get("error"@) == Some(e@),
        },
{
    match resp.get("error") {
        Some(e) => Err(e.copy()),
        None => Ok(match resp.get("result") {
            Some(x) => x.copy(),
            None => Json::Null,
        }),
    }
}

/// What `str::parse::<usize>` reports for a text it refuses.
pub uninterp spec fn parse_usize_error(s: Seq<char>) -> Seq<char>;

/// `str::parse::<usize>`. Claimed, as std documents it: an optional `+`, then
/// decimal digits only, and a value that fits; the error text is named.
#[verifier::external_body]
fn parse_usize(s: &str) -> (r: Result<usize, String>)
    ensures
        match r {
            Ok(n) => parse_unsigned(s@, usize::MAX as nat) == Some(n as nat),
            Err(e) => parse_unsigned(s@, usize::MAX as nat) is None && e@ == parse_usize_error(s@),
        },
{
    s.parse::<usize>().map_err(|e| e.to_string())
}

/// One header line as the process-backed session reads it: a blank line ends
/// the header; a `Content-Length` line sets the length (or fails to parse).
pub open spec fn header_line_spec(line: Seq<char>, acc: Option<usize>) -> Result<(bool, Option<usize>), Seq<char>> {
    if line == "\r\n"@ || line == "\n"@ {
        Ok((true, acc))
    } else {
        let lower = ascii_lower(line);
        if has_prefix(lower, "content-length:"@) {
            let t = trim(lower.skip(15));
            match parse_unsigned(t, usize::MAX as nat) {
                Some(n) => Ok((false, Some(n as usize))),
                None => Err(parse_usize_error(t)),
            }
        } else {
            Ok((false, acc))
        }
    }
}

/// Reads one header line; `Ok((true, _))` when the header has ended.
pub fn header_line(line: &str, acc: Option<usize>) -> (r: Result<(bool, Option<usize>), String>)
    ensures
        match r {
            Ok(x) => header_line_spec(line@, acc) == Ok::<(bool, Option<usize>), Seq<char>>(x),
            Err(e) => header_line_spec(line@, acc) == Err::<(bool, Option<usize>), Seq<char>>(e@),
        },
{
    if str_eq(line, "\r\n") || str_eq(line, "\n") {
        return Ok((true, acc));
    }
    let c = chars_of(line);
    let lower = to_ascii_lower(c.as_slice());
    let prefix = chars_of("content-length:");
    proof {
        reveal_strlit("content-length:");
        assert(prefix@.len() == 15);
    }
    if starts_with(lower.as_slice(), prefix.as_slice()) {
        let rest = slice_range(lower.as_slice(), 15, lower.len());
        let t = trim_chars(rest.as_slice());
        let ts = string_of(t.as_slice());
        proof {
            assert(rest@ =~= lower@.skip(15));
        }
        match parse_usize(ts.as_str()) {
            Ok(n) => Ok((false, Some(n))),
            Err(e) => Err(e),
        }
    } else {
        Ok((false, acc))
    }
}

/// What the process-backed session announces itself with.
pub open spec fn process_init_spec(root: Seq<char>) -> JsonV {
    JsonV::Obj(seq![
        ("processId"@, JsonV::Null),
        ("rootUri"@, JsonV::Str("file://"@ + root)),
        ("capabilities"@, JsonV::Obj(Seq::empty())),
        ("workspaceFolders"@, JsonV::Null),
    ])
}

/// The `initialize` parameters of the process-backed session.
pub fn process_init_params(root: &str) -> (r: Json)
    ensures
        r@ == process_init_spec(root@),
{
    let mut f: Vec<(String, Json)> = Vec::new();
    push_field(&mut f, "processId", Json::Null);
    push_field(&mut f, "rootUri", Json::Str(concat("file://", root)));
    push_field(&mut f, "capabilities", Json::empty_object());
    push_field(&mut f, "workspaceFolders", Json::Null);
    assert(fields_v(f@) =~= process_init_spec(root@)->Obj_0);
    object(f)
}

// ---------------------------------------------------------------------------
// The fake language server of the library session

/// The result the fake server gives a request method, if it answers it.
pub open spec fn mock_result_spec(method: Seq<char>, sample: Seq<char>) -> Option<JsonV> {
    if method == "textDocument/hover"@ {
        Some(JsonV::Obj(seq![("contents"@, JsonV::Obj(seq![
            ("kind"@, JsonV::Str("markdown"@)),
            ("value"@, JsonV::Str("```rust\nfn mock()\n```\nMock hover from impetus-ext-lsp."@)),
        ]))]))
    } else if method == "textDocument/definition"@ || method == "textDocument/typeDefinition"@
        || method == "textDocument/implementation"@ {
        Some(location_spec(sample, range_spec(1, 0, 1, 3)))
    } else if method == "textDocument/references"@ {
        Some(JsonV::Arr(seq![location_spec(sample, range_spec(2, 0, 2, 4))]))
    } else if method == "textDocument/documentSymbol"@ {
        Some(JsonV::Arr(seq![JsonV::Obj(seq![
            ("name"@, JsonV::Str("mock"@)),
            ("kind"@, JsonV::UInt(12)),
            ("range"@, range_spec(0, 0, 10, 0)),
            ("selectionRange"@, range_spec(0, 3, 0, 7)),
        ])]))
    } else if method == "workspace/symbol"@ {
        Some(JsonV::Arr(seq![JsonV::Obj(seq![
            ("name"@, JsonV::Str("mock"@)),
            ("kind"@, JsonV::UInt(12)),
            ("location"@, location_spec(sample, range_spec(0, 0, 0, 4))),
        ])]))
    } else {
        None
    }
}

fn mock_result(method: &str, sample: &str) -> (r: Option<Json>)
    ensures
        match r {
            Some(j) => mock_result_spec(method@, sample@) == Some(j@),
            None => mock_result_spec(method@, sample@) is None,
        },
{
    if str_eq(method, "textDocument/hover") {
        let mut c: Vec<(String, Json)> = Vec::new();
        push_field(&mut c, "kind", Json::string("markdown"));
        push_field(&mut c, "value", Json::string("```rust\nfn mock()\n```\nMock hover from impetus-ext-lsp."));
        let ghost cv = fields_v(c@);
        let mut f: Vec<(String, Json)> = Vec::new();
        push_field(&mut f, "contents", object(c));
        proof {
            let s = mock_result_spec(method@, sample@)->0->Obj_0;
            assert(cv =~= s[0].1->Obj_0);
            assert(fields_v(f@) =~= s);
        }
        Some(object(f))
    } else if str_eq(method, "textDocument/definition") || str_eq(method, "textDocument/typeDefinition")
        || str_eq(method, "textDocument/implementation")
    {
        Some(location_json(sample, range_json(1, 0, 1, 3)))
    } else if str_eq(method, "textDocument/references") {
        Some(single(location_json(sample, range_json(2, 0, 2, 4))))
    } else if str_eq(method, "textDocument/documentSymbol") {
        let mut f: Vec<(String, Json)> = Vec::new();
        push_field(&mut f, "name", Json::string("mock"));
        push_field(&mut f, "kind", Json::UInt(12));
        push_field(&mut f, "range", range_json(0, 0, 10, 0));
        push_field(&mut f, "selectionRange", range_json(0, 3, 0, 7));
        let ghost fv = fields_v(f@);
        let r = single(object(f));
        proof {
            assert(fv =~= mock_result_spec(method@, sample@)->0->Arr_0[0]->Obj_0);
        }
        Some(r)
    } else if str_eq(method, "workspace/symbol") {
        let mut f: Vec<(String, Json)> = Vec::new();
        push_field(&mut f, "name", Json::string("mock"));
        push_field(&mut f, "kind", Json::UInt(12));
        push_field(&mut f, "location", location_json(sample, range_json(0, 0, 0, 4)));
        let ghost fv = fields_v(f@);
        let r = single(object(f));
        proof {
            assert(fv =~= mock_result_spec(method@, sample@)->0->Arr_0[0]->Obj_0);
        }
        Some(r)
    } else {
        None
    }
}

/// What the fake server answers `initialize` with.
pub open spec fn mock_initialize_result() -> JsonV {
    JsonV::Obj(seq![
        ("capabilities"@, JsonV::Obj(seq![
            ("hoverProvider"@, JsonV::Bool(true)),
            ("definitionProvider"@, JsonV::Bool(true)),
            ("referencesProvider"@, JsonV::Bool(true)),
            ("documentSymbolProvider"@, JsonV::Bool(true)),
            ("workspaceSymbolProvider"@, JsonV::Bool(true)),
            ("textDocumentSync"@, JsonV::UInt(1)),
        ])),
        ("serverInfo"@, JsonV::Obj(seq![
            ("name"@, JsonV::Str("impetus-ext-lsp-mock"@)),
            ("version"@, JsonV::Str("0.1.0"@)),
        ])),
    ])
}

fn mock_initialize_json() -> (r: Json)
    ensures
        r@ == mock_initialize_result(),
{
    let mut c: Vec<(String, Json)> = Vec::new();
    push_field(&mut c, "hoverProvider", Json::Bool(true));
    push_field(&mut c, "definitionProvider", Json::Bool(true));
    push_field(&mut c, "referencesProvider", Json::Bool(true));
    push_field(&mut c, "documentSymbolProvider", Json::Bool(true));
    push_field(&mut c, "workspaceSymbolProvider", Json::Bool(true));
    push_field(&mut c, "textDocumentSync", Json::UInt(1));
    let ghost cv = fields_v(c@);
    let mut s: Vec<(String, Json)> = Vec::new();
    push_field(&mut s, "name", Json::string("impetus-ext-lsp-mock"));
    push_field(&mut s, "version", Json::string("0.1.0"));
    let ghost sv = fields_v(s@);
    let mut f: Vec<(String, Json)> = Vec::new();
    push_field(&mut f, "capabilities", object(c));
    push_field(&mut f, "serverInfo", object(s));
    proof {
        let m = mock_initialize_result()->Obj_0;
        assert(cv =~= m[0].1->Obj_0);
        assert(sv =~= m[1].1->Obj_0);
        assert(fields_v(f@) =~= m);
    }
    object(f)
}

/// The diagnostics the fake server publishes after `initialize`.
pub open spec fn mock_publish_spec(sample: Seq<char>) -> JsonV {
    JsonV::Obj(seq![
        ("jsonrpc"@, JsonV::Str("2.0"@)),
        ("method"@, JsonV::Str("textDocument/publishDiagnostics"@)),
        ("params"@, JsonV::Obj(seq![
            ("uri"@, JsonV::Str(sample)),
            ("diagnostics"@, JsonV::Arr(seq![JsonV::Obj(seq![
                ("range"@, range_spec(0, 0, 0, 4)),
                ("severity"@, JsonV::UInt(2)),
                ("source"@, JsonV::Str("mock-ls"@)),
                ("message"@, JsonV::Str("mock warning: unused import"@)),
            ])])),
        ])),
    ])
}

fn mock_publish_json(sample: &str) -> (r: Json)
    ensures
        r@ == mock_publish_spec(sample@),
{
    let mut d: Vec<(String, Json)> = Vec::new();
    push_field(&mut d, "range", range_json(0, 0, 0, 4));
    push_field(&mut d, "severity", Json::UInt(2));
    push_field(&mut d, "source", Json::string("mock-ls"));
    push_field(&mut d, "message", Json::string("mock warning: unused import"));
    let ghost dv = fields_v(d@);
    let list = single(object(d));
    let mut p: Vec<(String, Json)> = Vec::new();
    push_field(&mut p, "uri", Json::string(sample));
    push_field(&mut p, "diagnostics", list);
    let ghost pv = fields_v(p@);
    let mut f: Vec<(String, Json)> = Vec::new();
    push_field(&mut f, "jsonrpc", Json::string("2.0"));
    push_field(&mut f, "method", Json::string("textDocument/publishDiagnostics"));
    push_field(&mut f, "params", object(p));
    proof {
        let m = mock_publish_spec(sample@)->Obj_0;
        assert(dv =~= m[2].1->Obj_0[1].1->Arr_0[0]->Obj_0);
        assert(pv =~= m[2].1->Obj_0);
        assert(fields_v(f@) =~= m);
    }
    object(f)
}

/// `{"jsonrpc": "2.0", "id": id, key: value}`.
pub open spec fn reply_spec(id: JsonV, key: Seq<char>, value: JsonV) -> JsonV {
    JsonV::Obj(seq![("jsonrpc"@, JsonV::Str("2.0"@)), ("id"@, id), (key, value)])
}

fn reply_json(id: Json, key: &str, value: Json) -> (r: Json)
    ensures
        r@ == reply_spec(id@, key@, value@),
{
    let ghost iv = id@;
    let ghost vv = value@;
    let mut f: Vec<(String, Json)> = Vec::new();
    push_field(&mut f, "jsonrpc", Json::string("2.0"));
    push_field(&mut f, "id", id);
    push_field(&mut f, key, value);
    assert(fields_v(f@) =~= reply_spec(iv, key@, vv)->Obj_0);
    object(f)
}

/// What the fake server sends back for one message: `initialize` is answered
/// and followed by published diagnostics; notifications get nothing; `shutdown`
/// gets a null result; the methods it knows get their canned result; any other
/// request gets a method-not-found error. Messages without an id get no answer
/// (except `initialize`, answered with a null id).
pub open spec fn mock_replies_spec(msg: JsonV, sample: Seq<char>) -> Seq<JsonV> {
    match msg.str_at("method"@) {
        None => Seq::empty(),
        Some(m) => {
            let id = msg.get("id"@);
            if m == "initialize"@ {
                seq![
                    reply_spec(match id { Some(i) => i, None => JsonV::Null }, "result"@, mock_initialize_result()),
                    mock_publish_spec(sample),
                ]
            } else if m == "initialized"@ || m == "exit"@ || m == "$/cancelRequest"@ {
                Seq::empty()
            } else {
                match id {
                    None => Seq::empty(),
                    Some(i) => if m == "shutdown"@ {
                        seq![reply_spec(i, "result"@, JsonV::Null)]
                    } else {
                        match mock_result_spec(m, sample) {
                            Some(res) => seq![reply_spec(i, "result"@, res)],
                            None => seq![reply_spec(i, "error"@, JsonV::Obj(seq![
                                ("code"@, JsonV::Int(-32601i64)),
                                ("message"@, JsonV::Str("mock: method not implemented: "@ + m)),
                            ]))],
                        }
                    },
                }
            }
        },
    }
}

/// The answers of the fake server to one message.
pub fn mock_replies(msg: &Json, sample: &str) -> (r: Vec<Json>)
    ensures
        elems_v(r@) == mock_replies_spec(msg@, sample@),
{
    let mut out: Vec<Json> = Vec::new();
    let m = match msg.str_at("method") {
        None => {
            assert(elems_v(out@) =~= Seq::<JsonV>::empty());
            return out;
        },
        Some(m) => m,
    };
    let id = match msg.get("id") {
        Some(i) => Some(i.copy()),
        None => None,
    };
    let ms = m.as_str();
    if str_eq(ms, "initialize") {
        let i = match id {
            Some(i) => i,
            None => Json::Null,
        };
        push_elem(&mut out, reply_json(i, "result", mock_initialize_json()));
        push_elem(&mut out, mock_publish_json(sample));
        assert(elems_v(out@) =~= mock_replies_spec(msg@, sample@));
        return out;
    }
    if str_eq(ms, "initialized") || str_eq(ms, "exit") || str_eq(ms, "$/cancelRequest") {
        assert(elems_v(out@) =~= Seq::<JsonV>::empty());
        return out;
    }
    let i = match id {
        None => {
            assert(elems_v(out@) =~= Seq::<JsonV>::empty());
            return out;
        },
        Some(i) => i,
    };
    if str_eq(ms, "shutdown") {
        push_elem(&mut out, reply_json(i, "result", Json::Null));
    } else {
        match mock_result(ms, sample) {
            Some(res) => push_elem(&mut out, reply_json(i, "result", res)),
            None => {
                let mut e: Vec<(String, Json)> = Vec::new();
                push_field(&mut e, "code", Json::Int(-32601));
                push_field(&mut e, "message", Json::Str(concat("mock: method not implemented: ", ms)));
                let ghost ev = fields_v(e@);
                proof {
                    assert(ev =~= seq![
                        ("code"@, JsonV::Int(-32601i64)),
                        ("message"@, JsonV::Str("mock: method not implemented: "@ + m@)),
                    ]);
                }
                push_elem(&mut out, reply_json(i, "error", object(e)));
            },
        }
    }
    assert(elems_v(out@) =~= mock_replies_spec(msg@, sample@));
    out
}

/// The fake server's document: `src/main.rs` under the workspace's uri.
pub fn mock_sample_uri(root_uri: &str) -> (r: String)
    ensures
        r@ == root_uri@ + "/src/main.rs"@,
{
    concat(root_uri, "/src/main.rs")
}


// ---------------------------------------------------------------------------
// The command-line server's tool list

/// The tools of the command-line server, in order; each is described by its
/// own name and takes any object.
pub open spec fn command_tool_names() -> Seq<Seq<char>> {
    seq![
        "lsp_start"@, "lsp_stop"@, "lsp_restart"@, "lsp_diagnostics"@, "lsp_request"@, "lsp_hover"@,
        "lsp_definition"@, "lsp_references"@, "lsp_symbols"@, "lsp_cancel"@, "lsp_status"@,
    ]
}

fn push_named_tool(v: &mut Vec<ToolDef>, name: &str)
    ensures
        final(v)@.len() == old(v)@.len() + 1,
        forall|i: int| 0 <= i < old(v)@.len() ==> #[trigger] final(v)@[i] == old(v)@[i],
        final(v)@.last().name@ == name@,
        final(v)@.last().description@ == name@,
        final(v)@.last().input_schema@ == typed_spec("object"@),
{
    push_tool_def(v, name, name, typed("object"));
}

/// The tools of the command-line server: each named and described by its name,
/// with the input schema `{"type": "object"}`.
pub fn command_tool_defs() -> (r: Vec<ToolDef>)
    ensures
        r@.len() == 11,
        forall|i: int| 0 <= i < 11 ==> (#[trigger] r@[i]).name@ == command_tool_names()[i]
            && r@[i].description@ == command_tool_names()[i] && r@[i].input_schema@ == typed_spec("object"@),
{
    let mut v: Vec<ToolDef> = Vec::new();
    push_named_tool(&mut v, "lsp_start");
    push_named_tool(&mut v, "lsp_stop");
    push_named_tool(&mut v, "lsp_restart");
    push_named_tool(&mut v, "lsp_diagnostics");
    push_named_tool(&mut v, "lsp_request");
    push_named_tool(&mut v, "lsp_hover");
    push_named_tool(&mut v, "lsp_definition");
    push_named_tool(&mut v, "lsp_references");
    push_named_tool(&mut v, "lsp_symbols");
    push_named_tool(&mut v, "lsp_cancel");
    push_named_tool(&mut v, "lsp_status");
    v
}

} // verus!
