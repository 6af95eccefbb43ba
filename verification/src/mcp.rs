//! The MCP stdio JSON-RPC subset that every extension server speaks:
//! `initialize`, `notifications/initialized`, `tools/list`, `tools/call`, `ping`.
use vstd::prelude::*;
use crate::json::{Json, JsonV, elems_v, fields_v, push_field, push_elem, object, array, lemma_arr_view, obj2, obj3};
use crate::text::{owned, concat, concat3, str_eq};

verus! {

/// An MCP tool as listed by `tools/list`.
pub struct ToolDef {
    pub name: String,
    pub description: String,
    pub input_schema: Json,
}

/// Appends a tool to a tool list.
pub fn push_tool_def(v: &mut Vec<ToolDef>, name: &str, description: &str, input_schema: Json)
    ensures
        final(v)@.len() == old(v)@.len() + 1,
        forall|i: int| 0 <= i < old(v)@.len() ==> #[trigger] final(v)@[i] == old(v)@[i],
        final(v)@.last().name@ == name@,
        final(v)@.last().description@ == description@,
        final(v)@.last().input_schema@ == input_schema@,
{
    v.push(ToolDef { name: owned(name), description: owned(description), input_schema });
}

/// A string argument with a description.
pub open spec fn described_string(d: Seq<char>) -> JsonV {
    JsonV::Obj(seq![("type"@, JsonV::Str("string"@)), ("description"@, JsonV::Str(d))])
}

/// An object schema with the given properties.
pub open spec fn object_schema(props: Seq<(Seq<char>, JsonV)>) -> JsonV {
    JsonV::Obj(seq![("type"@, JsonV::Str("object"@)), ("properties"@, JsonV::Obj(props))])
}

/// An object schema with required members and the given properties.
pub open spec fn required_schema(required: Seq<JsonV>, props: Seq<(Seq<char>, JsonV)>) -> JsonV {
    JsonV::Obj(seq![
        ("type"@, JsonV::Str("object"@)),
        ("required"@, JsonV::Arr(required)),
        ("properties"@, JsonV::Obj(props)),
    ])
}

/// A string argument with a description.
pub fn described_string_json(d: &str) -> (r: Json)
    ensures
        r@ == described_string(d@),
{
    obj2("type", Json::string("string"), "description", Json::string(d))
}

/// An object schema with the given properties.
pub fn object_schema_json(props: Json) -> (r: Json)
    requires
        props@ is Obj,
    ensures
        r@ == object_schema(props@->Obj_0),
{
    obj2("type", Json::string("object"), "properties", props)
}

/// An object schema with required members and the given properties.
pub fn required_schema_json(required: Json, props: Json) -> (r: Json)
    requires
        required@ is Arr,
        props@ is Obj,
    ensures
        r@ == required_schema(required@->Arr_0, props@->Obj_0),
{
    obj3("type", Json::string("object"), "required", required, "properties", props)
}

/// What a tool call produced: text, and whether it is an error report.
#[derive(Debug)]
pub struct ToolResult {
    pub text: String,
    pub is_error: bool,
}

impl ToolResult {
    /// A successful tool result.
    pub fn ok(text: String) -> (r: ToolResult)
        ensures
            r.text@ == text@,
            !r.is_error,
    {
        ToolResult { text, is_error: false }
    }

    /// A tool result that reports an error.
    pub fn err(text: String) -> (r: ToolResult)
        ensures
            r.text@ == text@,
            r.is_error,
    {
        ToolResult { text, is_error: true }
    }
}

/// Name and version reported by `initialize`.
pub struct ServerInfo {
    pub name: String,
    pub version: String,
}

/// A JSON-RPC message read from the client.
pub enum RpcMessage {
    Request { id: Json, method: String, params: Option<Json> },
    Notification { method: String, params: Option<Json> },
}

/// How a JSON value reads as an optional `params` member: absent or `null` is none.
pub open spec fn opt_params(v: Option<JsonV>) -> Option<JsonV> {
    match v {
        Some(JsonV::Null) => None,
        Some(p) => Some(p),
        None => None,
    }
}

/// The request that a JSON value denotes, as (id, method, params), if it has the
/// shape of one: an object with string `jsonrpc`, `id`, string `method`, optional
/// `params`; or an array of exactly those four.
pub open spec fn request_shape(m: JsonV) -> Option<(JsonV, Seq<char>, Option<JsonV>)> {
    match m {
        JsonV::Obj(_) => {
            if m.str_at("jsonrpc"@) is Some && m.get("id"@) is Some && m.str_at("method"@) is Some {
                Some((m.get("id"@).unwrap(), m.str_at("method"@).unwrap(), opt_params(m.get("params"@))))
            } else {
                None
            }
        },
        JsonV::Arr(a) => {
            if a.len() == 4 && a[0] is Str && a[2] is Str {
                Some((a[1], a[2]->Str_0, opt_params(Some(a[3]))))
            } else {
                None
            }
        },
        _ => None,
    }
}

/// The notification that a JSON value denotes, as (method, params).
pub open spec fn notification_shape(m: JsonV) -> Option<(Seq<char>, Option<JsonV>)> {
    match m {
        JsonV::Obj(_) => {
            if m.str_at("jsonrpc"@) is Some && m.str_at("method"@) is Some {
                Some((m.str_at("method"@).unwrap(), opt_params(m.get("params"@))))
            } else {
                None
            }
        },
        JsonV::Arr(a) => {
            if a.len() == 3 && a[0] is Str && a[1] is Str {
                Some((a[1]->Str_0, opt_params(Some(a[2]))))
            } else {
                None
            }
        },
        _ => None,
    }
}

pub open spec fn opt_view(p: Option<Json>) -> Option<JsonV> {
    match p {
        Some(j) => Some(j@),
        None => None,
    }
}

fn read_params(p: Option<&Json>) -> (r: Option<Json>)
    ensures
        opt_view(r) == opt_params(match p { Some(j) => Some(j@), None => None }),
{
    match p {
        Some(j) => match j {
            Json::Null => None,
            _ => Some(j.copy()),
        },
        None => None,
    }
}

/// Reads a JSON value as a JSON-RPC request (tried first) or notification.
pub fn classify_message(m: &Json) -> (r: Option<RpcMessage>)
    ensures
        match r {
            Some(RpcMessage::Request { id, method, params }) => request_shape(m@) == Some(
                (id@, method@, opt_view(params)),
            ),
            Some(RpcMessage::Notification { method, params }) => request_shape(m@) is None
                && notification_shape(m@) == Some((method@, opt_view(params))),
            None => request_shape(m@) is None && notification_shape(m@) is None,
        },
{
    match m {
        Json::Obj(_) => {
            let has_version = m.str_at("jsonrpc").is_some();
            let method = m.str_at("method");
            if has_version && method.is_some() {
                let method = method.unwrap();
                match m.get("id") {
                    Some(id) => {
                        let params = read_params(m.get("params"));
                        return Some(RpcMessage::Request { id: id.copy(), method, params });
                    },
                    None => {
                        let params = read_params(m.get("params"));
                        return Some(RpcMessage::Notification { method, params });
                    },
                }
            }
            None
        },
        Json::Arr(a) => {
            proof {
                lemma_arr_view(*a);
            }
            if a.len() == 4 {
                match (&a[0], &a[2]) {
                    (Json::Str(_), Json::Str(method)) => {
                        let params = read_params(Some(&a[3]));
                        return Some(
                            RpcMessage::Request { id: a[1].copy(), method: method.clone(), params },
                        );
                    },
                    _ => {},
                }
            }
            if a.len() == 3 {
                match (&a[0], &a[1]) {
                    (Json::Str(_), Json::Str(method)) => {
                        let params = read_params(Some(&a[2]));
                        return Some(RpcMessage::Notification { method: method.clone(), params });
                    },
                    _ => {},
                }
            }
            None
        },
        _ => None,
    }
}


/// What the server does with a request: answer it, fail it, or hand a tool call
/// to the tool handler.
pub enum DispatchStep {
    Reply(Json),
    Fail(String),
    CallTool { name: String, arguments: Json },
}

pub enum DispatchStepV {
    Reply(JsonV),
    Fail(Seq<char>),
    CallTool(Seq<char>, JsonV),
}

impl View for DispatchStep {
    type V = DispatchStepV;

    open spec fn view(&self) -> DispatchStepV {
        match self {
            DispatchStep::Reply(j) => DispatchStepV::Reply(j@),
            DispatchStep::Fail(s) => DispatchStepV::Fail(s@),
            DispatchStep::CallTool { name, arguments } => DispatchStepV::CallTool(name@, arguments@),
        }
    }
}

/// A tool definition as `tools/list` reports it.
pub open spec fn tool_def_v(t: ToolDef) -> JsonV {
    JsonV::Obj(
        seq![
            ("name"@, JsonV::Str(t.name@)),
            ("description"@, JsonV::Str(t.description@)),
            ("inputSchema"@, t.input_schema@),
        ],
    )
}

/// The reply to `initialize`.
pub open spec fn initialize_reply(name: Seq<char>, version: Seq<char>) -> JsonV {
    JsonV::Obj(
        seq![
            ("protocolVersion"@, JsonV::Str("2024-11-05"@)),
            ("capabilities"@, JsonV::Obj(seq![("tools"@, JsonV::Obj(Seq::empty()))])),
            ("serverInfo"@, JsonV::Obj(seq![("name"@, JsonV::Str(name)), ("version"@, JsonV::Str(version))])),
        ],
    )
}

/// The reply to a tool call whose handler produced `text` / `is_error`.
pub open spec fn tool_call_reply_v(text: Seq<char>, is_error: bool) -> JsonV {
    JsonV::Obj(
        seq![
            ("content"@, JsonV::Arr(seq![JsonV::Obj(seq![("type"@, JsonV::Str("text"@)), ("text"@, JsonV::Str(text))])])),
            ("isError"@, JsonV::Bool(is_error)),
        ],
    )
}

pub struct McpServer {
    info: ServerInfo,
    tools: Vec<ToolDef>,
}

impl McpServer {
    pub fn new(info: ServerInfo, tools: Vec<ToolDef>) -> (r: McpServer)
        ensures
            r.info_name() == info.name@,
            r.info_version() == info.version@,
            r.tool_list() == tools@,
    {
        McpServer { info, tools }
    }

    pub closed spec fn info_name(&self) -> Seq<char> {
        self.info.name@
    }

    pub closed spec fn info_version(&self) -> Seq<char> {
        self.info.version@
    }

    pub closed spec fn tool_list(&self) -> Seq<ToolDef> {
        self.tools@
    }

    /// Whether a tool of that name is listed.
    pub open spec fn has_tool(&self, name: Seq<char>) -> bool {
        exists|i: int| 0 <= i < self.tool_list().len() && #[trigger] self.tool_list()[i].name@ == name
    }

    /// What `dispatch` does with `method` and `params`.
    pub open spec fn dispatch_spec(&self, method: Seq<char>, params: Option<JsonV>) -> DispatchStepV {
        if method == "initialize"@ {
            DispatchStepV::Reply(initialize_reply(self.info_name(), self.info_version()))
        } else if method == "ping"@ {
            DispatchStepV::Reply(JsonV::Obj(Seq::empty()))
        } else if method == "tools/list"@ {
            DispatchStepV::Reply(
                JsonV::Obj(seq![("tools"@, JsonV::Arr(self.tool_list().map_values(|t: ToolDef| tool_def_v(t))))]),
            )
        } else if method == "tools/call"@ {
            match params {
                None => DispatchStepV::Fail("tools/call missing params"@),
                Some(p) => match p.str_at("name"@) {
                    None => DispatchStepV::Fail("tools/call missing name"@),
                    Some(name) => {
                        if self.has_tool(name) {
                            DispatchStepV::CallTool(
                                name,
                                match p.get("arguments"@) {
                                    Some(a) => a,
                                    None => JsonV::Obj(Seq::empty()),
                                },
                            )
                        } else {
                            DispatchStepV::Fail("unknown tool `"@ + name + "`"@)
                        }
                    },
                },
            }
        } else {
            DispatchStepV::Fail("method not found: "@ + method)
        }
    }

    /// The JSON that `tools/list` reports for the tool definitions.
    fn tools_json(&self) -> (r: Json)
        ensures
            r@ == JsonV::Arr(self.tool_list().map_values(|t: ToolDef| tool_def_v(t))),
    {
        let mut out: Vec<Json> = Vec::new();
        let mut i: usize = 0;
        while i < self.tools.len()
            invariant
                i <= self.tools.len(),
                elems_v(out@) == self.tools@.take(i as int).map_values(|t: ToolDef| tool_def_v(t)),
            decreases self.tools.len() - i,
        {
            let t = &self.tools[i];
            let mut f: Vec<(String, Json)> = Vec::new();
            push_field(&mut f, "name", Json::Str(t.name.clone()));
            push_field(&mut f, "description", Json::Str(t.description.clone()));
            push_field(&mut f, "inputSchema", t.input_schema.copy());
            let o = object(f);
            proof {
                assert(fields_v(f@) =~= tool_def_v(*t)->Obj_0);
            }
            push_elem(&mut out, o);
            proof {
                assert(self.tools@.take(i + 1) == self.tools@.take(i as int).push(*t));
                assert(self.tools@.take(i + 1).map_values(|t: ToolDef| tool_def_v(t))
                    =~= self.tools@.take(i as int).map_values(|t: ToolDef| tool_def_v(t)).push(tool_def_v(*t)));
            }
            i += 1;
        }
        proof {
            assert(self.tools@.take(self.tools@.len() as int) == self.tools@);
        }
        array(out)
    }

    fn find_tool(&self, name: &str) -> (r: bool)
        ensures
            r == self.has_tool(name@),
    {
        let mut i: usize = 0;
        while i < self.tools.len()
            invariant
                i <= self.tools.len(),
                forall|j: int| 0 <= j < i ==> self.tools@[j].name@ != name@,
            decreases self.tools.len() - i,
        {
            if str_eq(self.tools[i].name.as_str(), name) {
                return true;
            }
            i += 1;
        }
        false
    }

    /// Decides what a request with `method` and `params` yields.
    pub fn dispatch(&self, method: &str, params: Option<&Json>) -> (r: DispatchStep)
        ensures
            r@ == self.dispatch_spec(method@, match params { Some(p) => Some(p@), None => None }),
    {
        proof {
            reveal_strlit("initialize");
            reveal_strlit("ping");
            reveal_strlit("tools/list");
            reveal_strlit("tools/call");
        }
        if str_eq(method, "initialize") {
            let mut cap: Vec<(String, Json)> = Vec::new();
            push_field(&mut cap, "tools", Json::empty_object());
            let mut si: Vec<(String, Json)> = Vec::new();
            push_field(&mut si, "name", Json::Str(self.info.name.clone()));
            push_field(&mut si, "version", Json::Str(self.info.version.clone()));
            let mut f: Vec<(String, Json)> = Vec::new();
            push_field(&mut f, "protocolVersion", Json::string("2024-11-05"));
            push_field(&mut f, "capabilities", object(cap));
            push_field(&mut f, "serverInfo", object(si));
            let r = object(f);
            proof {
                assert(fields_v(cap@) =~= seq![("tools"@, JsonV::Obj(Seq::empty()))]);
                assert(fields_v(si@) =~= seq![("name"@, JsonV::Str(self.info_name())), ("version"@, JsonV::Str(self.info_version()))]);
                assert(fields_v(f@) =~= initialize_reply(self.info_name(), self.info_version())->Obj_0);
            }
            DispatchStep::Reply(r)
        } else if str_eq(method, "ping") {
            DispatchStep::Reply(Json::empty_object())
        } else if str_eq(method, "tools/list") {
            let mut f: Vec<(String, Json)> = Vec::new();
            push_field(&mut f, "tools", self.tools_json());
            let r = object(f);
            proof {
                assert(fields_v(f@) =~= seq![("tools"@, JsonV::Arr(self.tool_list().map_values(|t: ToolDef| tool_def_v(t))))]);
            }
            DispatchStep::Reply(r)
        } else if str_eq(method, "tools/call") {
            match params {
                None => DispatchStep::Fail(owned("tools/call missing params")),
                Some(p) => match p.str_at("name") {
                    None => DispatchStep::Fail(owned("tools/call missing name")),
                    Some(name) => {
                        if self.find_tool(name.as_str()) {
                            let arguments = match p.get("arguments") {
                                Some(a) => a.copy(),
                                None => Json::empty_object(),
                            };
                            DispatchStep::CallTool { name, arguments }
                        } else {
                            DispatchStep::Fail(concat3("unknown tool `", name.as_str(), "`"))
                        }
                    },
                },
            }
        } else {
            DispatchStep::Fail(concat("method not found: ", method))
        }
    }
}

/// The reply to a completed tool call.
pub fn tool_call_reply(result: &ToolResult) -> (r: Json)
    ensures
        r@ == tool_call_reply_v(result.text@, result.is_error),
{
    let mut item: Vec<(String, Json)> = Vec::new();
    push_field(&mut item, "type", Json::string("text"));
    push_field(&mut item, "text", Json::Str(result.text.clone()));
    let mut content: Vec<Json> = Vec::new();
    push_elem(&mut content, object(item));
    let mut f: Vec<(String, Json)> = Vec::new();
    push_field(&mut f, "content", array(content));
    push_field(&mut f, "isError", Json::Bool(result.is_error));
    let r = object(f);
    proof {
        assert(fields_v(item@) =~= seq![("type"@, JsonV::Str("text"@)), ("text"@, JsonV::Str(result.text@))]);
        assert(elems_v(content@) =~= seq![JsonV::Obj(seq![("type"@, JsonV::Str("text"@)), ("text"@, JsonV::Str(result.text@))])]);
        assert(fields_v(f@) =~= tool_call_reply_v(result.text@, result.is_error)->Obj_0);
    }
    r
}

/// The JSON-RPC response for request `id`: its result, or an error with code -32000.
pub open spec fn response_v(id: JsonV, outcome: Result<JsonV, Seq<char>>) -> JsonV {
    match outcome {
        Ok(v) => JsonV::Obj(seq![("jsonrpc"@, JsonV::Str("2.0"@)), ("id"@, id), ("result"@, v)]),
        Err(m) => JsonV::Obj(
            seq![
                ("jsonrpc"@, JsonV::Str("2.0"@)),
                ("id"@, id),
                ("error"@, JsonV::Obj(seq![("code"@, JsonV::Int(-32000i64)), ("message"@, JsonV::Str(m))])),
            ],
        ),
    }
}

pub open spec fn outcome_v(outcome: Result<Json, String>) -> Result<JsonV, Seq<char>> {
    match outcome {
        Ok(v) => Ok(v@),
        Err(m) => Err(m@),
    }
}

/// Builds the JSON-RPC response to request `id`.
pub fn response(id: Json, outcome: Result<Json, String>) -> (r: Json)
    ensures
        r@ == response_v(id@, outcome_v(outcome)),
{
    let ghost idv = id@;
    let ghost ov = outcome_v(outcome);
    let mut f: Vec<(String, Json)> = Vec::new();
    push_field(&mut f, "jsonrpc", Json::string("2.0"));
    push_field(&mut f, "id", id);
    match outcome {
        Ok(v) => {
            let ghost vv = v@;
            push_field(&mut f, "result", v);
            let r = object(f);
            proof {
                assert(fields_v(f@) =~= response_v(idv, ov)->Obj_0);
            }
            r
        },
        Err(m) => {
            let ghost mv = m@;
            let mut e: Vec<(String, Json)> = Vec::new();
            push_field(&mut e, "code", Json::Int(-32000));
            push_field(&mut e, "message", Json::Str(m));
            push_field(&mut f, "error", object(e));
            let r = object(f);
            proof {
                assert(fields_v(e@) =~= seq![("code"@, JsonV::Int(-32000i64)), ("message"@, JsonV::Str(mv))]);
                assert(fields_v(f@) =~= response_v(idv, ov)->Obj_0);
            }
            r
        },
    }
}


/// A `tools/call` of a listed tool hands the tool exactly the `arguments` of
/// the request, and an empty object when the request has none; the rest of the
/// request (its `name`) is not passed on.
pub proof fn lemma_tools_call_passes_arguments(s: McpServer, name: Seq<char>, args: JsonV)
    requires
        s.has_tool(name),
    ensures
        s.dispatch_spec("tools/call"@, Some(JsonV::Obj(seq![("name"@, JsonV::Str(name)), ("arguments"@, args)])))
            == DispatchStepV::CallTool(name, args),
        s.dispatch_spec("tools/call"@, Some(JsonV::Obj(seq![("arguments"@, args), ("name"@, JsonV::Str(name))])))
            == DispatchStepV::CallTool(name, args),
        s.dispatch_spec("tools/call"@, Some(JsonV::Obj(seq![("name"@, JsonV::Str(name))])))
            == DispatchStepV::CallTool(name, JsonV::Obj(Seq::empty())),
{
    reveal_strlit("name");
    reveal_strlit("arguments");
    reveal_strlit("tools/call");
    reveal_strlit("initialize");
    reveal_strlit("ping");
    reveal_strlit("tools/list");
    assert("tools/call"@ != "initialize"@ && "tools/call"@ != "ping"@ && "tools/call"@ != "tools/list"@) by {
        assert("tools/call"@[6] != "tools/list"@[6]);
        assert("tools/call"@[0] != "initialize"@[0]);
        assert("tools/call"@.len() != "ping"@.len());
    }
    let f1 = seq![("name"@, JsonV::Str(name)), ("arguments"@, args)];
    let f2 = seq![("arguments"@, args), ("name"@, JsonV::Str(name))];
    let f3 = seq![("name"@, JsonV::Str(name))];
    assert("name"@ != "arguments"@) by {
        assert("name"@.len() != "arguments"@.len());
    }
    crate::json::lemma_lookup_at(f1, "name"@, 0);
    crate::json::lemma_lookup_at(f1, "arguments"@, 1);
    crate::json::lemma_lookup_at(f2, "name"@, 1);
    crate::json::lemma_lookup_at(f2, "arguments"@, 0);
    crate::json::lemma_lookup_at(f3, "name"@, 0);
    crate::json::lemma_lookup_none(f3, "arguments"@);
    assert(f1[1].1 == args);
    assert(f2[0].1 == args);
    assert(JsonV::Obj(f1).str_at("name"@) == Some(name));
    assert(JsonV::Obj(f1).get("arguments"@) == Some(args));
    assert(JsonV::Obj(f2).str_at("name"@) == Some(name));
    assert(JsonV::Obj(f2).get("arguments"@) == Some(args));
    assert(s.dispatch_spec("tools/call"@, Some(JsonV::Obj(f1))) == DispatchStepV::CallTool(name, args));
    assert(s.dispatch_spec("tools/call"@, Some(JsonV::Obj(f2))) == DispatchStepV::CallTool(name, args));
}

} // verus!
