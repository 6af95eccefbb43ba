//! Read-only git helpers: the subcommand allowlist, the forbidden-argument
//! screen, object names, the path sandbox for optional paths, and the argument
//! lists of the four read-only tools.
use vstd::prelude::*;
use crate::json::{Json, JsonV, obj1, obj2, obj4, arr1, typed, typed_spec};
use crate::mcp::{ToolDef, push_tool_def, object_schema, required_schema, described_string,
    object_schema_json, required_schema_json, described_string_json};
use crate::text::{chars_of, string_of, owned, concat, concat3, str_eq, chars_eq, starts_with,
    to_ascii_lower, ascii_lower, has_prefix, contains_char, trim, trim_chars, views_s, dec, dec_string,
    byte_len, utf8_lossy, utf8_lossy_spec};
use crate::paths::{path_join, path_parent, path_file_name, path_starts_with, is_absolute, join_path,
    starts_with_path, parent_and_file_name};
use crate::workspace::str_result;

verus! {

/// The read-only git subcommands that may run.
pub open spec fn allowed_subcommands() -> Seq<Seq<char>> {
    seq!["status"@, "diff"@, "log"@, "show"@]
}

/// Arguments that must never reach git (compared after ASCII lowercasing, alone
/// or followed by `=`).
pub open spec fn forbidden_token_strs() -> Seq<&'static str> {
    seq![
        "commit", "push", "pull", "fetch", "rebase", "reset", "checkout", "merge", "cherry-pick",
        "add", "rm", "mv", "clean", "stash", "tag", "branch", "remote", "config", "filter-branch",
        "filter-repo", "--force", "-f", "--hard",
    ]
}

pub open spec fn forbidden_tokens() -> Seq<Seq<char>> {
    forbidden_token_strs().map_values(|t: &'static str| t@)
}

/// The argument, lowercased, is a forbidden token or starts with one and `=`.
pub open spec fn hits_token(arg: Seq<char>, tok: Seq<char>) -> bool {
    ascii_lower(arg) == tok || has_prefix(ascii_lower(arg), tok.push('='))
}

pub open spec fn is_forbidden_arg(arg: Seq<char>) -> bool {
    exists|k: int| 0 <= k < forbidden_tokens().len() && #[trigger] hits_token(arg, forbidden_tokens()[k])
}

fn forbidden_token_list() -> (v: Vec<&'static str>)
    ensures
        v@ == forbidden_token_strs(),
{
    let v: Vec<&'static str> = vec![
        "commit", "push", "pull", "fetch", "rebase", "reset", "checkout", "merge", "cherry-pick",
        "add", "rm", "mv", "clean", "stash", "tag", "branch", "remote", "config", "filter-branch",
        "filter-repo", "--force", "-f", "--hard",
    ];
    assert(v@ =~= forbidden_token_strs());
    v
}

/// Whether one argument is forbidden.
pub fn forbidden_arg(arg: &str) -> (r: bool)
    ensures
        r == is_forbidden_arg(arg@),
{
    let a = chars_of(arg);
    let lower = to_ascii_lower(a.as_slice());
    let toks = forbidden_token_list();
    let mut k: usize = 0;
    while k < toks.len()
        invariant
            k <= toks.len(),
            toks@ == forbidden_token_strs(),
            lower@ == ascii_lower(arg@),
            forall|j: int| 0 <= j < k ==> !#[trigger] hits_token(arg@, forbidden_tokens()[j]),
        decreases toks.len() - k,
    {
        let t = chars_of(toks[k]);
        let mut te = t.clone();
        te.push('=');
        proof {
            assert(forbidden_tokens()[k as int] == toks@[k as int]@);
            assert(t@ == forbidden_tokens()[k as int]);
        }
        if chars_eq(lower.as_slice(), t.as_slice()) || starts_with(lower.as_slice(), te.as_slice()) {
            assert(hits_token(arg@, forbidden_tokens()[k as int]));
            return true;
        }
        k += 1;
    }
    false
}

/// The first forbidden argument, if any, refuses the whole list.
pub fn reject_forbidden(args: &[String]) -> (r: Result<(), String>)
    ensures
        r is Ok <==> (forall|i: int| 0 <= i < args@.len() ==> !is_forbidden_arg(#[trigger] args@[i]@)),
        r matches Err(e) ==> exists|i: int|
            0 <= i < args@.len() && is_forbidden_arg(#[trigger] args@[i]@)
                && (forall|j: int| 0 <= j < i ==> !is_forbidden_arg(#[trigger] args@[j]@))
                && e@ == "forbidden git argument: "@ + args@[i]@,
{
    let mut i: usize = 0;
    while i < args.len()
        invariant
            i <= args.len(),
            forall|j: int| 0 <= j < i ==> !is_forbidden_arg(#[trigger] args@[j]@),
        decreases args.len() - i,
    {
        if forbidden_arg(args[i].as_str()) {
            let e = concat("forbidden git argument: ", args[i].as_str());
            assert(is_forbidden_arg(args@[i as int]@));
            return Err(e);
        }
        i += 1;
    }
    Ok(())
}

/// Only allowlisted subcommands may run.
pub fn validate_subcommand(sub: &str) -> (r: Result<(), String>)
    ensures
        r is Ok <==> allowed_subcommands().contains(sub@),
        r matches Err(e) ==> e@ == "git subcommand `"@ + sub@ + "` is not allowlisted"@,
{
    let ok = str_eq(sub, "status") || str_eq(sub, "diff") || str_eq(sub, "log") || str_eq(sub, "show");
    proof {
        let a = allowed_subcommands();
        assert(a[0] == "status"@ && a[1] == "diff"@ && a[2] == "log"@ && a[3] == "show"@);
        if ok {
            if sub@ == "status"@ { assert(a[0] == sub@); }
            if sub@ == "diff"@ { assert(a[1] == sub@); }
            if sub@ == "log"@ { assert(a[2] == sub@); }
            if sub@ == "show"@ { assert(a[3] == sub@); }
        }
        if a.contains(sub@) {
            let i = choose|i: int| 0 <= i < a.len() && a[i] == sub@;
            assert(i == 0 || i == 1 || i == 2 || i == 3);
        }
    }
    if ok {
        Ok(())
    } else {
        Err(concat3("git subcommand `", sub, "` is not allowlisted"))
    }
}

/// The characters an object name may hold: ASCII letters and digits and
/// `/ _ - . ~ ^ @ { }`.
pub open spec fn objectish_char(c: char) -> bool {
    ('a' <= c && c <= 'z') || ('A' <= c && c <= 'Z') || ('0' <= c && c <= '9') || c == '/' || c == '_'
        || c == '-' || c == '.' || c == '~' || c == '^' || c == '@' || c == '{' || c == '}'
}

/// The verdict on an object name (commit, tree or blob).
pub open spec fn objectish_spec(o: Seq<char>) -> Result<(), Seq<char>> {
    if o.len() == 0 || byte_len(o) > 256 {
        Err("invalid object"@)
    } else if o[0] == '-' {
        Err("object must not look like a flag"@)
    } else if !(forall|i: int| 0 <= i < o.len() ==> objectish_char(#[trigger] o[i])) {
        Err("object contains unsupported characters"@)
    } else {
        Ok(())
    }
}

fn objectish_char_exec(c: char) -> (r: bool)
    ensures
        r == objectish_char(c),
{
    ('a' <= c && c <= 'z') || ('A' <= c && c <= 'Z') || ('0' <= c && c <= '9') || c == '/' || c == '_'
        || c == '-' || c == '.' || c == '~' || c == '^' || c == '@' || c == '{' || c == '}'
}

/// Checks an object name before it is handed to `git show`.
pub fn validate_objectish(object: &str) -> (r: Result<(), String>)
    ensures
        match r {
            Ok(()) => objectish_spec(object@) == Ok::<(), Seq<char>>(()),
            Err(e) => objectish_spec(object@) == Err::<(), Seq<char>>(e@),
        },
{
    let o = chars_of(object);
    if o.len() == 0 || object.len() > 256 {
        return Err(owned("invalid object"));
    }
    if o[0] == '-' {
        return Err(owned("object must not look like a flag"));
    }
    let mut i: usize = 0;
    while i < o.len()
        invariant
            i <= o.len(),
            o@ == object@,
            o.len() > 0,
            byte_len(object@) <= 256,
            o@[0] != '-',
            forall|j: int| 0 <= j < i ==> objectish_char(#[trigger] o@[j]),
        decreases o.len() - i,
    {
        if !objectish_char_exec(o[i]) {
            assert(!objectish_char(object@[i as int]));
            return Err(owned("object contains unsupported characters"));
        }
        i += 1;
    }
    Ok(())
}

/// The git binary: `GIT_BINARY` trimmed when it is set and not blank, else `git`.
pub open spec fn git_binary_spec(raw: Option<Seq<char>>) -> Seq<char> {
    match raw {
        Some(r) => if trim(r).len() > 0 { trim(r) } else { "git"@ },
        None => "git"@,
    }
}

/// Picks the git binary from the raw value of `GIT_BINARY` (`None` when unset).
pub fn git_binary_from(raw: Option<&str>) -> (r: String)
    ensures
        r@ == git_binary_spec(match raw { Some(s) => Some(s@), None => None }),
{
    match raw {
        Some(s) => {
            let c = chars_of(s);
            let t = trim_chars(c.as_slice());
            if t.len() > 0 {
                string_of(t.as_slice())
            } else {
                owned("git")
            }
        },
        None => owned("git"),
    }
}

/// A non-empty string argument.
pub open spec fn arg_string_spec(args: JsonV, key: Seq<char>) -> Option<Seq<char>> {
    match args.str_at(key) {
        Some(s) => if s.len() > 0 { Some(s) } else { None },
        None => None,
    }
}

/// Reads a string argument, treating the empty string as absent.
pub fn arg_string(args: &Json, key: &str) -> (r: Option<String>)
    ensures
        match r {
            Some(s) => arg_string_spec(args@, key@) == Some(s@),
            None => arg_string_spec(args@, key@) is None,
        },
{
    match args.str_at(key) {
        Some(s) => if s.as_str().is_empty() { None } else { Some(s) },
        None => None,
    }
}

/// An unsigned argument with a default, capped at 500.
pub open spec fn arg_u64_spec(args: JsonV, key: Seq<char>, default: u64) -> u64 {
    let v = match args.get(key) {
        Some(j) => match j.as_u64() {
            Some(n) => n,
            None => default,
        },
        None => default,
    };
    if v < 500 { v } else { 500 }
}

/// Reads an unsigned argument with a default, capped at 500.
pub fn arg_u64(args: &Json, key: &str, default: u64) -> (r: u64)
    ensures
        r == arg_u64_spec(args@, key@, default),
{
    let v = match args.get(key) {
        Some(j) => match j.as_u64() {
            Some(n) => n,
            None => default,
        },
        None => default,
    };
    if v < 500 { v } else { 500 }
}

/// The path to resolve for an optional path argument: refused when blank or
/// holding NUL, else taken as is when absolute or under the root.
pub open spec fn git_candidate_spec(root: Seq<char>, user: Seq<char>) -> Result<Seq<char>, Seq<char>> {
    if trim(user).len() == 0 {
        Err("path must be non-empty"@)
    } else if user.contains('\0') {
        Err("path contains NUL"@)
    } else {
        Ok(path_join(root, user))
    }
}

/// The path to resolve for a path argument.
pub fn git_path_candidate(root: &str, user: &str) -> (r: Result<String, String>)
    ensures
        str_result(r) == git_candidate_spec(root@, user@),
{
    let u = chars_of(user);
    let t = trim_chars(u.as_slice());
    if t.len() == 0 {
        return Err(owned("path must be non-empty"));
    }
    if contains_char(u.as_slice(), '\0') {
        return Err(owned("path contains NUL"));
    }
    Ok(join_path(root, user))
}

/// For a path that does not exist yet: the parent to canonicalize and the file
/// name to join back onto it.
pub open spec fn missing_parts_spec(candidate: Seq<char>) -> Result<(Seq<char>, Seq<char>), Seq<char>> {
    match path_parent(candidate) {
        None => Err("path has no parent"@),
        Some(parent) => match path_file_name(candidate) {
            None => Err("path has no file name"@),
            Some(name) => Ok((parent, name)),
        },
    }
}

/// Splits a path that does not exist into its parent and file name.
pub fn missing_path_parts(candidate: &str) -> (r: Result<(String, String), String>)
    ensures
        match r {
            Ok((p, n)) => missing_parts_spec(candidate@) == Ok::<(Seq<char>, Seq<char>), Seq<char>>((p@, n@)),
            Err(e) => missing_parts_spec(candidate@) == Err::<(Seq<char>, Seq<char>), Seq<char>>(e@),
        },
{
    let (parent, name) = parent_and_file_name(candidate);
    match parent {
        None => Err(owned("path has no parent")),
        Some(p) => match name {
            None => Err(owned("path has no file name")),
            Some(n) => Ok((p, n)),
        },
    }
}

/// Keeps a canonical path only if it lies under the workspace root.
pub fn resolve_under_root(root: &str, canonical: &str) -> (r: Result<String, String>)
    ensures
        r matches Ok(p) ==> p@ == canonical@,
        r matches Err(e) ==> e@ == "path escapes workspace root"@,
        r is Ok <==> path_starts_with(canonical@, root@),
{
    if !starts_with_path(canonical, root) {
        return Err(owned("path escapes workspace root"));
    }
    Ok(owned(canonical))
}

/// `-- <path>` when a path was given.
pub open spec fn path_tail(path: Option<Seq<char>>) -> Seq<Seq<char>> {
    match path {
        Some(p) => seq!["--"@, p],
        None => Seq::empty(),
    }
}

pub open spec fn opt_view(o: Option<String>) -> Option<Seq<char>> {
    match o {
        Some(s) => Some(s@),
        None => None,
    }
}

fn push_path_tail(extra: &mut Vec<String>, path: Option<String>)
    ensures
        views_s(final(extra)@) == views_s(old(extra)@) + path_tail(opt_view(path)),
{
    match path {
        Some(p) => {
            let ghost p_v = p@;
            extra.push(owned("--"));
            extra.push(p);
            assert(views_s(extra@) =~= views_s(old(extra)@) + seq!["--"@, p_v]);
        },
        None => {
            assert(views_s(extra@) =~= views_s(old(extra)@) + Seq::<Seq<char>>::empty());
        },
    }
}

/// The arguments after `status`: porcelain v1 with the branch line.
pub fn status_extra(path: Option<String>) -> (r: Vec<String>)
    ensures
        views_s(r@) == seq!["--porcelain=v1"@, "-b"@] + path_tail(opt_view(path)),
{
    let mut r: Vec<String> = Vec::new();
    r.push(owned("--porcelain=v1"));
    r.push(owned("-b"));
    assert(views_s(r@) =~= seq!["--porcelain=v1"@, "-b"@]);
    push_path_tail(&mut r, path);
    r
}

/// The arguments after `diff`: `--cached` when `staged` is true.
pub fn diff_extra(args: &Json, path: Option<String>) -> (r: Vec<String>)
    ensures
        views_s(r@) == (if args@.bool_at("staged"@) == Some(true) { seq!["--cached"@] } else { Seq::empty() })
            + path_tail(opt_view(path)),
{
    let mut r: Vec<String> = Vec::new();
    let staged = match args.bool_at("staged") {
        Some(b) => b,
        None => false,
    };
    if staged {
        r.push(owned("--cached"));
    }
    assert(views_s(r@) =~= (if args@.bool_at("staged"@) == Some(true) { seq!["--cached"@] } else { Seq::empty() }));
    push_path_tail(&mut r, path);
    r
}

/// The arguments after `log`: at most `limit` (default 20, capped at 500)
/// entries, one tab-separated line each, ISO dates.
pub fn log_extra(args: &Json, path: Option<String>) -> (r: Vec<String>)
    ensures
        views_s(r@) == seq!["-n"@ + dec(arg_u64_spec(args@, "limit"@, 20) as nat),
            "--pretty=format:%H%x09%an%x09%ad%x09%s"@, "--date=iso-strict"@] + path_tail(opt_view(path)),
{
    let n = arg_u64(args, "limit", 20);
    let ns = dec_string(n);
    let mut r: Vec<String> = Vec::new();
    r.push(concat("-n", ns.as_str()));
    r.push(owned("--pretty=format:%H%x09%an%x09%ad%x09%s"));
    r.push(owned("--date=iso-strict"));
    assert(views_s(r@) =~= seq!["-n"@ + dec(n as nat), "--pretty=format:%H%x09%an%x09%ad%x09%s"@, "--date=iso-strict"@]);
    push_path_tail(&mut r, path);
    r
}

/// The object to show: required, then checked.
pub open spec fn show_object_spec(args: JsonV) -> Result<Seq<char>, Seq<char>> {
    match arg_string_spec(args, "object"@) {
        None => Err("object is required"@),
        Some(o) => match objectish_spec(o) {
            Err(e) => Err(e),
            Ok(()) => Ok(o),
        },
    }
}

/// Reads and checks the object of a `git_show` request.
pub fn show_object(args: &Json) -> (r: Result<String, String>)
    ensures
        str_result(r) == show_object_spec(args@),
{
    match arg_string(args, "object") {
        None => Err(owned("object is required")),
        Some(o) => match validate_objectish(o.as_str()) {
            Err(e) => Err(e),
            Ok(()) => Ok(o),
        },
    }
}

/// The arguments after `show`: the diffstat of the object.
pub fn show_extra(object: String, path: Option<String>) -> (r: Vec<String>)
    ensures
        views_s(r@) == seq!["--stat"@, object@] + path_tail(opt_view(path)),
{
    let ghost o = object@;
    let mut r: Vec<String> = Vec::new();
    r.push(owned("--stat"));
    r.push(object);
    assert(views_s(r@) =~= seq!["--stat"@, o]);
    push_path_tail(&mut r, path);
    r
}

/// The full git command line: `-C <root> <subcommand> <extra...>`, once the
/// subcommand is allowlisted and no argument is forbidden.
pub fn git_argv(root: &str, subcommand: &str, extra: &Vec<String>) -> (r: Result<Vec<String>, String>)
    ensures
        r is Ok <==> allowed_subcommands().contains(subcommand@)
            && (forall|i: int| 0 <= i < extra@.len() ==> !is_forbidden_arg(#[trigger] extra@[i]@)),
        r matches Ok(v) ==> views_s(v@) == seq!["-C"@, root@, subcommand@] + views_s(extra@),
        r matches Err(e) ==> !allowed_subcommands().contains(subcommand@)
            ==> e@ == "git subcommand `"@ + subcommand@ + "` is not allowlisted"@,
        r matches Err(e) ==> allowed_subcommands().contains(subcommand@) ==> exists|i: int|
            0 <= i < extra@.len() && is_forbidden_arg(#[trigger] extra@[i]@)
                && (forall|j: int| 0 <= j < i ==> !is_forbidden_arg(#[trigger] extra@[j]@))
                && e@ == "forbidden git argument: "@ + extra@[i]@,
{
    match validate_subcommand(subcommand) {
        Err(e) => return Err(e),
        Ok(()) => {},
    }
    match reject_forbidden(extra.as_slice()) {
        Err(e) => return Err(e),
        Ok(()) => {},
    }
    let mut v: Vec<String> = Vec::new();
    v.push(owned("-C"));
    v.push(owned(root));
    v.push(owned(subcommand));
    let mut i: usize = 0;
    while i < extra.len()
        invariant
            i <= extra.len(),
            views_s(v@) == seq!["-C"@, root@, subcommand@] + views_s(extra@).take(i as int),
        decreases extra.len() - i,
    {
        let ghost old_v = v@;
        v.push(owned(extra[i].as_str()));
        assert(views_s(extra@).take(i + 1) =~= views_s(extra@).take(i as int).push(extra@[i as int]@));
        assert(views_s(v@) =~= views_s(old_v).push(extra@[i as int]@));
        i += 1;
    }
    assert(views_s(extra@).take(extra.len() as int) =~= views_s(extra@));
    Ok(v)
}

/// What a finished git run gives back: an error when it failed, else its
/// standard output, or its standard error when only that has text.
pub open spec fn git_output_spec(subcommand: Seq<char>, success: bool, status: Seq<char>, stdout: Seq<char>, stderr: Seq<char>) -> Result<Seq<char>, Seq<char>> {
    if !success {
        Err("git "@ + subcommand + " failed ("@ + status + "): "@ + trim(stderr))
    } else if stdout.len() == 0 && stderr.len() > 0 {
        Ok(stderr)
    } else {
        Ok(stdout)
    }
}

/// Turns the outcome of a git run (exit status, its text, and the raw output
/// streams) into the tool's answer.
pub fn git_output(subcommand: &str, success: bool, status: &str, stdout: &[u8], stderr: &[u8]) -> (r: Result<String, String>)
    ensures
        str_result(r) == git_output_spec(subcommand@, success, status@, utf8_lossy_spec(stdout@), utf8_lossy_spec(stderr@)),
{
    let out = utf8_lossy(stdout);
    let err = utf8_lossy(stderr);
    if !success {
        let ec = chars_of(err.as_str());
        let t = trim_chars(ec.as_slice());
        let ts = string_of(t.as_slice());
        let a = concat3("git ", subcommand, " failed (");
        let b = concat3(a.as_str(), status, "): ");
        return Err(concat(b.as_str(), ts.as_str()));
    }
    if out.as_str().is_empty() && !err.as_str().is_empty() {
        return Ok(err);
    }
    Ok(out)
}


// ---------------------------------------------------------------------------
// The tool list

pub open spec fn git_tool_names() -> Seq<Seq<char>> {
    seq!["git_status"@, "git_diff"@, "git_log"@, "git_show"@]
}

pub open spec fn git_tool_descriptions() -> Seq<Seq<char>> {
    seq![
        "Read-only git status (--porcelain) for the workspace root."@,
        "Read-only git diff (optionally staged) for the workspace."@,
        "Read-only git log (bounded)."@,
        "Read-only git show for an object (commit/tree/blob)."@,
    ]
}

/// `limit`: 1 to 500, 20 by default.
pub open spec fn limit_schema() -> JsonV {
    JsonV::Obj(seq![
        ("type"@, JsonV::Str("integer"@)),
        ("minimum"@, JsonV::UInt(1)),
        ("maximum"@, JsonV::UInt(500)),
        ("default"@, JsonV::UInt(20)),
    ])
}

pub open spec fn git_tool_schemas() -> Seq<JsonV> {
    seq![
        object_schema(seq![("path"@, described_string("Optional path under workspace"@))]),
        object_schema(seq![
            ("path"@, typed_spec("string"@)),
            ("staged"@, JsonV::Obj(seq![("type"@, JsonV::Str("boolean"@)), ("default"@, JsonV::Bool(false))])),
        ]),
        object_schema(seq![("limit"@, limit_schema()), ("path"@, typed_spec("string"@))]),
        required_schema(seq![JsonV::Str("object"@)], seq![("object"@, typed_spec("string"@)), ("path"@, typed_spec("string"@))]),
    ]
}

/// The four read-only git tools: name, description and input schema of each.
pub fn git_tool_defs() -> (r: Vec<ToolDef>)
    ensures
        r@.len() == 4,
        forall|i: int| 0 <= i < 4 ==> (#[trigger] r@[i]).name@ == git_tool_names()[i]
            && r@[i].description@ == git_tool_descriptions()[i] && r@[i].input_schema@ == git_tool_schemas()[i],
{
    let mut v: Vec<ToolDef> = Vec::new();
    push_tool_def(&mut v, "git_status", "Read-only git status (--porcelain) for the workspace root.",
        object_schema_json(obj1("path", described_string_json("Optional path under workspace"))));
    push_tool_def(&mut v, "git_diff", "Read-only git diff (optionally staged) for the workspace.",
        object_schema_json(obj2("path", typed("string"), "staged", obj2("type", Json::string("boolean"), "default", Json::Bool(false)))));
    let limit = obj4("type", Json::string("integer"), "minimum", Json::UInt(1), "maximum", Json::UInt(500), "default", Json::UInt(20));
    push_tool_def(&mut v, "git_log", "Read-only git log (bounded).",
        object_schema_json(obj2("limit", limit, "path", typed("string"))));
    push_tool_def(&mut v, "git_show", "Read-only git show for an object (commit/tree/blob).",
        required_schema_json(arr1(Json::string("object")), obj2("object", typed("string"), "path", typed("string"))));
    v
}


/// The allowlisted git subcommands are exactly `status`, `diff`, `log` and
/// `show`: each of the four is accepted and nothing else is.
pub proof fn lemma_allowed_subcommands(sub: Seq<char>)
    ensures
        allowed_subcommands().contains(sub) <==> (sub == "status"@ || sub == "diff"@ || sub == "log"@ || sub == "show"@),
{
    let a = allowed_subcommands();
    assert(a[0] == "status"@ && a[1] == "diff"@ && a[2] == "log"@ && a[3] == "show"@);
    if a.contains(sub) {
        let i = choose|i: int| 0 <= i < a.len() && a[i] == sub;
        assert(i == 0 || i == 1 || i == 2 || i == 3);
    }
}

} // verus!
