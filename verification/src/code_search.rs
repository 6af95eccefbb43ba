//! Workspace-sandboxed text search: argument rules, the path sandbox, and the
//! filtering of ripgrep output back into the workspace.
use vstd::prelude::*;
use crate::json::{Json, JsonV, obj2, obj3, obj4, arr1};
use crate::mcp::{ToolDef, push_tool_def, required_schema, required_schema_json};
use crate::text::{chars_of, string_of, owned, concat, concat3, contains_char, str_eq, lines, lines_of, views,
    find_char, slice_range, first_index, dec_string, dec};
use crate::paths::{path_join, path_starts_with, path_strip_prefix, is_absolute, join_path, starts_with_path, strip_prefix_path};
use crate::workspace::str_result;
use crate::text::utf8_lossy;

verus! {

pub const DEFAULT_MAX_MATCHES: u64 = 200;
pub const HARD_MAX_MATCHES: u64 = 2000;
pub const MAX_FILE_BYTES: u64 = 2097152;

/// The path to canonicalize for a user path: the root for `""` or `"."`, an
/// absolute path as given, otherwise the path under the root. A path with NUL is
/// refused.
pub open spec fn candidate_spec(root: Seq<char>, user: Seq<char>) -> Result<Seq<char>, Seq<char>> {
    if user.contains('\0') {
        Err("path contains NUL"@)
    } else if user.len() == 0 || user == seq!['.'] {
        Ok(root)
    } else if is_absolute(user) {
        Ok(user)
    } else {
        Ok(path_join(root, user))
    }
}

/// The path to canonicalize for the user path `user`.
pub fn path_candidate(root: &str, user: &str) -> (r: Result<String, String>)
    ensures
        str_result(r) == candidate_spec(root@, user@),
{
    let u = chars_of(user);
    if contains_char(u.as_slice(), '\0') {
        return Err(owned("path contains NUL"));
    }
    let dot = u.len() == 1 && u[0] == '.';
    proof {
        if dot { assert(u@ =~= seq!['.']); }
        if u@ == seq!['.'] { assert(u@.len() == 1); }
    }
    if u.len() == 0 || dot {
        Ok(owned(root))
    } else if u[0] == '/' {
        Ok(owned(user))
    } else {
        Ok(join_path(root, user))
    }
}

/// Keeps a canonical path only if it lies under the workspace root.
pub fn resolve_under_root(root: &str, canonical: &str) -> (r: Result<String, String>)
    ensures
        r matches Ok(p) ==> p@ == canonical@ && path_starts_with(p@, root@),
        r matches Err(e) ==> e@ == "path escapes workspace root"@ && !path_starts_with(canonical@, root@),
        r is Ok <==> path_starts_with(canonical@, root@),
{
    if !starts_with_path(canonical, root) {
        return Err(owned("path escapes workspace root"));
    }
    Ok(owned(canonical))
}

/// The parameters of a search request.
pub struct SearchParams {
    pub pattern: String,
    pub path: String,
    pub case_insensitive: bool,
    pub max_matches: u64,
}

pub open spec fn clamp(v: u64, lo: u64, hi: u64) -> u64 {
    if v < lo { lo } else if v > hi { hi } else { v }
}

/// The search parameters of a request, or the error that refuses it.
pub open spec fn search_params_spec(args: JsonV) -> Result<(Seq<char>, Seq<char>, bool, u64), Seq<char>> {
    match args.str_at("pattern"@) {
        None => Err("pattern is required"@),
        Some(p) => if p.len() == 0 {
            Err("pattern must be non-empty"@)
        } else if (vstd::utf8::encode_utf8(p).len() as usize) > 512 {
            Err("pattern too long"@)
        } else {
            let path = match args.str_at("path"@) {
                Some(s) => s,
                None => seq!['.'],
            };
            let ci = match args.bool_at("case_insensitive"@) {
                Some(b) => b,
                None => false,
            };
            let n = match args.get("max_matches"@) {
                Some(v) => v.as_u64(),
                None => args.u64_at("max_results"@),
            };
            let max = clamp(
                match n {
                    Some(x) => x,
                    None => 200,
                },
                1,
                2000,
            );
            Ok((p, path, ci, max))
        },
    }
}

/// Reads the search parameters: `pattern` (required, non-empty, at most 512
/// bytes), `path` (default `.`), `case_insensitive` (default false), and
/// `max_matches` or else `max_results` (default 200, clamped to 1..=2000).
pub fn search_params(args: &Json) -> (r: Result<SearchParams, String>)
    ensures
        match r {
            Ok(p) => search_params_spec(args@) == Ok::<(Seq<char>, Seq<char>, bool, u64), Seq<char>>(
                (p.pattern@, p.path@, p.case_insensitive, p.max_matches),
            ),
            Err(e) => search_params_spec(args@) == Err::<(Seq<char>, Seq<char>, bool, u64), Seq<char>>(e@),
        },
{
    let pattern = match args.str_at("pattern") {
        Some(p) => p,
        None => return Err(owned("pattern is required")),
    };
    if pattern.as_str().is_empty() {
        return Err(owned("pattern must be non-empty"));
    }
    if pattern.as_str().len() > 512 {
        return Err(owned("pattern too long"));
    }
    let path = match args.str_at("path") {
        Some(s) => s,
        None => {
            proof {
                reveal_strlit(".");
                assert(".".view() =~= seq!['.']);
            }
            owned(".")
        },
    };
    let case_insensitive = match args.bool_at("case_insensitive") {
        Some(b) => b,
        None => false,
    };
    let n = match args.get("max_matches") {
        Some(v) => v.as_u64(),
        None => args.u64_at("max_results"),
    };
    let raw = match n {
        Some(x) => x,
        None => DEFAULT_MAX_MATCHES,
    };
    let max_matches = if raw < 1 { 1 } else if raw > HARD_MAX_MATCHES { HARD_MAX_MATCHES } else { raw };
    Ok(SearchParams { pattern, path, case_insensitive, max_matches })
}

/// The text a search returns: its matches, or `(no matches)`.
pub fn search_result_text(raw: String) -> (r: String)
    ensures
        r@ == (if raw@.len() == 0 { "(no matches)"@ } else { raw@ }),
{
    if raw.as_str().is_empty() {
        owned("(no matches)")
    } else {
        raw
    }
}

/// The ripgrep command line for a search.
pub fn rg_args(pattern: &str, path: &str, case_insensitive: bool, max_matches: u64) -> (r: Vec<String>)
    ensures
        crate::text::views_s(r@) == seq!["--line-number"@, "--no-heading"@, "--color"@, "never"@, "--max-count"@, dec(max_matches as nat)]
            + (if case_insensitive { seq!["-i"@] } else { Seq::empty() }) + seq!["--"@, pattern@, path@],
{
    let mut r: Vec<String> = Vec::new();
    r.push(owned("--line-number"));
    r.push(owned("--no-heading"));
    r.push(owned("--color"));
    r.push(owned("never"));
    r.push(owned("--max-count"));
    r.push(dec_string(max_matches));
    if case_insensitive {
        r.push(owned("-i"));
    }
    r.push(owned("--"));
    r.push(owned(pattern));
    r.push(owned(path));
    assert(crate::text::views_s(r@) =~= seq!["--line-number"@, "--no-heading"@, "--color"@, "never"@, "--max-count"@, dec(max_matches as nat)]
            + (if case_insensitive { seq!["-i"@] } else { Seq::empty() }) + seq!["--"@, pattern@, path@]);
    r
}

/// Whether a finished ripgrep run is usable: success, or exit code 1 (no match).
pub fn rg_outcome(success: bool, code: Option<i32>, status: &str, stderr_trimmed: &str) -> (r: Result<(), String>)
    ensures
        r is Ok <==> (success || code == Some(1i32)),
        r matches Err(e) ==> e@ == "rg failed ("@ + status@ + "): "@ + stderr_trimmed@,
{
    if success || code == Some(1i32) {
        Ok(())
    } else {
        let a = concat3("rg failed (", status, "): ");
        Err(concat(a.as_str(), stderr_trimmed))
    }
}

/// `str::split_once(':')`.
pub open spec fn split_colon(l: Seq<char>) -> Option<(Seq<char>, Seq<char>)> {
    match first_index(l, ':') {
        Some(i) => Some((l.take(i), l.skip(i + 1))),
        None => None,
    }
}

/// For each line of ripgrep output that has a `:`, the path to canonicalize and
/// the rest of the line.
pub open spec fn rg_candidates_spec(root: Seq<char>, raw: Seq<char>) -> Seq<(Seq<char>, Seq<char>)>
    decreases lines(raw).len(),
{
    rg_candidates_of(root, lines(raw))
}

pub open spec fn rg_candidates_of(root: Seq<char>, ls: Seq<Seq<char>>) -> Seq<(Seq<char>, Seq<char>)>
    decreases ls.len(),
{
    if ls.len() == 0 {
        Seq::empty()
    } else {
        let f = rg_candidates_of(root, ls.drop_last());
        match split_colon(ls.last()) {
            Some((p, rest)) => f.push((if is_absolute(p) { p } else { path_join(root, p) }, rest)),
            None => f,
        }
    }
}

pub open spec fn pairs_v(v: Seq<(String, String)>) -> Seq<(Seq<char>, Seq<char>)> {
    v.map_values(|x: (String, String)| (x.0@, x.1@))
}

/// Splits ripgrep output into (path to canonicalize, rest of line) pairs.
pub fn rg_candidates(root: &str, raw: &str) -> (r: Vec<(String, String)>)
    ensures
        pairs_v(r@) == rg_candidates_spec(root@, raw@),
{
    let rc = chars_of(raw);
    let ls = lines_of(rc.as_slice());
    let mut out: Vec<(String, String)> = Vec::new();
    let mut i: usize = 0;
    while i < ls.len()
        invariant
            i <= ls.len(),
            views(ls@) == lines(raw@),
            pairs_v(out@) == rg_candidates_of(root@, views(ls@).take(i as int)),
        decreases ls.len() - i,
    {
        let l = &ls[i];
        proof {
            assert(views(ls@).take(i + 1).drop_last() =~= views(ls@).take(i as int));
            assert(views(ls@).take(i + 1).last() == l@);
        }
        match find_char(l.as_slice(), ':') {
            Some(k) => {
                let p = slice_range(l.as_slice(), 0, k);
                let rest = slice_range(l.as_slice(), k + 1, l.len());
                let ps = string_of(p.as_slice());
                let cand = if p.len() > 0 && p[0] == '/' {
                    ps
                } else {
                    join_path(root, ps.as_str())
                };
                let rs = string_of(rest.as_slice());
                let ghost old_out = out@;
                out.push((cand, rs));
                proof {
                    assert(p@ =~= l@.take(k as int));
                    assert(rest@ =~= l@.skip(k + 1));
                    assert(pairs_v(out@) =~= pairs_v(old_out).push((cand@, rs@)));
                }
            },
            None => {},
        }
        i += 1;
    }
    proof {
        assert(views(ls@).take(ls.len() as int) =~= views(ls@));
    }
    out
}

/// The output kept for canonicalized ripgrep lines: each path under the root, as
/// a path relative to it, then `:` and the rest of the line.
pub open spec fn rg_output_spec(root: Seq<char>, entries: Seq<(Option<Seq<char>>, Seq<char>)>) -> Seq<char>
    decreases entries.len(),
{
    if entries.len() == 0 {
        Seq::empty()
    } else {
        let f = rg_output_spec(root, entries.drop_last());
        match entries.last().0 {
            Some(canon) => match path_strip_prefix(canon, root) {
                Some(rel) => f + rel + seq![':'] + entries.last().1 + seq!['\n'],
                None => f,
            },
            None => f,
        }
    }
}

pub open spec fn entries_v(v: Seq<(Option<String>, String)>) -> Seq<(Option<Seq<char>>, Seq<char>)> {
    v.map_values(|x: (Option<String>, String)| (match x.0 { Some(s) => Some(s@), None => None }, x.1@))
}

/// Keeps the ripgrep lines whose canonical path (`None` when it could not be
/// canonicalized) lies under the root, relative to the root.
pub fn filter_rg_output(root: &str, entries: &Vec<(Option<String>, String)>) -> (r: String)
    ensures
        r@ == rg_output_spec(root@, entries_v(entries@)),
{
    let mut out = String::new();
    let mut i: usize = 0;
    while i < entries.len()
        invariant
            i <= entries.len(),
            out@ == rg_output_spec(root@, entries_v(entries@).take(i as int)),
        decreases entries.len() - i,
    {
        proof {
            assert(entries_v(entries@).take(i + 1).drop_last() =~= entries_v(entries@).take(i as int));
        }
        match &entries[i].0 {
            Some(canon) => match strip_prefix_path(canon.as_str(), root) {
                Some(rel) => {
                    let a = concat3(rel.as_str(), ":", entries[i].1.as_str());
                    let b = concat(a.as_str(), "\n");
                    out.append(b.as_str());
                    proof {
                        reveal_strlit(":");
                        reveal_strlit("\n");
                        assert(out@ =~= rg_output_spec(root@, entries_v(entries@).take(i + 1)));
                    }
                },
                None => {},
            },
            None => {},
        }
        i += 1;
    }
    proof {
        assert(entries_v(entries@).take(entries.len() as int) =~= entries_v(entries@));
    }
    out
}

// ---------------------------------------------------------------------------
// Walking the tree with a regex (when ripgrep is missing)

#[verifier::external_type_specification]
#[verifier::external_body]
pub struct ExRegex(regex::Regex);

/// What `RegexBuilder::new(pattern).case_insensitive(ci).build()` reports: `Ok`
/// when the pattern compiles, else the error's text.
pub uninterp spec fn regex_build(pattern: Seq<char>, case_insensitive: bool) -> Result<(), Seq<char>>;

/// Whether the regex compiled from `re` (pattern and case flag) matches somewhere
/// in `line` (`Regex::is_match`).
pub uninterp spec fn regex_is_match(re: (Seq<char>, bool), line: Seq<char>) -> bool;

/// `RegexBuilder::new(pattern).case_insensitive(ci).build()`, the error as its
/// `Display` text. The contract names the outcome as a function of the pattern
/// and the flag.
#[verifier::external_body]
fn compile_regex(pattern: &str, case_insensitive: bool) -> (r: Result<regex::Regex, String>)
    ensures
        match r {
            Ok(_) => regex_build(pattern@, case_insensitive) is Ok,
            Err(e) => regex_build(pattern@, case_insensitive) == Err::<(), Seq<char>>(e@),
        },
{
    regex::RegexBuilder::new(pattern).case_insensitive(case_insensitive).build().map_err(|e| e.to_string())
}

/// A compiled search pattern, with the pattern and flag it was compiled from.
pub struct SearchRegex {
    re: regex::Regex,
    pattern: Ghost<Seq<char>>,
    case_insensitive: Ghost<bool>,
}

impl View for SearchRegex {
    type V = (Seq<char>, bool);

    closed spec fn view(&self) -> (Seq<char>, bool) {
        (self.pattern@, self.case_insensitive@)
    }
}

/// `Regex::is_match` on the regex of `re`. The contract names the answer as a
/// function of the pattern, the flag and the line; a `SearchRegex` is only made
/// by `SearchRegex::new`, from the pattern and flag it records.
#[verifier::external_body]
fn regex_matches(re: &SearchRegex, line: &str) -> (r: bool)
    ensures
        r == regex_is_match(re@, line@),
{
    re.re.is_match(line)
}

impl SearchRegex {
    /// Compiles a search pattern, or reports why it does not compile.
    pub fn new(pattern: &str, case_insensitive: bool) -> (r: Result<SearchRegex, String>)
        ensures
            match r {
                Ok(re) => regex_build(pattern@, case_insensitive) is Ok && re@ == (pattern@, case_insensitive),
                Err(e) => regex_build(pattern@, case_insensitive) is Err
                    && e@ == "invalid regex: "@ + regex_build(pattern@, case_insensitive)->Err_0,
            },
    {
        match compile_regex(pattern, case_insensitive) {
            Ok(re) => Ok(SearchRegex { re, pattern: Ghost(pattern@), case_insensitive: Ghost(case_insensitive) }),
            Err(e) => Err(concat("invalid regex: ", e.as_str())),
        }
    }

    /// Whether the pattern matches somewhere in `line`.
    pub fn is_match(&self, line: &str) -> (r: bool)
        ensures
            r == regex_is_match(self@, line@),
    {
        regex_matches(self, line)
    }
}

/// Files larger than this are skipped by the walk.
pub fn file_size_searchable(len: u64) -> (r: bool)
    ensures
        r == (len <= MAX_FILE_BYTES),
{
    len <= MAX_FILE_BYTES
}

/// The matches of one file, `rel:<line number>:<line>` per matching line (lines
/// numbered from `first + 1`), stopping after `budget` matches; and how many
/// were found.
pub open spec fn file_matches_spec(re: (Seq<char>, bool), rel: Seq<char>, ls: Seq<Seq<char>>, first: nat, budget: nat) -> (Seq<char>, nat)
    decreases ls.len(),
{
    if ls.len() == 0 || budget == 0 {
        (Seq::empty(), 0)
    } else if regex_is_match(re, ls[0]) {
        let rest = file_matches_spec(re, rel, ls.drop_first(), first + 1, (budget - 1) as nat);
        (rel + ":"@ + dec(first + 1) + ":"@ + ls[0] + "\n"@ + rest.0, rest.1 + 1)
    } else {
        file_matches_spec(re, rel, ls.drop_first(), first + 1, budget)
    }
}

/// Searches the text of one file line by line.
pub fn walk_file_matches(re: &SearchRegex, rel: &str, text: &str, budget: u64) -> (r: (String, u64))
    ensures
        (r.0@, r.1 as nat) == file_matches_spec(re@, rel@, lines(text@), 0, budget as nat),
        r.1 <= budget,
{
    let tc = chars_of(text);
    let ls = lines_of(tc.as_slice());
    let mut out = String::new();
    let mut found: u64 = 0;
    let mut i: usize = 0;
    let ghost all = views(ls@);
    assert(all.skip(0) =~= all);
    proof {
        reveal_strlit(":");
        reveal_strlit("\n");
    }
    while i < ls.len() && found < budget
        invariant
            i <= ls.len(),
            found <= budget,
            all == views(ls@),
            all == lines(text@),
            ({
                let whole = file_matches_spec(re@, rel@, all, 0, budget as nat);
                let tail = file_matches_spec(re@, rel@, all.skip(i as int), i as nat, (budget - found) as nat);
                whole.0 == out@ + tail.0 && whole.1 == found + tail.1
            }),
        decreases ls.len() - i,
    {
        let line = string_of(ls[i].as_slice());
        proof {
            let t = all.skip(i as int);
            assert(t[0] == ls@[i as int]@);
            assert(t.drop_first() =~= all.skip(i + 1));
        }
        if re.is_match(line.as_str()) {
            let n = dec_string((i as u64) + 1);
            let a = concat3(rel, ":", n.as_str());
            let b = concat3(a.as_str(), ":", line.as_str());
            let piece = concat(b.as_str(), "\n");
            let ghost before = out@;
            out.append(piece.as_str());
            proof {
                let t = all.skip(i as int);
                let rest = file_matches_spec(re@, rel@, t.drop_first(), (i + 1) as nat, (budget - found - 1) as nat);
                assert(file_matches_spec(re@, rel@, t, i as nat, (budget - found) as nat)
                    == (piece@ + rest.0, rest.1 + 1));
                assert(out@ + rest.0 =~= before + (piece@ + rest.0));
            }
            found += 1;
        }
        i += 1;
    }
    proof {
        let t = all.skip(i as int);
        if i == ls.len() {
            assert(t.len() == 0);
        }
        assert(file_matches_spec(re@, rel@, t, i as nat, (budget - found) as nat).0 == Seq::<char>::empty());
        assert(out@ + Seq::<char>::empty() =~= out@);
    }
    (out, found)
}


// ---------------------------------------------------------------------------
// The tool list

/// The input schema of `search_text`.
pub open spec fn search_schema() -> JsonV {
    required_schema(seq![JsonV::Str("pattern"@)], seq![
        ("pattern"@, JsonV::Obj(seq![("type"@, JsonV::Str("string"@)), ("description"@, JsonV::Str("Regex pattern"@))])),
        ("path"@, JsonV::Obj(seq![
            ("type"@, JsonV::Str("string"@)),
            ("description"@, JsonV::Str("Subpath under workspace"@)),
            ("default"@, JsonV::Str("."@)),
        ])),
        ("case_insensitive"@, JsonV::Obj(seq![("type"@, JsonV::Str("boolean"@)), ("default"@, JsonV::Bool(false))])),
        ("max_matches"@, JsonV::Obj(seq![
            ("type"@, JsonV::Str("integer"@)),
            ("minimum"@, JsonV::UInt(1)),
            ("maximum"@, JsonV::UInt(2000)),
            ("default"@, JsonV::UInt(200)),
        ])),
    ])
}

/// The one tool of the code-search server.
pub fn search_tool_defs() -> (r: Vec<ToolDef>)
    ensures
        r@.len() == 1,
        r@[0].name@ == "search_text"@,
        r@[0].description@ == "Search text under the workspace root (ripgrep if available, else walk+regex)."@,
        r@[0].input_schema@ == search_schema(),
{
    let props = obj4(
        "pattern", obj2("type", Json::string("string"), "description", Json::string("Regex pattern")),
        "path", obj3("type", Json::string("string"), "description", Json::string("Subpath under workspace"), "default", Json::string(".")),
        "case_insensitive", obj2("type", Json::string("boolean"), "default", Json::Bool(false)),
        "max_matches", obj4("type", Json::string("integer"), "minimum", Json::UInt(1), "maximum", Json::UInt(2000), "default", Json::UInt(200)),
    );
    let mut v: Vec<ToolDef> = Vec::new();
    push_tool_def(&mut v, "search_text", "Search text under the workspace root (ripgrep if available, else walk+regex).",
        required_schema_json(arr1(Json::string("pattern")), props));
    v
}


/// A search reads what it is asked: the pattern given, the `path` given (the
/// workspace root `.` only when no path is given), and a match limit within
/// 1..=2000; and a search with a non-empty pattern of at most 512 bytes is
/// never refused.
pub proof fn lemma_search_params_follow_args(args: JsonV)
    ensures
        search_params_spec(args) matches Ok((pattern, path, _ci, max)) ==> {
            &&& args.str_at("pattern"@) == Some(pattern)
            &&& path == (match args.str_at("path"@) {
                Some(p) => p,
                None => seq!['.'],
            })
            &&& 1 <= max <= 2000
        },
        (args.str_at("pattern"@) matches Some(p) && p.len() > 0 && vstd::utf8::encode_utf8(p).len() <= 512)
            ==> search_params_spec(args) is Ok,
{
}

} // verus!
