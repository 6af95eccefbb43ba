//! HTTP fetch rules with SSRF-oriented guards: URL and method allowlists,
//! required timeouts, size limits, loopback detection, redirect decisions and
//! header redaction.
use vstd::prelude::*;
use crate::json::{Json, JsonV, set_entry, set_field, fields_v, push_field, object, obj1, obj2, arr2, arr3, typed, typed_spec};
use crate::mcp::{ToolDef, push_tool_def, required_schema, required_schema_json};
use crate::text::{chars_of, string_of, owned, concat, concat3, str_eq, chars_eq, starts_with, ends_with,
    contains_chars, to_ascii_lower, to_ascii_upper, ascii_lower, ascii_upper, has_prefix, has_suffix,
    has_infix, trim, trim_chars, slice_range, dec, dec_string, byte_len, utf8_lossy, utf8_lossy_spec};
use crate::workspace::str_result;

verus! {

pub const DEFAULT_MAX_BYTES: u64 = 1048576;
pub const HARD_MAX_BYTES: u64 = 8388608;
pub const HARD_MAX_TIMEOUT_MS: u64 = 120000;

// ---------------------------------------------------------------------------
// Loopback hosts

pub open spec fn is_bracket(c: char) -> bool {
    c == '[' || c == ']'
}

pub open spec fn strip_leading_brackets(s: Seq<char>) -> Seq<char>
    decreases s.len(),
{
    if s.len() > 0 && is_bracket(s[0]) {
        strip_leading_brackets(s.drop_first())
    } else {
        s
    }
}

pub open spec fn strip_trailing_brackets(s: Seq<char>) -> Seq<char>
    decreases s.len(),
{
    if s.len() > 0 && is_bracket(s.last()) {
        strip_trailing_brackets(s.drop_last())
    } else {
        s
    }
}

/// The host as compared: trimmed, without surrounding brackets, lowercased.
pub open spec fn host_key(host: Seq<char>) -> Seq<char> {
    ascii_lower(strip_trailing_brackets(strip_leading_brackets(trim(host))))
}

/// `localhost`, the IPv4 and IPv6 loopback and unspecified addresses, any
/// `*.localhost` name and any `127.*` address.
pub open spec fn loopback_spec(host: Seq<char>) -> bool {
    let h = host_key(host);
    h == "localhost"@ || h == "127.0.0.1"@ || h == "::1"@ || h == "0.0.0.0"@
        || has_suffix(h, ".localhost"@) || has_prefix(h, "127."@)
}

proof fn lemma_strip_leading_skip(s: Seq<char>, i: int)
    requires
        0 <= i <= s.len(),
        forall|j: int| 0 <= j < i ==> is_bracket(s[j]),
    ensures
        strip_leading_brackets(s) == strip_leading_brackets(s.skip(i)),
    decreases i,
{
    if i > 0 {
        assert(s.drop_first().skip(i - 1) == s.skip(i));
        lemma_strip_leading_skip(s.drop_first(), i - 1);
    } else {
        assert(s.skip(0) == s);
    }
}

proof fn lemma_strip_trailing_take(s: Seq<char>, i: int)
    requires
        0 <= i <= s.len(),
        forall|j: int| i <= j < s.len() ==> is_bracket(s[j]),
    ensures
        strip_trailing_brackets(s) == strip_trailing_brackets(s.take(i)),
    decreases s.len() - i,
{
    if i < s.len() {
        assert(s.drop_last().take(i) == s.take(i));
        lemma_strip_trailing_take(s.drop_last(), i);
    } else {
        assert(s.take(i) == s);
    }
}

fn strip_brackets(s: &[char]) -> (r: Vec<char>)
    ensures
        r@ == strip_trailing_brackets(strip_leading_brackets(s@)),
{
    let mut lo: usize = 0;
    while lo < s.len() && (s[lo] == '[' || s[lo] == ']')
        invariant
            lo <= s.len(),
            forall|j: int| 0 <= j < lo ==> is_bracket(s@[j]),
        decreases s.len() - lo,
    {
        lo += 1;
    }
    let ghost rest = s@.skip(lo as int);
    proof {
        lemma_strip_leading_skip(s@, lo as int);
        assert(strip_leading_brackets(rest) == rest);
    }
    let mut hi: usize = s.len();
    while hi > lo && (s[hi - 1] == '[' || s[hi - 1] == ']')
        invariant
            lo <= hi <= s.len(),
            rest == s@.skip(lo as int),
            forall|j: int| hi - lo <= j < rest.len() ==> is_bracket(rest[j]),
        decreases hi - lo,
    {
        hi -= 1;
    }
    proof {
        lemma_strip_trailing_take(rest, hi - lo);
        let t = rest.take(hi - lo);
        assert(t =~= s@.subrange(lo as int, hi as int));
        assert(strip_trailing_brackets(t) == t);
    }
    slice_range(s, lo, hi)
}

/// Whether a host names this machine (loopback, unspecified or `localhost`).
pub fn is_loopback_host(host: &str) -> (r: bool)
    ensures
        r == loopback_spec(host@),
{
    let c = chars_of(host);
    let t = trim_chars(c.as_slice());
    let b = strip_brackets(t.as_slice());
    let h = to_ascii_lower(b.as_slice());
    let hs = string_of(h.as_slice());
    let dl = chars_of(".localhost");
    let p127 = chars_of("127.");
    str_eq(hs.as_str(), "localhost") || str_eq(hs.as_str(), "127.0.0.1") || str_eq(hs.as_str(), "::1")
        || str_eq(hs.as_str(), "0.0.0.0") || ends_with(h.as_slice(), dl.as_slice())
        || starts_with(h.as_slice(), p127.as_slice())
}

// ---------------------------------------------------------------------------
// URLs

/// The parts of a parsed URL that the guards read, and its serialization.
pub struct ParsedUrl {
    pub scheme: String,
    pub username: String,
    pub password: Option<String>,
    pub host: Option<String>,
    pub serialization: String,
}

pub open spec fn opt_v(o: Option<String>) -> Option<Seq<char>> {
    match o {
        Some(s) => Some(s@),
        None => None,
    }
}

impl View for ParsedUrl {
    type V = (Seq<char>, Seq<char>, Option<Seq<char>>, Option<Seq<char>>, Seq<char>);

    open spec fn view(&self) -> Self::V {
        (self.scheme@, self.username@, opt_v(self.password), opt_v(self.host), self.serialization@)
    }
}

/// What `url::Url::parse` makes of a string: scheme, username, password, host and
/// serialization of the URL, or the text of the parse error.
pub uninterp spec fn url_parse(raw: Seq<char>) -> Result<(Seq<char>, Seq<char>, Option<Seq<char>>, Option<Seq<char>>, Seq<char>), Seq<char>>;

pub open spec fn parsed_v(r: Result<ParsedUrl, String>) -> Result<(Seq<char>, Seq<char>, Option<Seq<char>>, Option<Seq<char>>, Seq<char>), Seq<char>> {
    match r {
        Ok(u) => Ok(u@),
        Err(e) => Err(e@),
    }
}

/// `url::Url::parse`, with `scheme`, `username`, `password`, `host_str` and
/// `as_str` read off the result, or the `Display` text of the `ParseError`. The
/// contract names the result as a function of the input text and claims nothing
/// more of it.
#[verifier::external_body]
fn parse_url(raw: &str) -> (r: Result<ParsedUrl, String>)
    ensures
        parsed_v(r) == url_parse(raw@),
{
    match url::Url::parse(raw) {
        Ok(u) => Ok(ParsedUrl {
            scheme: u.scheme().to_string(),
            username: u.username().to_string(),
            password: u.password().map(str::to_string),
            host: u.host_str().map(str::to_string),
            serialization: u.as_str().to_string(),
        }),
        Err(e) => Err(e.to_string()),
    }
}

/// The verdict on a parsed URL: only http and https, and no embedded credentials.
pub open spec fn url_check_spec(
    parsed: Result<(Seq<char>, Seq<char>, Option<Seq<char>>, Option<Seq<char>>, Seq<char>), Seq<char>>,
) -> Result<(Seq<char>, Seq<char>, Option<Seq<char>>, Option<Seq<char>>, Seq<char>), Seq<char>> {
    match parsed {
        Err(e) => Err("invalid URL: "@ + e),
        Ok(u) => if !(u.0 == "http"@ || u.0 == "https"@) {
            if u.0 == "file"@ {
                Err("file:// URLs are blocked"@)
            } else {
                Err("scheme `"@ + u.0 + "` is not allowlisted (http/https only)"@)
            }
        } else if u.1.len() != 0 || u.2 is Some {
            Err("URLs with embedded credentials are blocked"@)
        } else {
            Ok(u)
        },
    }
}

/// Applies the URL guards to the outcome of parsing.
pub fn check_url(parsed: Result<ParsedUrl, String>) -> (r: Result<ParsedUrl, String>)
    ensures
        parsed_v(r) == url_check_spec(parsed_v(parsed)),
{
    match parsed {
        Err(e) => Err(concat("invalid URL: ", e.as_str())),
        Ok(u) => {
            let s = u.scheme.as_str();
            if !(str_eq(s, "http") || str_eq(s, "https")) {
                if str_eq(s, "file") {
                    Err(owned("file:// URLs are blocked"))
                } else {
                    Err(concat3("scheme `", s, "` is not allowlisted (http/https only)"))
                }
            } else if !u.username.as_str().is_empty() || u.password.is_some() {
                Err(owned("URLs with embedded credentials are blocked"))
            } else {
                Ok(u)
            }
        },
    }
}

/// Parses a URL and applies the guards.
pub fn validate_url(raw: &str) -> (r: Result<ParsedUrl, String>)
    ensures
        parsed_v(r) == url_check_spec(url_parse(raw@)),
{
    let p = parse_url(raw);
    check_url(p)
}

// ---------------------------------------------------------------------------
// Methods

/// The methods that may be sent.
#[derive(Debug, Clone, Copy, PartialEq, Eq, Structural)]
pub enum HttpMethod {
    Get,
    Head,
    Post,
}

impl HttpMethod {
    pub open spec fn name_spec(self) -> Seq<char> {
        match self {
            HttpMethod::Get => "GET"@,
            HttpMethod::Head => "HEAD"@,
            HttpMethod::Post => "POST"@,
        }
    }

    /// The method's name as sent on the wire.
    pub fn name(&self) -> (r: String)
        ensures
            r@ == self.name_spec(),
    {
        match self {
            HttpMethod::Get => owned("GET"),
            HttpMethod::Head => owned("HEAD"),
            HttpMethod::Post => owned("POST"),
        }
    }
}

/// The method named by a string, compared after trimming and ASCII uppercasing.
pub open spec fn method_spec(raw: Seq<char>) -> Result<HttpMethod, Seq<char>> {
    let u = ascii_upper(trim(raw));
    if u == "GET"@ {
        Ok(HttpMethod::Get)
    } else if u == "HEAD"@ {
        Ok(HttpMethod::Head)
    } else if u == "POST"@ {
        Ok(HttpMethod::Post)
    } else {
        Err("method `"@ + u + "` is not allowlisted (GET/HEAD/POST)"@)
    }
}

pub open spec fn method_v(r: Result<HttpMethod, String>) -> Result<HttpMethod, Seq<char>> {
    match r {
        Ok(m) => Ok(m),
        Err(e) => Err(e@),
    }
}

/// Only GET, HEAD and POST are allowed, in any case and with surrounding space.
pub fn validate_method(raw: &str) -> (r: Result<HttpMethod, String>)
    ensures
        method_v(r) == method_spec(raw@),
{
    let c = chars_of(raw);
    let t = trim_chars(c.as_slice());
    let u = to_ascii_upper(t.as_slice());
    let us = string_of(u.as_slice());
    if str_eq(us.as_str(), "GET") {
        Ok(HttpMethod::Get)
    } else if str_eq(us.as_str(), "HEAD") {
        Ok(HttpMethod::Head)
    } else if str_eq(us.as_str(), "POST") {
        Ok(HttpMethod::Post)
    } else {
        Err(concat3("method `", us.as_str(), "` is not allowlisted (GET/HEAD/POST)"))
    }
}

/// The method of an `http_request` call.
pub fn request_method(args: &Json) -> (r: Result<HttpMethod, String>)
    ensures
        method_v(r) == (match args@.str_at("method"@) {
            None => Err("method is required"@),
            Some(m) => method_spec(m),
        }),
{
    match args.str_at("method") {
        None => Err(owned("method is required")),
        Some(m) => validate_method(m.as_str()),
    }
}

// ---------------------------------------------------------------------------
// Limits and flags

pub open spec fn timeout_spec(args: JsonV) -> Result<u64, Seq<char>> {
    match args.get("timeout_ms"@) {
        None => Err("timeout_ms is required"@),
        Some(v) => match v.as_u64() {
            None => Err("timeout_ms must be a positive integer"@),
            Some(ms) => if ms == 0 {
                Err("timeout_ms must be > 0"@)
            } else if ms < HARD_MAX_TIMEOUT_MS {
                Ok(ms)
            } else {
                Ok(HARD_MAX_TIMEOUT_MS)
            },
        },
    }
}

pub open spec fn u64_result_v(r: Result<u64, String>) -> Result<u64, Seq<char>> {
    match r {
        Ok(n) => Ok(n),
        Err(e) => Err(e@),
    }
}

/// The request timeout: required, positive, capped at two minutes.
pub fn require_timeout_ms(args: &Json) -> (r: Result<u64, String>)
    ensures
        u64_result_v(r) == timeout_spec(args@),
{
    match args.get("timeout_ms") {
        None => Err(owned("timeout_ms is required")),
        Some(v) => match v.as_u64() {
            None => Err(owned("timeout_ms must be a positive integer")),
            Some(ms) => if ms == 0 {
                Err(owned("timeout_ms must be > 0"))
            } else if ms < HARD_MAX_TIMEOUT_MS {
                Ok(ms)
            } else {
                Ok(HARD_MAX_TIMEOUT_MS)
            },
        },
    }
}

pub open spec fn max_bytes_spec(args: JsonV) -> u64 {
    let v = match args.get("max_bytes"@) {
        Some(j) => match j.as_u64() {
            Some(n) => n,
            None => DEFAULT_MAX_BYTES,
        },
        None => DEFAULT_MAX_BYTES,
    };
    if v < 1 { 1 } else if v > HARD_MAX_BYTES { HARD_MAX_BYTES } else { v }
}

/// The size limit for bodies: 1 MiB by default, clamped to 1 byte ..= 8 MiB.
pub fn max_bytes(args: &Json) -> (r: u64)
    ensures
        r == max_bytes_spec(args@),
{
    let v = match args.get("max_bytes") {
        Some(j) => match j.as_u64() {
            Some(n) => n,
            None => DEFAULT_MAX_BYTES,
        },
        None => DEFAULT_MAX_BYTES,
    };
    if v < 1 { 1 } else if v > HARD_MAX_BYTES { HARD_MAX_BYTES } else { v }
}

/// Whether redirects to loopback hosts are allowed (off unless set to `true`).
pub fn allow_localhost_redirects(args: &Json) -> (r: bool)
    ensures
        r == (args@.bool_at("allow_localhost_redirects"@) == Some(true)),
{
    match args.bool_at("allow_localhost_redirects") {
        Some(b) => b,
        None => false,
    }
}

// ---------------------------------------------------------------------------
// Headers

/// Header names whose values never appear in output: credentials, cookies, API
/// keys, and anything that mentions a token or a secret.
pub open spec fn sensitive_header(name: Seq<char>) -> bool {
    let l = ascii_lower(name);
    l == "authorization"@ || l == "proxy-authorization"@ || l == "cookie"@ || l == "set-cookie"@
        || has_suffix(l, "-api-key"@) || has_infix(l, "token"@) || has_infix(l, "secret"@)
}

pub open spec fn redact_spec(name: Seq<char>, value: Seq<char>) -> Seq<char> {
    if sensitive_header(name) { "[REDACTED]"@ } else { value }
}

/// The value of a header as it may be shown.
pub fn redact_header_value(name: &str, value: &str) -> (r: String)
    ensures
        r@ == redact_spec(name@, value@),
{
    let c = chars_of(name);
    let l = to_ascii_lower(c.as_slice());
    let ls = string_of(l.as_slice());
    let api = chars_of("-api-key");
    let tok = chars_of("token");
    let sec = chars_of("secret");
    if str_eq(ls.as_str(), "authorization") || str_eq(ls.as_str(), "proxy-authorization")
        || str_eq(ls.as_str(), "cookie") || str_eq(ls.as_str(), "set-cookie")
        || ends_with(l.as_slice(), api.as_slice()) || contains_chars(l.as_slice(), tok.as_slice())
        || contains_chars(l.as_slice(), sec.as_slice())
    {
        return owned("[REDACTED]");
    }
    owned(value)
}

#[verifier::external_type_specification]
#[verifier::external_body]
#[verifier::reject_recursive_types(T)]
pub struct ExHeaderMap<T>(reqwest::header::HeaderMap<T>);

#[verifier::external_type_specification]
#[verifier::external_body]
pub struct ExHeaderValue(reqwest::header::HeaderValue);

/// What a header map holds, in the order `HeaderMap::iter` yields it: each name
/// once per value, the value as text when it is visible ASCII.
pub uninterp spec fn header_entries(h: reqwest::header::HeaderMap) -> Seq<(Seq<char>, Option<Seq<char>>)>;

pub open spec fn header_pairs_v(v: Seq<(String, Option<String>)>) -> Seq<(Seq<char>, Option<Seq<char>>)> {
    v.map_values(|x: (String, Option<String>)| (x.0@, opt_v(x.1)))
}

/// `HeaderMap::iter`, each name by `HeaderName::as_str` and each value by
/// `HeaderValue::to_str` (`None` where it fails). The contract names the list.
#[verifier::external_body]
fn header_entry_list(h: &reqwest::header::HeaderMap) -> (r: Vec<(String, Option<String>)>)
    ensures
        header_pairs_v(r@) == header_entries(*h),
{
    let mut r = Vec::new();
    for (n, v) in h.iter() {
        r.push((n.as_str().to_string(), v.to_str().ok().map(str::to_string)));
    }
    r
}

/// The redacted headers as object entries; a value that is not text shows as
/// `<binary>`, and a later value of a name replaces an earlier one.
pub open spec fn redacted_fields(entries: Seq<(Seq<char>, Option<Seq<char>>)>) -> Seq<(Seq<char>, JsonV)>
    decreases entries.len(),
{
    if entries.len() == 0 {
        Seq::empty()
    } else {
        let e = entries.last();
        let shown = match e.1 {
            Some(t) => t,
            None => "<binary>"@,
        };
        set_entry(redacted_fields(entries.drop_last()), e.0, JsonV::Str(redact_spec(e.0, shown)))
    }
}

/// The redacted headers of a list of entries, as a JSON object.
pub fn redact_header_entries(entries: &Vec<(String, Option<String>)>) -> (r: Json)
    ensures
        r@ == JsonV::Obj(redacted_fields(header_pairs_v(entries@))),
{
    let mut fields: Vec<(String, Json)> = Vec::new();
    let mut i: usize = 0;
    while i < entries.len()
        invariant
            i <= entries.len(),
            fields_v(fields@) == redacted_fields(header_pairs_v(entries@).take(i as int)),
        decreases entries.len() - i,
    {
        let name = entries[i].0.as_str();
        let shown = match &entries[i].1 {
            Some(t) => t.as_str(),
            None => "<binary>",
        };
        let v = redact_header_value(name, shown);
        proof {
            let s = header_pairs_v(entries@).take(i + 1);
            assert(s.drop_last() =~= header_pairs_v(entries@).take(i as int));
            assert(s.last() == header_pairs_v(entries@)[i as int]);
        }
        set_field(&mut fields, name, Json::Str(v));
        i += 1;
    }
    proof {
        assert(header_pairs_v(entries@).take(entries.len() as int) =~= header_pairs_v(entries@));
    }
    object(fields)
}

/// The headers of a response with sensitive values redacted, as a JSON object.
pub fn redact_headers_map(headers: &reqwest::header::HeaderMap) -> (r: Json)
    ensures
        r@ == JsonV::Obj(redacted_fields(header_entries(*headers))),
{
    let entries = header_entry_list(headers);
    redact_header_entries(&entries)
}

/// A header token character (RFC 7230 `tchar`): a letter, a digit, or one of
/// ``!#$%&'*+-.^_`|~``.
pub open spec fn token_byte(b: u8) -> bool {
    (48 <= b <= 57) || (65 <= b <= 90) || (97 <= b <= 122) || b == 33 || (35 <= b <= 39) || b == 42
        || b == 43 || b == 45 || b == 46 || b == 94 || b == 95 || b == 96 || b == 124 || b == 126
}

/// Whether `HeaderName::from_bytes` accepts a name: its UTF-8 bytes are 1 to
/// 65535 token characters.
pub open spec fn header_name_accepts(name: Seq<char>) -> bool {
    let b = vstd::utf8::encode_utf8(name);
    1 <= b.len() <= 65535 && forall|i: int| 0 <= i < b.len() ==> token_byte(#[trigger] b[i])
}

/// `HeaderName::from_bytes` on the bytes of `name`. Claimed, as its source shows
/// (`parse_hdr` and the `HEADER_CHARS` table): it succeeds exactly when
/// `header_name_accepts` holds, and its error prints as
/// `invalid HTTP header name`.
#[verifier::external_body]
fn check_header_name(name: &str) -> (r: Result<(), String>)
    ensures
        r is Ok <==> header_name_accepts(name@),
        r matches Err(e) ==> e@ == "invalid HTTP header name"@,
{
    match reqwest::header::HeaderName::from_bytes(name.as_bytes()) {
        Ok(_) => Ok(()),
        Err(e) => Err(e.to_string()),
    }
}

/// The bytes `HeaderValue` accepts: tab, and everything from space up except DEL.
pub open spec fn header_value_byte(b: u8) -> bool {
    (b >= 32 && b != 127) || b == 9
}

/// `HeaderValue::from_str`. Claimed, as its source shows: it succeeds exactly
/// when every byte of the UTF-8 text is accepted, and its error prints as
/// `failed to parse header value`.
#[verifier::external_body]
fn check_header_value(value: &str) -> (r: Result<(), String>)
    ensures
        r is Ok <==> header_value_ok(value@),
        r matches Err(e) ==> e@ == "failed to parse header value"@,
{
    match reqwest::header::HeaderValue::from_str(value) {
        Ok(_) => Ok(()),
        Err(e) => Err(e.to_string()),
    }
}

pub open spec fn header_value_ok(value: Seq<char>) -> bool {
    forall|i: int| 0 <= i < vstd::utf8::encode_utf8(value).len() ==> header_value_byte(#[trigger] vstd::utf8::encode_utf8(value)[i])
}

/// The request headers of the `headers` argument, in order, or the error for the
/// first entry that is refused.
pub open spec fn request_headers_of(fields: Seq<(Seq<char>, JsonV)>) -> Result<Seq<(Seq<char>, Seq<char>)>, Seq<char>>
    decreases fields.len(),
{
    if fields.len() == 0 {
        Ok(Seq::empty())
    } else {
        match request_headers_of(fields.drop_last()) {
            Err(e) => Err(e),
            Ok(done) => {
                let (k, v) = fields.last();
                if !header_name_accepts(k) {
                    Err("invalid header name `"@ + k + "`: "@ + "invalid HTTP header name"@)
                } else {
                    match v {
                        JsonV::Str(s) => if header_value_ok(s) {
                            Ok(done.push((k, s)))
                        } else {
                            Err("invalid header value for `"@ + k + "`: "@ + "failed to parse header value"@)
                        },
                        _ => Err("header `"@ + k + "` value must be a string"@),
                    }
                }
            },
        }
    }
}

/// An entry refused in a prefix refuses the whole list with the same error.
proof fn lemma_request_headers_err(f: Seq<(Seq<char>, JsonV)>, n: int)
    requires
        0 <= n <= f.len(),
        request_headers_of(f.take(n)) is Err,
    ensures
        request_headers_of(f) == request_headers_of(f.take(n)),
    decreases f.len() - n,
{
    if n < f.len() {
        assert(f.take(n + 1).drop_last() =~= f.take(n));
        lemma_request_headers_err(f, n + 1);
    } else {
        assert(f.take(n) =~= f);
    }
}

pub open spec fn request_headers_spec(args: JsonV) -> Result<Seq<(Seq<char>, Seq<char>)>, Seq<char>> {
    match args.get("headers"@) {
        Some(JsonV::Obj(f)) => request_headers_of(f),
        _ => Ok(Seq::empty()),
    }
}

pub open spec fn str_pairs_v(v: Seq<(String, String)>) -> Seq<(Seq<char>, Seq<char>)> {
    v.map_values(|x: (String, String)| (x.0@, x.1@))
}

pub open spec fn headers_result_v(r: Result<Vec<(String, String)>, String>) -> Result<Seq<(Seq<char>, Seq<char>)>, Seq<char>> {
    match r {
        Ok(v) => Ok(str_pairs_v(v@)),
        Err(e) => Err(e@),
    }
}

/// Reads and checks the request headers: each name must be a valid header name
/// and each value a string that is a valid header value.
pub fn parse_request_headers(args: &Json) -> (r: Result<Vec<(String, String)>, String>)
    ensures
        headers_result_v(r) == request_headers_spec(args@),
{
    let mut out: Vec<(String, String)> = Vec::new();
    match args.get("headers") {
        Some(Json::Obj(f)) => {
            proof {
                crate::json::lemma_obj_view(*f);
                assert(fields_v(f@).take(0) =~= Seq::<(Seq<char>, JsonV)>::empty());
                assert(str_pairs_v(out@) =~= Seq::<(Seq<char>, Seq<char>)>::empty());
            }
            let ghost fv = fields_v(f@);
            let mut i: usize = 0;
            while i < f.len()
                invariant
                    i <= f.len(),
                    fv == fields_v(f@),
                    request_headers_spec(args@) == request_headers_of(fv),
                    request_headers_of(fields_v(f@).take(i as int)) == Ok::<Seq<(Seq<char>, Seq<char>)>, Seq<char>>(str_pairs_v(out@)),
                decreases f.len() - i,
            {
                let k = f[i].0.as_str();
                proof {
                    let s = fields_v(f@).take(i + 1);
                    assert(s.drop_last() =~= fields_v(f@).take(i as int));
                    assert(s.last() == fields_v(f@)[i as int]);
                }
                match check_header_name(k) {
                    Err(e) => {
                        let a = concat3("invalid header name `", k, "`: ");
                        proof {
                            lemma_request_headers_err(fv, i + 1);
                        }
                        return Err(concat(a.as_str(), e.as_str()));
                    },
                    Ok(()) => {},
                }
                match &f[i].1 {
                    Json::Str(s) => {
                        match check_header_value(s.as_str()) {
                            Err(e) => {
                                let a = concat3("invalid header value for `", k, "`: ");
                                proof {
                                    lemma_request_headers_err(fv, i + 1);
                                }
                                return Err(concat(a.as_str(), e.as_str()));
                            },
                            Ok(()) => {},
                        }
                        let ghost old_out = out@;
                        out.push((owned(k), owned(s.as_str())));
                        proof {
                            assert(str_pairs_v(out@) =~= str_pairs_v(old_out).push((k@, s@)));
                        }
                    },
                    _ => {
                        proof {
                            lemma_request_headers_err(fv, i + 1);
                        }
                        return Err(concat3("header `", k, "` value must be a string"));
                    },
                }
                i += 1;
            }
            proof {
                assert(fields_v(f@).take(f.len() as int) =~= fields_v(f@));
            }
            Ok(out)
        },
        _ => {
            proof {
                assert(str_pairs_v(out@) =~= Seq::<(Seq<char>, Seq<char>)>::empty());
            }
            Ok(out)
        },
    }
}

// ---------------------------------------------------------------------------
// Redirects

/// What to do with one redirect.
#[derive(Debug, Clone, PartialEq, Eq)]
pub enum RedirectAction {
    Follow,
    Stop,
    Block(String),
}

/// The redirect policy: only http and https; no loopback hosts unless allowed;
/// at most five hops followed.
pub open spec fn redirect_spec(allow_localhost: bool, scheme: Seq<char>, host: Option<Seq<char>>, hops: nat) -> Option<Seq<char>> {
    if !(scheme == "http"@ || scheme == "https"@) {
        Some("redirect scheme `"@ + scheme + "` blocked"@)
    } else if !allow_localhost && host is Some && loopback_spec(host->0) {
        Some("redirect to localhost/loopback blocked (set allow_localhost_redirects=true to permit)"@)
    } else {
        None
    }
}

/// Decides one redirect from its target's scheme and host and the number of
/// hops already taken.
pub fn redirect_action(allow_localhost: bool, scheme: &str, host: Option<&str>, hops: usize) -> (r: RedirectAction)
    ensures
        match redirect_spec(allow_localhost, scheme@, match host { Some(h) => Some(h@), None => None }, hops as nat) {
            Some(msg) => r matches RedirectAction::Block(m) && m@ == msg,
            None => if hops >= 5 { r is Stop } else { r is Follow },
        },
{
    if !(str_eq(scheme, "http") || str_eq(scheme, "https")) {
        return RedirectAction::Block(concat3("redirect scheme `", scheme, "` blocked"));
    }
    if !allow_localhost {
        match host {
            Some(h) => if is_loopback_host(h) {
                return RedirectAction::Block(owned(
                    "redirect to localhost/loopback blocked (set allow_localhost_redirects=true to permit)",
                ));
            },
            None => {},
        }
    }
    if hops >= 5 {
        RedirectAction::Stop
    } else {
        RedirectAction::Follow
    }
}

// ---------------------------------------------------------------------------
// A request from start to finish

/// Everything a request needs once its arguments are checked.
pub struct FetchPlan {
    pub method: HttpMethod,
    pub url: ParsedUrl,
    pub timeout_ms: u64,
    pub max_bytes: u64,
    pub allow_localhost_redirects: bool,
    pub headers: Vec<(String, String)>,
    pub body: Option<String>,
}

/// The checks of a request in the order they are made: `url` required and
/// guarded, `timeout_ms`, the headers, and no body for GET or HEAD.
pub open spec fn fetch_plan_spec(method: HttpMethod, args: JsonV) -> Result<
    (
        (Seq<char>, Seq<char>, Option<Seq<char>>, Option<Seq<char>>, Seq<char>),
        u64,
        u64,
        bool,
        Seq<(Seq<char>, Seq<char>)>,
        Option<Seq<char>>,
    ),
    Seq<char>,
> {
    match args.str_at("url"@) {
        None => Err("url is required"@),
        Some(raw) => match url_check_spec(url_parse(raw)) {
            Err(e) => Err(e),
            Ok(u) => match timeout_spec(args) {
                Err(e) => Err(e),
                Ok(t) => match request_headers_spec(args) {
                    Err(e) => Err(e),
                    Ok(h) => {
                        let body = args.str_at("body"@);
                        if (method == HttpMethod::Get || method == HttpMethod::Head) && body is Some {
                            Err("body is not allowed for "@ + method.name_spec())
                        } else {
                            Ok((u, t, max_bytes_spec(args), args.bool_at("allow_localhost_redirects"@) == Some(true), h, body))
                        }
                    },
                },
            },
        },
    }
}

impl FetchPlan {
    pub open spec fn view_tuple(&self) -> (
        (Seq<char>, Seq<char>, Option<Seq<char>>, Option<Seq<char>>, Seq<char>),
        u64,
        u64,
        bool,
        Seq<(Seq<char>, Seq<char>)>,
        Option<Seq<char>>,
    ) {
        (self.url@, self.timeout_ms, self.max_bytes, self.allow_localhost_redirects, str_pairs_v(self.headers@), opt_v(self.body))
    }
}

/// Checks the arguments of a request and gathers what sending it needs.
pub fn plan_fetch(method: HttpMethod, args: &Json) -> (r: Result<FetchPlan, String>)
    ensures
        match r {
            Ok(p) => p.method == method && fetch_plan_spec(method, args@) == Ok::<_, Seq<char>>(p.view_tuple()),
            Err(e) => fetch_plan_spec(method, args@) == Err::<(
                (Seq<char>, Seq<char>, Option<Seq<char>>, Option<Seq<char>>, Seq<char>),
                u64,
                u64,
                bool,
                Seq<(Seq<char>, Seq<char>)>,
                Option<Seq<char>>,
            ), Seq<char>>(e@),
        },
{
    let raw = match args.str_at("url") {
        None => return Err(owned("url is required")),
        Some(s) => s,
    };
    let url = match validate_url(raw.as_str()) {
        Err(e) => return Err(e),
        Ok(u) => u,
    };
    let timeout_ms = match require_timeout_ms(args) {
        Err(e) => return Err(e),
        Ok(t) => t,
    };
    let max = max_bytes(args);
    let allow = allow_localhost_redirects(args);
    let headers = match parse_request_headers(args) {
        Err(e) => return Err(e),
        Ok(h) => h,
    };
    let body = args.str_at("body");
    if (method == HttpMethod::Get || method == HttpMethod::Head) && body.is_some() {
        let n = method.name();
        return Err(concat("body is not allowed for ", n.as_str()));
    }
    Ok(FetchPlan {
        method,
        url,
        timeout_ms,
        max_bytes: max,
        allow_localhost_redirects: allow,
        headers,
        body,
    })
}

/// A request body may not exceed the size limit.
pub fn check_request_body(body: &str, max: u64) -> (r: Result<(), String>)
    ensures
        r is Ok <==> byte_len(body@) <= max,
        r matches Err(e) ==> e@ == "request body exceeds max_bytes"@,
{
    if body.len() as u64 > max {
        Err(owned("request body exceeds max_bytes"))
    } else {
        Ok(())
    }
}

/// Unless loopback redirects are allowed, the final URL may not be on a loopback
/// host.
pub fn check_final_host(allow_localhost: bool, host: Option<&str>) -> (r: Result<(), String>)
    ensures
        r is Err <==> (!allow_localhost && host is Some && loopback_spec(host->0@)),
        r matches Err(e) ==> e@ == "final URL resolved to localhost/loopback and allow_localhost_redirects is false"@,
{
    if !allow_localhost {
        match host {
            Some(h) => if is_loopback_host(h) {
                return Err(owned("final URL resolved to localhost/loopback and allow_localhost_redirects is false"));
            },
            None => {},
        }
    }
    Ok(())
}

/// A response body may not exceed the size limit.
pub fn check_response_size(len: u64, max: u64) -> (r: Result<(), String>)
    ensures
        r is Ok <==> len <= max,
        r matches Err(e) ==> e@ == "response body "@ + dec(len as nat) + " bytes exceeds max_bytes "@ + dec(max as nat),
{
    if len > max {
        let a = dec_string(len);
        let b = dec_string(max);
        let c = concat3("response body ", a.as_str(), " bytes exceeds max_bytes ");
        Err(concat(c.as_str(), b.as_str()))
    } else {
        Ok(())
    }
}

/// The reply of a fetch: status, final URL, redacted headers, the body as text
/// (invalid UTF-8 replaced), whether any replacement happened, and the byte count.
pub open spec fn fetch_reply_spec(status: u16, url: Seq<char>, headers: JsonV, bytes: Seq<u8>) -> JsonV {
    let text = utf8_lossy_spec(bytes);
    JsonV::Obj(seq![
        ("status"@, JsonV::UInt(status as u64)),
        ("url"@, JsonV::Str(url)),
        ("headers"@, headers),
        ("body"@, JsonV::Str(text)),
        ("utf8_lossy"@, JsonV::Bool(vstd::utf8::encode_utf8(text) != bytes)),
        ("bytes"@, JsonV::UInt(bytes.len() as u64)),
    ])
}

/// Builds the reply of a fetch.
pub fn fetch_reply(status: u16, url: &str, headers: Json, bytes: &[u8]) -> (r: Json)
    ensures
        r@ == fetch_reply_spec(status, url@, headers@, bytes@),
{
    let text = utf8_lossy(bytes);
    let tb = text.as_str().as_bytes();
    let mut same = tb.len() == bytes.len();
    let mut i: usize = 0;
    while same && i < bytes.len()
        invariant
            i <= bytes.len(),
            same ==> tb.len() == bytes.len(),
            same ==> forall|j: int| 0 <= j < i ==> tb@[j] == bytes@[j],
            !same ==> tb@ != bytes@,
        decreases bytes.len() - i,
    {
        if tb[i] != bytes[i] {
            same = false;
        }
        i += 1;
    }
    proof {
        if same {
            assert(tb@ =~= bytes@);
        }
    }
    let ghost hv = headers@;
    let mut f: Vec<(String, Json)> = Vec::new();
    push_field(&mut f, "status", Json::UInt(status as u64));
    push_field(&mut f, "url", Json::Str(owned(url)));
    push_field(&mut f, "headers", headers);
    push_field(&mut f, "body", Json::Str(text));
    push_field(&mut f, "utf8_lossy", Json::Bool(!same));
    push_field(&mut f, "bytes", Json::UInt(bytes.len() as u64));
    proof {
        assert(fields_v(f@) =~= fetch_reply_spec(status, url@, hv, bytes@)->Obj_0);
    }
    object(f)
}


// ---------------------------------------------------------------------------
// The tool list

/// A positive integer argument.
pub open spec fn positive_schema() -> JsonV {
    JsonV::Obj(seq![("type"@, JsonV::Str("integer"@)), ("minimum"@, JsonV::UInt(1))])
}

/// An object of string header values.
pub open spec fn headers_schema() -> JsonV {
    JsonV::Obj(seq![("type"@, JsonV::Str("object"@)), ("additionalProperties"@, typed_spec("string"@))])
}

/// `allow_localhost_redirects`: off by default.
pub open spec fn redirects_flag_schema() -> JsonV {
    JsonV::Obj(seq![("type"@, JsonV::Str("boolean"@)), ("default"@, JsonV::Bool(false))])
}

pub open spec fn http_get_schema() -> JsonV {
    required_schema(seq![JsonV::Str("url"@), JsonV::Str("timeout_ms"@)], seq![
        ("url"@, typed_spec("string"@)),
        ("timeout_ms"@, positive_schema()),
        ("headers"@, headers_schema()),
        ("max_bytes"@, positive_schema()),
        ("allow_localhost_redirects"@, redirects_flag_schema()),
    ])
}

pub open spec fn http_request_schema() -> JsonV {
    required_schema(seq![JsonV::Str("url"@), JsonV::Str("method"@), JsonV::Str("timeout_ms"@)], seq![
        ("url"@, typed_spec("string"@)),
        ("method"@, JsonV::Obj(seq![
            ("type"@, JsonV::Str("string"@)),
            ("enum"@, JsonV::Arr(seq![JsonV::Str("GET"@), JsonV::Str("HEAD"@), JsonV::Str("POST"@)])),
        ])),
        ("timeout_ms"@, positive_schema()),
        ("headers"@, headers_schema()),
        ("body"@, typed_spec("string"@)),
        ("max_bytes"@, positive_schema()),
        ("allow_localhost_redirects"@, redirects_flag_schema()),
    ])
}

fn positive_json() -> (r: Json)
    ensures
        r@ == positive_schema(),
{
    obj2("type", Json::string("integer"), "minimum", Json::UInt(1))
}

fn headers_json() -> (r: Json)
    ensures
        r@ == headers_schema(),
{
    obj2("type", Json::string("object"), "additionalProperties", typed("string"))
}

fn redirects_flag_json() -> (r: Json)
    ensures
        r@ == redirects_flag_schema(),
{
    obj2("type", Json::string("boolean"), "default", Json::Bool(false))
}

/// The two tools of the http-fetch server: `http_get` and `http_request`.
pub fn http_tool_defs() -> (r: Vec<ToolDef>)
    ensures
        r@.len() == 2,
        r@[0].name@ == "http_get"@,
        r@[0].description@ == "HTTP GET with required timeout, size limit, and localhost-redirect guard."@,
        r@[0].input_schema@ == http_get_schema(),
        r@[1].name@ == "http_request"@,
        r@[1].description@ == "HTTP GET/HEAD/POST with required timeout and SSRF-oriented guards."@,
        r@[1].input_schema@ == http_request_schema(),
{
    let mut gp: Vec<(String, Json)> = Vec::new();
    push_field(&mut gp, "url", typed("string"));
    push_field(&mut gp, "timeout_ms", positive_json());
    push_field(&mut gp, "headers", headers_json());
    push_field(&mut gp, "max_bytes", positive_json());
    push_field(&mut gp, "allow_localhost_redirects", redirects_flag_json());
    assert(fields_v(gp@) =~= http_get_schema()->Obj_0[2].1->Obj_0);
    let mut rp: Vec<(String, Json)> = Vec::new();
    push_field(&mut rp, "url", typed("string"));
    push_field(&mut rp, "method", obj2("type", Json::string("string"), "enum",
        arr3(Json::string("GET"), Json::string("HEAD"), Json::string("POST"))));
    push_field(&mut rp, "timeout_ms", positive_json());
    push_field(&mut rp, "headers", headers_json());
    push_field(&mut rp, "body", typed("string"));
    push_field(&mut rp, "max_bytes", positive_json());
    push_field(&mut rp, "allow_localhost_redirects", redirects_flag_json());
    assert(fields_v(rp@) =~= http_request_schema()->Obj_0[2].1->Obj_0);
    let mut v: Vec<ToolDef> = Vec::new();
    push_tool_def(&mut v, "http_get", "HTTP GET with required timeout, size limit, and localhost-redirect guard.",
        required_schema_json(arr2(Json::string("url"), Json::string("timeout_ms")), object(gp)));
    push_tool_def(&mut v, "http_request", "HTTP GET/HEAD/POST with required timeout and SSRF-oriented guards.",
        required_schema_json(arr3(Json::string("url"), Json::string("method"), Json::string("timeout_ms")), object(rp)));
    v
}

} // verus!
