use impetus_ext::http_fetch::{
    allow_localhost_redirects, check_final_host, check_request_body, check_response_size, fetch_reply,
    is_loopback_host, max_bytes, parse_request_headers, plan_fetch, redact_header_value, redact_headers_map,
    http_tool_defs, redirect_action, request_method, require_timeout_ms, validate_method, validate_url, HttpMethod, RedirectAction,
};
use impetus_ext::json::Json;
use reqwest::header::{HeaderMap, HeaderValue, AUTHORIZATION, CONTENT_TYPE};

fn hobj(fields: Vec<(&str, Json)>) -> Json {
    Json::Obj(fields.into_iter().map(|(k, v)| (k.to_string(), v)).collect())
}

fn field<'a>(j: &'a Json, key: &str) -> Option<&'a Json> {
    match j {
        Json::Obj(f) => f.iter().find(|(k, _)| k == key).map(|(_, v)| v),
        _ => None,
    }
}

#[test]
fn blocks_file_scheme() {
    assert!(validate_url("file:///etc/passwd").err().unwrap().contains("file://"));
}

#[test]
fn allows_http_https() {
    assert!(validate_url("https://example.com/a").is_ok());
    assert!(validate_url("http://example.com").is_ok());
    assert!(validate_url("ftp://example.com").is_err());
}

#[test]
fn method_allowlist() {
    assert!(validate_method("GET").is_ok());
    assert!(validate_method("post").is_ok());
    assert!(validate_method("DELETE").is_err());
    assert!(validate_method("PUT").is_err());
}

#[test]
fn timeout_required() {
    assert!(require_timeout_ms(&hobj(vec![])).is_err());
    assert_eq!(require_timeout_ms(&hobj(vec![("timeout_ms", Json::UInt(1000))])).unwrap(), 1000);
    assert!(require_timeout_ms(&hobj(vec![("timeout_ms", Json::UInt(0))])).is_err());
}

#[test]
fn loopback_detection() {
    assert!(is_loopback_host("localhost"));
    assert!(is_loopback_host("127.0.0.1"));
    assert!(is_loopback_host("::1"));
    assert!(is_loopback_host("127.1.2.3"));
    assert!(!is_loopback_host("example.com"));
    assert!(!is_loopback_host("10.0.0.1"));
}

#[test]
fn redacts_authorization() {
    assert_eq!(redact_header_value("Authorization", "Bearer secret"), "[REDACTED]");
    assert_eq!(redact_header_value("Content-Type", "text/plain"), "text/plain");
    let mut headers = HeaderMap::new();
    headers.insert(AUTHORIZATION, HeaderValue::from_static("Bearer xyz"));
    headers.insert(CONTENT_TYPE, HeaderValue::from_static("application/json"));
    let redacted = redact_headers_map(&headers);
    assert!(matches!(field(&redacted, "authorization"), Some(Json::Str(v)) if v == "[REDACTED]"));
    assert!(matches!(field(&redacted, "content-type"), Some(Json::Str(v)) if v == "application/json"));
}

#[test]
fn localhost_redirect_flag_defaults_off() {
    assert!(!allow_localhost_redirects(&hobj(vec![])));
    assert!(allow_localhost_redirects(&hobj(vec![("allow_localhost_redirects", Json::Bool(true))])));
}

#[test]
fn url_guard_messages() {
    assert_eq!(validate_url("file:///etc/passwd").err().unwrap(), "file:// URLs are blocked");
    assert_eq!(validate_url("ftp://example.com").err().unwrap(), "scheme `ftp` is not allowlisted (http/https only)");
    assert_eq!(
        validate_url("https://user:pw@example.com").err().unwrap(),
        "URLs with embedded credentials are blocked"
    );
    assert!(validate_url("not a url").err().unwrap().starts_with("invalid URL: "));
    let u = validate_url("HTTPS://Example.COM/x").unwrap();
    assert_eq!(u.scheme, "https");
    assert_eq!(u.host.as_deref(), Some("example.com"));
}

#[test]
fn method_and_limits() {
    assert_eq!(validate_method("  head ").unwrap(), HttpMethod::Head);
    assert_eq!(validate_method("put").unwrap_err(), "method `PUT` is not allowlisted (GET/HEAD/POST)");
    assert_eq!(request_method(&hobj(vec![])).unwrap_err(), "method is required");
    assert_eq!(HttpMethod::Post.name(), "POST");
    assert_eq!(require_timeout_ms(&hobj(vec![("timeout_ms", Json::UInt(999_999))])).unwrap(), 120_000);
    assert_eq!(
        require_timeout_ms(&hobj(vec![("timeout_ms", Json::Str("1".into()))])).unwrap_err(),
        "timeout_ms must be a positive integer"
    );
    assert_eq!(max_bytes(&hobj(vec![])), 1024 * 1024);
    assert_eq!(max_bytes(&hobj(vec![("max_bytes", Json::UInt(0))])), 1);
    assert_eq!(max_bytes(&hobj(vec![("max_bytes", Json::UInt(u64::MAX))])), 8 * 1024 * 1024);
    assert!(is_loopback_host(" [::1] "));
    assert!(is_loopback_host("API.LOCALHOST"));
    assert!(is_loopback_host("0.0.0.0"));
    assert!(!is_loopback_host("localhost.example.com"));
    assert_eq!(redact_header_value("X-Api-Key", "k"), "[REDACTED]");
    assert_eq!(redact_header_value("x-github-token-id", "k"), "[REDACTED]");
    assert_eq!(redact_header_value("Set-Cookie", "a=b"), "[REDACTED]");
}

#[test]
fn request_headers_and_plan() {
    let args = hobj(vec![
        ("url", Json::Str("https://example.com".into())),
        ("timeout_ms", Json::UInt(5000)),
        ("headers", hobj(vec![("Accept", Json::Str("text/plain".into()))])),
        ("body", Json::Str("x".into())),
    ]);
    assert_eq!(plan_fetch(HttpMethod::Get, &args).err().unwrap(), "body is not allowed for GET");
    let plan = plan_fetch(HttpMethod::Post, &args).unwrap();
    assert_eq!(plan.timeout_ms, 5000);
    assert_eq!(plan.max_bytes, 1024 * 1024);
    assert_eq!(plan.headers, vec![("Accept".to_string(), "text/plain".to_string())]);
    assert_eq!(plan.body.as_deref(), Some("x"));
    assert_eq!(plan_fetch(HttpMethod::Get, &hobj(vec![])).err().unwrap(), "url is required");
    let bad_name = hobj(vec![("headers", hobj(vec![("bad header", Json::Str("v".into()))]))]);
    assert_eq!(
        parse_request_headers(&bad_name).unwrap_err(),
        "invalid header name `bad header`: invalid HTTP header name"
    );
    let bad_value = hobj(vec![("headers", hobj(vec![("x-a", Json::Str("a\nb".into()))]))]);
    assert_eq!(
        parse_request_headers(&bad_value).unwrap_err(),
        "invalid header value for `x-a`: failed to parse header value"
    );
    let not_string = hobj(vec![("headers", hobj(vec![("x-a", Json::UInt(1))]))]);
    assert_eq!(parse_request_headers(&not_string).unwrap_err(), "header `x-a` value must be a string");
    assert!(check_request_body("abc", 3).is_ok());
    assert_eq!(check_request_body("abcd", 3).unwrap_err(), "request body exceeds max_bytes");
    assert_eq!(check_response_size(10, 4).unwrap_err(), "response body 10 bytes exceeds max_bytes 4");
    assert!(check_final_host(false, Some("localhost")).is_err());
    assert!(check_final_host(true, Some("localhost")).is_ok());
    assert!(check_final_host(false, None).is_ok());
}

#[test]
fn redirects_and_reply() {
    assert_eq!(redirect_action(false, "https", Some("example.com"), 0), RedirectAction::Follow);
    assert_eq!(redirect_action(false, "https", Some("example.com"), 5), RedirectAction::Stop);
    assert_eq!(
        redirect_action(false, "ftp", None, 0),
        RedirectAction::Block("redirect scheme `ftp` blocked".into())
    );
    assert!(matches!(redirect_action(false, "http", Some("127.0.0.1"), 1), RedirectAction::Block(_)));
    assert_eq!(redirect_action(true, "http", Some("127.0.0.1"), 1), RedirectAction::Follow);
    let reply = fetch_reply(200, "https://example.com/", Json::Obj(vec![]), &[b'h', b'i', 0xff]);
    assert!(matches!(field(&reply, "status"), Some(Json::UInt(200))));
    assert!(matches!(field(&reply, "body"), Some(Json::Str(b)) if b == "hi\u{fffd}"));
    assert!(matches!(field(&reply, "utf8_lossy"), Some(Json::Bool(true))));
    assert!(matches!(field(&reply, "bytes"), Some(Json::UInt(3))));
    let clean = fetch_reply(204, "https://example.com/", Json::Obj(vec![]), b"ok");
    assert!(matches!(field(&clean, "utf8_lossy"), Some(Json::Bool(false))));
}

#[test]
fn header_names_are_tokens() {
    let with_name = |n: &str| hobj(vec![("headers", hobj(vec![(n, Json::Str("v".into()))]))]);
    assert!(parse_request_headers(&with_name("X-Custom_1.a~")).is_ok());
    assert!(parse_request_headers(&with_name("x!#$%&'*+^`|")).is_ok());
    assert!(parse_request_headers(&with_name("")).is_err());
    assert!(parse_request_headers(&with_name("a:b")).is_err());
    assert!(parse_request_headers(&with_name("caf\u{e9}")).is_err());
    assert!(parse_request_headers(&with_name(&"a".repeat(65535))).is_ok());
    assert!(parse_request_headers(&with_name(&"a".repeat(65536))).is_err());
}

#[test]
fn http_tool_table() {
    let t = http_tool_defs();
    assert_eq!(t.len(), 2);
    assert_eq!(t[0].name, "http_get");
    assert_eq!(t[1].name, "http_request");
    let required = |s: &Json| match s {
        Json::Obj(f) => f.iter().find(|(k, _)| k == "required").map(|(_, v)| format!("{v:?}")),
        _ => None,
    };
    assert_eq!(required(&t[0].input_schema).unwrap(), format!("{:?}", Json::Arr(vec![Json::Str("url".into()), Json::Str("timeout_ms".into())])));
    assert!(required(&t[1].input_schema).unwrap().contains("method"));
}
