//! The language-server side of the LSP extension: the request allowlist,
//! `Content-Length` framing, request ids, argument parsing, and the JSON-RPC
//! messages the client sends.
use vstd::prelude::*;
use crate::json::{Json, JsonV, push_field, object, array, fields_v, elems_v, push_elem};
use crate::text::{chars_of, string_of, owned, concat, concat3, str_eq, starts_with, to_ascii_lower,
    ascii_lower, has_prefix, trim, trim_chars, lines, lines_of, views, views_s, dec, dec_string,
    parse_unsigned, parse_unsigned_exec, is_ws, is_ws_exec, slice_range, strs_v, in_list,
    utf8_lossy, utf8_lossy_spec, lemma_dec_digits, lemma_lines_at, is_first_index, strip_cr,
    all_digits, is_digit, lower_char, trim_start, trim_end, lemma_dec_len_u64};

verus! {

// ---------------------------------------------------------------------------
// Allowlist

pub open spec fn allowed_request_strs() -> Seq<&'static str> {
    seq![
        "textDocument/hover", "textDocument/definition", "textDocument/typeDefinition",
        "textDocument/implementation", "textDocument/references", "textDocument/documentSymbol",
        "textDocument/completion", "textDocument/formatting", "textDocument/rangeFormatting",
        "textDocument/rename", "textDocument/prepareRename", "textDocument/codeAction",
        "textDocument/diagnostic", "workspace/symbol", "workspace/diagnostic",
    ]
}

/// The LSP methods that `lsp_request` may forward.
pub open spec fn allowed_request_methods() -> Seq<Seq<char>> {
    strs_v(allowed_request_strs())
}

/// The allowlist as a list.
pub fn allowed_request_list() -> (v: Vec<&'static str>)
    ensures
        v@ == allowed_request_strs(),
{
    let v: Vec<&'static str> = vec![
        "textDocument/hover", "textDocument/definition", "textDocument/typeDefinition",
        "textDocument/implementation", "textDocument/references", "textDocument/documentSymbol",
        "textDocument/completion", "textDocument/formatting", "textDocument/rangeFormatting",
        "textDocument/rename", "textDocument/prepareRename", "textDocument/codeAction",
        "textDocument/diagnostic", "workspace/symbol", "workspace/diagnostic",
    ];
    assert(v@ =~= allowed_request_strs());
    v
}

/// Whether `lsp_request` may forward `method`.
pub fn is_allowed_request(method: &str) -> (r: bool)
    ensures
        r == allowed_request_methods().contains(method@),
{
    let l = allowed_request_list();
    in_list(method, &l)
}

// ---------------------------------------------------------------------------
// Framing

/// The header that precedes a body of `n` bytes.
pub open spec fn frame_header(n: nat) -> Seq<char> {
    "Content-Length: "@ + dec(n) + "\r\n\r\n"@
}

fn push_text_bytes(out: &mut Vec<u8>, s: &str)
    ensures
        final(out)@ == old(out)@ + vstd::utf8::encode_utf8(s@),
{
    let b = s.as_bytes();
    let ghost o = out@;
    let mut i: usize = 0;
    while i < b.len()
        invariant
            i <= b.len(),
            b@ == vstd::utf8::encode_utf8(s@),
            out@ == o + b@.take(i as int),
        decreases b.len() - i,
    {
        out.push(b[i]);
        assert(b@.take(i + 1) =~= b@.take(i as int).push(b@[i as int]));
        i += 1;
    }
    assert(b@.take(b.len() as int) =~= b@);
}

/// A framed message: the `Content-Length` header, then the body.
pub fn frame_message(body: &[u8]) -> (r: Vec<u8>)
    ensures
        r@ == vstd::utf8::encode_utf8(frame_header(body@.len())) + body@,
{
    let n = dec_string(body.len() as u64);
    let h = concat3("Content-Length: ", n.as_str(), "\r\n\r\n");
    let mut out: Vec<u8> = Vec::new();
    push_text_bytes(&mut out, h.as_str());
    let ghost o = out@;
    let mut i: usize = 0;
    while i < body.len()
        invariant
            i <= body.len(),
            out@ == o + body@.take(i as int),
        decreases body.len() - i,
    {
        out.push(body[i]);
        assert(body@.take(i + 1) =~= body@.take(i as int).push(body@[i as int]));
        i += 1;
    }
    assert(body@.take(body.len() as int) =~= body@);
    assert(o =~= vstd::utf8::encode_utf8(frame_header(body@.len())));
    out
}

/// The header is complete once it ends with an empty line.
pub open spec fn header_complete(h: Seq<u8>) -> bool {
    h.len() >= 4 && h.skip(h.len() - 4) == seq![13u8, 10u8, 13u8, 10u8]
}

/// The largest header that is read.
pub const MAX_HEADER_BYTES: usize = 8192;

/// Adds one byte to a header being read: `Ok(true)` once it is complete,
/// `Ok(false)` while more is needed, an error once it is too long.
pub fn push_header_byte(header: &mut Vec<u8>, b: u8) -> (r: Result<bool, String>)
    ensures
        final(header)@ == old(header)@.push(b),
        match r {
            Ok(done) => done == header_complete(final(header)@) && (done || final(header)@.len() <= MAX_HEADER_BYTES),
            Err(e) => !header_complete(final(header)@) && final(header)@.len() > MAX_HEADER_BYTES
                && e@ == "LSP header too large"@,
        },
{
    header.push(b);
    let n = header.len();
    let done = n >= 4 && header[n - 4] == 13u8 && header[n - 3] == 10u8 && header[n - 2] == 13u8 && header[n - 1] == 10u8;
    proof {
        let h = header@;
        if done {
            assert(h.skip(h.len() - 4) =~= seq![13u8, 10u8, 13u8, 10u8]);
        }
        if header_complete(h) {
            let t = h.skip(h.len() - 4);
            assert(t[0] == h[h.len() - 4]);
            assert(t[1] == h[h.len() - 3]);
            assert(t[2] == h[h.len() - 2]);
            assert(t[3] == h[h.len() - 1]);
        }
    }
    if done {
        return Ok(true);
    }
    if n > MAX_HEADER_BYTES {
        return Err(owned("LSP header too large"));
    }
    Ok(false)
}

/// What a reader finds in the header written for a body of `n` bytes is `n`.
proof fn lemma_frame_header_length(n: nat)
    requires
        n <= usize::MAX,
    ensures
        content_length_text(frame_header(n)) == Ok::<usize, Seq<char>>(n as usize),
{
    reveal_strlit("Content-Length: ");
    reveal_strlit("\r\n\r\n");
    reveal_strlit("content-length:");
    lemma_dec_digits(n);
    let d = dec(n);
    let p = "Content-Length: "@;
    let h = frame_header(n);
    let i: int = (p.len() + d.len() + 1) as int;
    assert forall|j: int| 0 <= j < d.len() implies d[j] != '\n' && d[j] != '\r' && !is_ws(d[j])
        && lower_char(d[j]) == d[j] by {
        assert(is_digit(d[j]));
    }
    assert(h[i] == '\n');
    assert forall|j: int| 0 <= j < i implies h[j] != '\n' by {
        if j >= p.len() && j < p.len() + d.len() {
            assert(h[j] == d[j - p.len()]);
        }
    }
    assert(is_first_index(h, '\n', i));
    lemma_lines_at(h, i);
    let line = p + d;
    assert(strip_cr(h.take(i)) =~= line);
    let tail = h.skip(i + 1);
    assert(tail =~= seq!['\r', '\n']);
    assert(is_first_index(tail, '\n', 1));
    lemma_lines_at(tail, 1);
    assert(strip_cr(tail.take(1)) =~= Seq::<char>::empty());
    assert(tail.skip(2) =~= Seq::<char>::empty());
    assert(lines(h) =~= seq![line, Seq::<char>::empty()]);
    let lower = ascii_lower(line);
    reveal_strlit("content-length: ");
    assert(lower_char('C') == 'c');
    assert(lower_char('L') == 'l');
    assert(ascii_lower(p) =~= "content-length: "@);
    assert(ascii_lower(d) =~= d);
    assert(lower =~= ascii_lower(p) + ascii_lower(d));
    assert(lower =~= "content-length: "@ + d);
    assert(has_prefix(lower, "content-length:"@)) by {
        assert(lower.take(15) =~= "content-length:"@);
    }
    let rest = lower.skip(15);
    assert(rest =~= seq![' '] + d);
    assert(trim_start(rest) == trim_start(d)) by {
        assert(rest.drop_first() =~= d);
    }
    assert(trim_start(d) == d);
    assert(trim_end(d) == d);
    assert(trim(rest) == d);
    assert(parse_unsigned(d, usize::MAX as nat) == Some(n));
    let ls = seq![line, Seq::<char>::empty()];
    assert(ls.drop_first() =~= seq![Seq::<char>::empty()]);
    assert(seq![Seq::<char>::empty()].drop_first() =~= Seq::<Seq<char>>::empty());
    assert(ascii_lower(Seq::<char>::empty()) =~= Seq::<char>::empty());
    assert(content_length_scan(Seq::<Seq<char>>::empty(), Some(n as usize)) == Ok::<Option<usize>, Seq<char>>(Some(n as usize)));
    assert(content_length_scan(seq![Seq::<char>::empty()], Some(n as usize)) == Ok::<Option<usize>, Seq<char>>(Some(n as usize)));
    assert(content_length_scan(ls, None) == Ok::<Option<usize>, Seq<char>>(Some(n as usize)));
}

/// A frame written by `frame_message` reads back. Fed byte by byte to
/// `push_header_byte`, its header is complete exactly at its last byte (no
/// shorter prefix is), it is never too large, and the length it announces
/// is the body's.
pub proof fn lemma_frame_roundtrip(n: nat)
    requires
        n <= usize::MAX,
    ensures
        header_complete(vstd::utf8::encode_utf8(frame_header(n))),
        forall|k: int| 0 <= k < vstd::utf8::encode_utf8(frame_header(n)).len()
            ==> !header_complete(#[trigger] vstd::utf8::encode_utf8(frame_header(n)).take(k)),
        vstd::utf8::encode_utf8(frame_header(n)).len() <= MAX_HEADER_BYTES,
        content_length_text(frame_header(n)) == Ok::<usize, Seq<char>>(n as usize),
{
    reveal_strlit("Content-Length: ");
    reveal_strlit("\r\n\r\n");
    lemma_frame_header_length(n);
    lemma_dec_digits(n);
    lemma_dec_len_u64(n);
    let d = dec(n);
    let p = "Content-Length: "@;
    let h = frame_header(n);
    let b = vstd::utf8::encode_utf8(h);
    let len = h.len() as int;
    assert(len == 20 + d.len());
    assert forall|j: int| 0 <= j < d.len() implies '0' <= #[trigger] d[j] <= '9' by {
        assert(is_digit(d[j]));
    }
    assert forall|j: int| 0 <= j < len implies '\0' <= #[trigger] h[j] <= '\u{7f}' by {
        if 16 <= j < 16 + d.len() {
            assert(h[j] == d[j - 16]);
        }
    }
    assert(vstd::utf8::is_ascii_chars(h));
    vstd::utf8::is_ascii_chars_encode_utf8(h);
    assert(b.len() == len);
    assert(b.skip(len - 4) =~= seq![13u8, 10u8, 13u8, 10u8]) by {
        assert(h[len - 4] == '\r');
        assert(h[len - 3] == '\n');
        assert(h[len - 2] == '\r');
        assert(h[len - 1] == '\n');
        assert(h[len - 4] as u8 == b[len - 4]);
        assert(h[len - 3] as u8 == b[len - 3]);
        assert(h[len - 2] as u8 == b[len - 2]);
        assert(h[len - 1] as u8 == b[len - 1]);
    }
    assert forall|k: int| 0 <= k < b.len() implies !header_complete(#[trigger] b.take(k)) by {
        if header_complete(b.take(k)) {
            let t = b.take(k);
            assert(t.skip(k - 4)[3] == 10u8);
            assert(t.skip(k - 4)[1] == 10u8);
            assert(b[k - 1] == 10u8);
            assert(b[k - 3] == 10u8);
            assert(h[k - 1] as u8 == b[k - 1]);
            assert(h[k - 3] as u8 == b[k - 3]);
            if k - 1 < 16 {
                assert(h[k - 1] == p[k - 1]);
            } else if k - 1 < 16 + d.len() {
                assert(h[k - 1] == d[k - 1 - 16]);
            } else {
                assert(k - 1 == len - 3);
                assert(h[k - 3] == d[d.len() - 1]);
            }
        }
    }
}

/// A whole framed message reads back: reading the bytes `frame_message` gives for
/// `body` byte by byte, the header is complete exactly after its own bytes,
/// announces `body`'s length, and that many bytes after it are `body` itself.
pub proof fn lemma_framed_body_reads_back(body: Seq<u8>)
    requires
        body.len() <= usize::MAX,
    ensures
        ({
            let h = vstd::utf8::encode_utf8(frame_header(body.len()));
            let f = h + body;
            &&& header_complete(f.take(h.len() as int))
            &&& forall|k: int| 0 <= k < h.len() ==> !header_complete(#[trigger] f.take(k))
            &&& content_length_text(frame_header(body.len())) == Ok::<usize, Seq<char>>(body.len() as usize)
            &&& f.subrange(h.len() as int, (h.len() + body.len()) as int) == body
        }),
{
    lemma_frame_roundtrip(body.len());
    let h = vstd::utf8::encode_utf8(frame_header(body.len()));
    let f = h + body;
    assert(f.take(h.len() as int) =~= h);
    assert forall|k: int| 0 <= k < h.len() implies !header_complete(#[trigger] f.take(k)) by {
        assert(f.take(k) =~= h.take(k));
    }
    assert(f.subrange(h.len() as int, (h.len() + body.len()) as int) =~= body);
}

/// Reads the `Content-Length` lines of a header in order: the last good value
/// counts, and a value that does not parse stops the scan.
pub open spec fn content_length_scan(ls: Seq<Seq<char>>, acc: Option<usize>) -> Result<Option<usize>, Seq<char>>
    decreases ls.len(),
{
    if ls.len() == 0 {
        Ok(acc)
    } else {
        let lower = ascii_lower(ls[0]);
        if has_prefix(lower, "content-length:"@) {
            let rest = lower.skip(15);
            match parse_unsigned(trim(rest), usize::MAX as nat) {
                Some(n) => content_length_scan(ls.drop_first(), Some(n as usize)),
                None => Err("bad Content-Length: "@ + rest),
            }
        } else {
            content_length_scan(ls.drop_first(), acc)
        }
    }
}

/// The body length a header announces, read from its text.
pub open spec fn content_length_text(text: Seq<char>) -> Result<usize, Seq<char>> {
    match content_length_scan(lines(text), None) {
        Err(e) => Err(e),
        Ok(None) => Err("LSP message missing Content-Length"@),
        Ok(Some(n)) => Ok(n),
    }
}

pub open spec fn usize_result_v(r: Result<usize, String>) -> Result<usize, Seq<char>> {
    match r {
        Ok(n) => Ok(n),
        Err(e) => Err(e@),
    }
}

/// The body length a header announces; the header is read as UTF-8 with
/// invalid sequences replaced.
pub fn content_length(header: &[u8]) -> (r: Result<usize, String>)
    ensures
        usize_result_v(r) == content_length_text(utf8_lossy_spec(header@)),
        forall|t: Seq<char>| #[trigger] vstd::utf8::encode_utf8(t) == header@ ==> usize_result_v(r) == content_length_text(t),
{
    let text = utf8_lossy(header);
    let tc = chars_of(text.as_str());
    let ls = lines_of(tc.as_slice());
    let prefix = chars_of("content-length:");
    proof {
        reveal_strlit("content-length:");
        assert(prefix@.len() == 15);
    }
    let mut acc: Option<usize> = None;
    let mut i: usize = 0;
    assert(views(ls@).skip(0) =~= views(ls@));
    while i < ls.len()
        invariant
            i <= ls.len(),
            prefix@ == "content-length:"@,
            prefix@.len() == 15,
            views(ls@) == lines(utf8_lossy_spec(header@)),
            forall|t: Seq<char>| #[trigger] vstd::utf8::encode_utf8(t) == header@ ==> t == utf8_lossy_spec(header@),
            content_length_scan(views(ls@), None) == content_length_scan(views(ls@).skip(i as int), acc),
        decreases ls.len() - i,
    {
        let lower = to_ascii_lower(ls[i].as_slice());
        proof {
            let s = views(ls@).skip(i as int);
            assert(s[0] == ls@[i as int]@);
            assert(s.drop_first() =~= views(ls@).skip(i + 1));
        }
        if starts_with(lower.as_slice(), prefix.as_slice()) {
            let rest = slice_range(lower.as_slice(), 15, lower.len());
            let t = trim_chars(rest.as_slice());
            proof {
                assert(rest@ =~= lower@.skip(15));
            }
            match parse_unsigned_exec(t.as_slice(), usize::MAX as u64) {
                Some(n) => {
                    acc = Some(n as usize);
                },
                None => {
                    let rs = string_of(rest.as_slice());
                    proof {
                        let sk = views(ls@).skip(i as int);
                        assert(ascii_lower(sk[0]) == lower@);
                        assert(has_prefix(lower@, "content-length:"@));
                        assert(parse_unsigned(trim(lower@.skip(15)), usize::MAX as nat) is None);
                        assert(content_length_scan(sk, acc) == Err::<Option<usize>, Seq<char>>("bad Content-Length: "@ + rs@));
                    }
                    return Err(concat("bad Content-Length: ", rs.as_str()));
                },
            }
        }
        i += 1;
    }
    proof {
        assert(views(ls@).skip(ls.len() as int) =~= Seq::<Seq<char>>::empty());
    }
    match acc {
        None => Err(owned("LSP message missing Content-Length")),
        Some(n) => Ok(n),
    }
}

// ---------------------------------------------------------------------------
// Request ids

pub open spec fn json_id_spec(v: JsonV) -> Option<u64> {
    match v.as_u64() {
        Some(n) => Some(n),
        None => match v.as_i64() {
            Some(i) => Some(i as u64),
            None => match v.as_str() {
                Some(s) => match parse_unsigned(s, u64::MAX as nat) {
                    Some(n) => Some(n as u64),
                    None => None,
                },
                None => None,
            },
        },
    }
}

/// A JSON-RPC id as a number: an integer (a negative one wraps around), or a
/// string of digits.
pub fn json_id_u64(v: &Json) -> (r: Option<u64>)
    ensures
        r == json_id_spec(v@),
{
    match v.as_u64() {
        Some(n) => Some(n),
        None => match v.as_i64() {
            Some(i) => Some(#[verifier::truncate] (i as u64)),
            None => match v.as_str() {
                Some(s) => {
                    let c = chars_of(s);
                    match parse_unsigned_exec(c.as_slice(), u64::MAX) {
                        Some(n) => Some(n),
                        None => None,
                    }
                },
                None => None,
            },
        },
    }
}

// ---------------------------------------------------------------------------
// Argument lists

/// `str::split_whitespace`: the maximal runs of non-whitespace characters.
pub open spec fn words(s: Seq<char>) -> Seq<Seq<char>>
    decreases s.len(),
{
    if s.len() == 0 {
        Seq::empty()
    } else if is_ws(s[0]) {
        words(s.drop_first())
    } else {
        proof {
            lemma_word_end(s, 1);
        }
        let k = word_end(s, 0);
        seq![s.take(k)] + words(s.skip(k))
    }
}

/// The end of the run of non-whitespace characters that starts at `i`.
pub open spec fn word_end(s: Seq<char>, i: int) -> int
    decreases s.len() - i,
{
    if i >= s.len() || i < 0 || is_ws(s[i]) {
        i
    } else {
        word_end(s, i + 1)
    }
}

pub proof fn lemma_word_end(s: Seq<char>, i: int)
    requires
        0 <= i <= s.len(),
    ensures
        i <= word_end(s, i) <= s.len(),
        forall|j: int| i <= j < word_end(s, i) ==> !is_ws(s[j]),
        word_end(s, i) < s.len() ==> is_ws(s[word_end(s, i)]),
    decreases s.len() - i,
{
    if i < s.len() && !is_ws(s[i]) {
        lemma_word_end(s, i + 1);
    }
}

proof fn lemma_word_end_shift(s: Seq<char>, i: int)
    requires
        0 <= i <= s.len(),
        forall|j: int| 0 <= j < i ==> !is_ws(s[j]),
    ensures
        word_end(s, 0) == word_end(s, i),
    decreases i,
{
    if i > 0 {
        lemma_word_end_shift(s, i - 1);
    }
}

proof fn lemma_words_skip_ws(s: Seq<char>, i: int)
    requires
        0 <= i <= s.len(),
        forall|j: int| 0 <= j < i ==> is_ws(s[j]),
    ensures
        words(s) == words(s.skip(i)),
    decreases i,
{
    if i > 0 {
        assert(s.drop_first().skip(i - 1) =~= s.skip(i));
        lemma_words_skip_ws(s.drop_first(), i - 1);
    } else {
        assert(s.skip(0) =~= s);
    }
}

/// Splits text at whitespace.
pub fn split_whitespace(s: &[char]) -> (r: Vec<String>)
    ensures
        views_s(r@) == words(s@),
{
    let mut r: Vec<String> = Vec::new();
    let mut i: usize = 0;
    assert(s@.skip(0) =~= s@);
    while i < s.len()
        invariant
            i <= s.len(),
            views_s(r@) + words(s@.skip(i as int)) == words(s@),
        decreases s.len() - i,
    {
        let ghost rest = s@.skip(i as int);
        if is_ws_exec(s[i]) {
            proof {
                assert(rest.drop_first() =~= s@.skip(i + 1));
            }
            i += 1;
        } else {
            let mut j = i;
            while j < s.len() && !is_ws_exec(s[j])
                invariant
                    i <= j <= s.len(),
                    forall|k: int| i <= k < j ==> !is_ws(s@[k]),
                decreases s.len() - j,
            {
                j += 1;
            }
            let w = slice_range(s, i, j);
            let ghost old_r = r@;
            r.push(string_of(w.as_slice()));
            proof {
                let k = j - i;
                lemma_word_end(rest, k);
                assert(forall|m: int| 0 <= m < k ==> !is_ws(rest[m]));
                if k < rest.len() {
                    assert(is_ws(rest[k]));
                }
                lemma_word_end_shift(rest, k);
                assert(word_end(rest, k) == k);
                assert(rest.take(k) =~= w@);
                assert(rest.skip(k) =~= s@.skip(j as int));
                assert(views_s(r@) =~= views_s(old_r).push(w@));
                assert(views_s(r@) + words(s@.skip(j as int)) =~= views_s(old_r) + words(rest));
            }
            i = j;
        }
    }
    proof {
        assert(s@.skip(i as int) =~= Seq::<char>::empty());
        assert(views_s(r@) + Seq::<Seq<char>>::empty() =~= views_s(r@));
    }
    r
}

/// What `serde_json::from_str` makes of a text, when it is a JSON array: each
/// element as its text when it is a string.
pub uninterp spec fn json_string_array(text: Seq<char>) -> Option<Seq<Option<Seq<char>>>>;

pub open spec fn opt_strs_v(v: Seq<Option<String>>) -> Seq<Option<Seq<char>>> {
    v.map_values(|o: Option<String>| match o { Some(s) => Some(s@), None => None })
}

/// `serde_json::from_str::<Value>`; `Some` when the text parses as a JSON array,
/// with each element by `Value::as_str`. The contract names the result as a
/// function of the text.
#[verifier::external_body]
fn parse_json_string_array(text: &str) -> (r: Option<Vec<Option<String>>>)
    ensures
        match r {
            Some(v) => json_string_array(text@) == Some(opt_strs_v(v@)),
            None => json_string_array(text@) is None,
        },
{
    match serde_json::from_str::<serde_json::Value>(text) {
        Ok(serde_json::Value::Array(items)) => {
            let mut out = Vec::new();
            for item in items.iter() {
                out.push(item.as_str().map(str::to_string));
            }
            Some(out)
        },
        _ => None,
    }
}

/// The strings among a list of optional strings, in order.
pub open spec fn present(v: Seq<Option<Seq<char>>>) -> Seq<Seq<char>>
    decreases v.len(),
{
    if v.len() == 0 {
        Seq::empty()
    } else {
        let f = present(v.drop_last());
        match v.last() {
            Some(s) => f.push(s),
            None => f,
        }
    }
}

fn keep_present(v: Vec<Option<String>>) -> (r: Vec<String>)
    ensures
        views_s(r@) == present(opt_strs_v(v@)),
{
    let mut r: Vec<String> = Vec::new();
    let mut i: usize = 0;
    while i < v.len()
        invariant
            i <= v.len(),
            views_s(r@) == present(opt_strs_v(v@).take(i as int)),
        decreases v.len() - i,
    {
        proof {
            assert(opt_strs_v(v@).take(i + 1).drop_last() =~= opt_strs_v(v@).take(i as int));
        }
        match &v[i] {
            Some(s) => {
                let ghost old_r = r@;
                r.push(owned(s.as_str()));
                assert(views_s(r@) =~= views_s(old_r).push(s@));
            },
            None => {},
        }
        i += 1;
    }
    assert(opt_strs_v(v@).take(v.len() as int) =~= opt_strs_v(v@));
    r
}

/// A server argument list: a JSON array of strings (other elements skipped) when
/// the trimmed text starts with `[` and parses as one, else the whitespace-separated
/// words.
pub open spec fn args_list_spec(raw: Option<Seq<char>>) -> Seq<Seq<char>> {
    match raw {
        None => Seq::empty(),
        Some(r) => {
            let t = trim(r);
            if t.len() == 0 {
                Seq::empty()
            } else if t[0] == '[' && json_string_array(t) is Some {
                present(json_string_array(t)->0)
            } else {
                words(t)
            }
        },
    }
}

/// Parses a server argument list given as JSON or as words.
pub fn parse_args_list(raw: Option<&str>) -> (r: Vec<String>)
    ensures
        views_s(r@) == args_list_spec(match raw { Some(s) => Some(s@), None => None }),
{
    let r = match raw {
        None => return Vec::new(),
        Some(r) => r,
    };
    let c = chars_of(r);
    let t = trim_chars(c.as_slice());
    if t.len() == 0 {
        let v: Vec<String> = Vec::new();
        assert(views_s(v@) =~= Seq::<Seq<char>>::empty());
        return v;
    }
    if t[0] == '[' {
        let ts = string_of(t.as_slice());
        match parse_json_string_array(ts.as_str()) {
            Some(items) => return keep_present(items),
            None => {},
        }
    }
    split_whitespace(t.as_slice())
}

/// The defaults a server starts with: the command and workspace when set and
/// not empty, and the argument list.
pub fn defaults_from_values(command: Option<String>, args: Option<String>, workspace: Option<String>) -> (r: (Option<String>, Vec<String>, Option<String>))
    ensures
        match command {
            Some(c) => if c@.len() > 0 { r.0 matches Some(x) && x@ == c@ } else { r.0 is None },
            None => r.0 is None,
        },
        views_s(r.1@) == args_list_spec(match args { Some(s) => Some(s@), None => None }),
        match workspace {
            Some(w) => if w@.len() > 0 { r.2 matches Some(x) && x@ == w@ } else { r.2 is None },
            None => r.2 is None,
        },
{
    let c = match command {
        Some(c) => if c.as_str().is_empty() { None } else { Some(c) },
        None => None,
    };
    let a = match &args {
        Some(s) => parse_args_list(Some(s.as_str())),
        None => parse_args_list(None),
    };
    let w = match workspace {
        Some(w) => if w.as_str().is_empty() { None } else { Some(w) },
        None => None,
    };
    (c, a, w)
}

/// The position of a hover, definition or references call: `uri`, `line` and
/// `character`, each required; the numbers are cut to 32 bits.
pub open spec fn position_spec(args: JsonV) -> Result<(Seq<char>, u32, u32), Seq<char>> {
    match args.str_at("uri"@) {
        None => Err("missing uri"@),
        Some(u) => match args.u64_at("line"@) {
            None => Err("missing line"@),
            Some(l) => match args.u64_at("character"@) {
                None => Err("missing character"@),
                Some(c) => Ok((u, l as u32, c as u32)),
            },
        },
    }
}

/// Reads the position arguments.
pub fn position_args(args: &Json) -> (r: Result<(String, u32, u32), String>)
    ensures
        match r {
            Ok((u, l, c)) => position_spec(args@) == Ok::<(Seq<char>, u32, u32), Seq<char>>((u@, l, c)),
            Err(e) => position_spec(args@) == Err::<(Seq<char>, u32, u32), Seq<char>>(e@),
        },
{
    let uri = match args.str_at("uri") {
        None => return Err(owned("missing uri")),
        Some(u) => u,
    };
    let line = match args.u64_at("line") {
        None => return Err(owned("missing line")),
        Some(l) => l,
    };
    let character = match args.u64_at("character") {
        None => return Err(owned("missing character")),
        Some(c) => c,
    };
    Ok((uri, #[verifier::truncate] (line as u32), #[verifier::truncate] (character as u32)))
}

// ---------------------------------------------------------------------------
// Messages

/// `{"jsonrpc": "2.0", "id": id, "method": method, "params": params}`.
pub open spec fn request_spec(id: u64, method: Seq<char>, params: JsonV) -> JsonV {
    JsonV::Obj(seq![
        ("jsonrpc"@, JsonV::Str("2.0"@)),
        ("id"@, JsonV::UInt(id)),
        ("method"@, JsonV::Str(method)),
        ("params"@, params),
    ])
}

/// A JSON-RPC request.
pub fn request_message(id: u64, method: &str, params: Json) -> (r: Json)
    ensures
        r@ == request_spec(id, method@, params@),
{
    let ghost pv = params@;
    let mut f: Vec<(String, Json)> = Vec::new();
    push_field(&mut f, "jsonrpc", Json::string("2.0"));
    push_field(&mut f, "id", Json::UInt(id));
    push_field(&mut f, "method", Json::string(method));
    push_field(&mut f, "params", params);
    assert(fields_v(f@) =~= request_spec(id, method@, pv)->Obj_0);
    object(f)
}

/// `{"jsonrpc": "2.0", "method": method, "params": params}`.
pub open spec fn notification_spec(method: Seq<char>, params: JsonV) -> JsonV {
    JsonV::Obj(seq![
        ("jsonrpc"@, JsonV::Str("2.0"@)),
        ("method"@, JsonV::Str(method)),
        ("params"@, params),
    ])
}

/// A JSON-RPC notification.
pub fn notification_message(method: &str, params: Json) -> (r: Json)
    ensures
        r@ == notification_spec(method@, params@),
{
    let ghost pv = params@;
    let mut f: Vec<(String, Json)> = Vec::new();
    push_field(&mut f, "jsonrpc", Json::string("2.0"));
    push_field(&mut f, "method", Json::string(method));
    push_field(&mut f, "params", params);
    assert(fields_v(f@) =~= notification_spec(method@, pv)->Obj_0);
    object(f)
}

/// `{"textDocument": {"uri": uri}, "position": {"line": line, "character": character}}`.
pub open spec fn position_params_spec(uri: Seq<char>, line: u32, character: u32) -> JsonV {
    JsonV::Obj(seq![
        ("textDocument"@, JsonV::Obj(seq![("uri"@, JsonV::Str(uri))])),
        ("position"@, JsonV::Obj(seq![("line"@, JsonV::UInt(line as u64)), ("character"@, JsonV::UInt(character as u64))])),
    ])
}

fn text_document(uri: &str) -> (r: Json)
    ensures
        r@ == JsonV::Obj(seq![("uri"@, JsonV::Str(uri@))]),
{
    let mut f: Vec<(String, Json)> = Vec::new();
    push_field(&mut f, "uri", Json::string(uri));
    assert(fields_v(f@) =~= seq![("uri"@, JsonV::Str(uri@))]);
    object(f)
}

/// The parameters of a request at a position in a document.
pub fn position_params(uri: &str, line: u32, character: u32) -> (r: Json)
    ensures
        r@ == position_params_spec(uri@, line, character),
{
    let mut p: Vec<(String, Json)> = Vec::new();
    push_field(&mut p, "line", Json::UInt(line as u64));
    push_field(&mut p, "character", Json::UInt(character as u64));
    assert(fields_v(p@) =~= seq![("line"@, JsonV::UInt(line as u64)), ("character"@, JsonV::UInt(character as u64))]);
    let pos = object(p);
    let mut f: Vec<(String, Json)> = Vec::new();
    push_field(&mut f, "textDocument", text_document(uri));
    push_field(&mut f, "position", pos);
    assert(fields_v(f@) =~= position_params_spec(uri@, line, character)->Obj_0);
    object(f)
}

/// The parameters of a references request: the position, declarations included.
pub open spec fn references_params_spec(uri: Seq<char>, line: u32, character: u32) -> JsonV {
    JsonV::Obj(position_params_spec(uri, line, character)->Obj_0.push(
        ("context"@, JsonV::Obj(seq![("includeDeclaration"@, JsonV::Bool(true))])),
    ))
}

/// The parameters of a references request.
pub fn references_params(uri: &str, line: u32, character: u32) -> (r: Json)
    ensures
        r@ == references_params_spec(uri@, line, character),
{
    let mut p: Vec<(String, Json)> = Vec::new();
    push_field(&mut p, "line", Json::UInt(line as u64));
    push_field(&mut p, "character", Json::UInt(character as u64));
    assert(fields_v(p@) =~= seq![("line"@, JsonV::UInt(line as u64)), ("character"@, JsonV::UInt(character as u64))]);
    let pos = object(p);
    let mut c: Vec<(String, Json)> = Vec::new();
    push_field(&mut c, "includeDeclaration", Json::Bool(true));
    assert(fields_v(c@) =~= seq![("includeDeclaration"@, JsonV::Bool(true))]);
    let ctx = object(c);
    let mut f: Vec<(String, Json)> = Vec::new();
    push_field(&mut f, "textDocument", text_document(uri));
    push_field(&mut f, "position", pos);
    push_field(&mut f, "context", ctx);
    assert(fields_v(f@) =~= references_params_spec(uri@, line, character)->Obj_0);
    object(f)
}

/// A symbols request: the document's symbols when a uri is given, else a
/// workspace search for `query` (empty by default).
pub open spec fn symbols_spec(uri: Option<Seq<char>>, query: Option<Seq<char>>) -> (Seq<char>, JsonV) {
    match uri {
        Some(u) => ("textDocument/documentSymbol"@, JsonV::Obj(seq![("textDocument"@, JsonV::Obj(seq![("uri"@, JsonV::Str(u))]))])),
        None => ("workspace/symbol"@, JsonV::Obj(seq![("query"@, JsonV::Str(match query { Some(q) => q, None => Seq::empty() }))])),
    }
}

/// The method and parameters of a symbols request.
pub fn symbols_request(uri: Option<&str>, query: Option<&str>) -> (r: (String, Json))
    ensures
        (r.0@, r.1@) == symbols_spec(match uri { Some(u) => Some(u@), None => None }, match query { Some(q) => Some(q@), None => None }),
{
    match uri {
        Some(u) => {
            let mut f: Vec<(String, Json)> = Vec::new();
            push_field(&mut f, "textDocument", text_document(u));
            assert(fields_v(f@) =~= seq![("textDocument"@, JsonV::Obj(seq![("uri"@, JsonV::Str(u@))]))]);
            (owned("textDocument/documentSymbol"), object(f))
        },
        None => {
            let q = match query {
                Some(q) => owned(q),
                None => String::new(),
            };
            let ghost qv = q@;
            let mut f: Vec<(String, Json)> = Vec::new();
            push_field(&mut f, "query", Json::Str(q));
            assert(fields_v(f@) =~= seq![("query"@, JsonV::Str(qv))]);
            (owned("workspace/symbol"), object(f))
        },
    }
}

/// `file://` and the path (canonical where it could be made so).
pub fn path_to_uri(path: &str) -> (r: String)
    ensures
        r@ == "file://"@ + path@,
{
    concat("file://", path)
}

/// The method and parameters of an `lsp_request` call: the method is required,
/// the parameters default to an empty object.
pub fn request_tool_args(args: &Json) -> (r: Result<(String, Json), String>)
    ensures
        match r {
            Ok((m, p)) => args@.str_at("method"@) == Some(m@) && p@ == (match args@.get("params"@) {
                Some(x) => x,
                None => JsonV::Obj(Seq::empty()),
            }),
            Err(e) => args@.str_at("method"@) is None && e@ == "missing method"@,
        },
{
    let method = match args.str_at("method") {
        Some(m) => m,
        None => return Err(owned("missing method")),
    };
    let params = match args.get("params") {
        Some(p) => p.copy(),
        None => Json::empty_object(),
    };
    Ok((method, params))
}

/// The id of an `lsp_cancel` call.
pub fn cancel_tool_id(args: &Json) -> (r: Result<u64, String>)
    ensures
        match r {
            Ok(id) => args@.u64_at("id"@) == Some(id),
            Err(e) => args@.u64_at("id"@) is None && e@ == "missing id"@,
        },
{
    match args.u64_at("id") {
        Some(id) => Ok(id),
        None => Err(owned("missing id")),
    }
}


/// The request a position tool of the session server makes: `lsp_hover`,
/// `lsp_definition` and `lsp_references` ask for the document position (the
/// references with their declaration); any other tool makes none.
pub open spec fn position_request_spec(tool: Seq<char>, uri: Seq<char>, line: u32, character: u32) -> Option<(Seq<char>, JsonV)> {
    if tool == "lsp_hover"@ {
        Some(("textDocument/hover"@, position_params_spec(uri, line, character)))
    } else if tool == "lsp_definition"@ {
        Some(("textDocument/definition"@, position_params_spec(uri, line, character)))
    } else if tool == "lsp_references"@ {
        Some(("textDocument/references"@, references_params_spec(uri, line, character)))
    } else {
        None
    }
}

/// The method and parameters a position tool sends.
pub fn position_request(tool: &str, uri: &str, line: u32, character: u32) -> (r: Option<(String, Json)>)
    ensures
        match r {
            Some((m, p)) => position_request_spec(tool@, uri@, line, character) == Some((m@, p@)),
            None => position_request_spec(tool@, uri@, line, character) is None,
        },
{
    if str_eq(tool, "lsp_hover") {
        Some((owned("textDocument/hover"), position_params(uri, line, character)))
    } else if str_eq(tool, "lsp_definition") {
        Some((owned("textDocument/definition"), position_params(uri, line, character)))
    } else if str_eq(tool, "lsp_references") {
        Some((owned("textDocument/references"), references_params(uri, line, character)))
    } else {
        None
    }
}

} // verus!
