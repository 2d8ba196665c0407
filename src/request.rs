//! HTTP requests: the request line, headers and the byte range asked for.

use vstd::prelude::*;
use vstd::utf8::{valid_utf8, decode_utf8};
use crate::mime::{lowercase_of, to_lowercase};
use crate::text::{chars_of, string_of, slice_is, find_char, find_from, digits_upto, all_digits, digits_value};
use crate::uri::{decode_uri, decoded_from};

verus! {

/// The size of one chunk of a partial response.
pub const ASSET_CHUNK_SIZE: u64 = 512 * 1024;

#[derive(Debug, Clone, PartialEq, Eq)]
pub enum HttpRequestError {
    /// The request is not valid UTF-8.
    Data,
    /// The request line is not `METHOD PATH VERSION`.
    Header(String),
    /// The method is not supported.
    Method(String),
    /// A part of the request could not be read.
    Parse(String),
}

#[derive(Debug, Clone, Copy, PartialEq, Eq, Structural)]
pub enum HttpMethod {
    Get,
}

/// `char::is_whitespace`: the Unicode `White_Space` characters.
pub open spec fn is_ws(c: char) -> bool {
    ('\u{9}' <= c && c <= '\u{d}') || c == ' ' || c == '\u{85}' || c == '\u{a0}' || c == '\u{1680}'
        || ('\u{2000}' <= c && c <= '\u{200a}') || c == '\u{2028}' || c == '\u{2029}' || c
        == '\u{202f}' || c == '\u{205f}' || c == '\u{3000}'
}

fn is_ws_exec(c: char) -> (r: bool)
    ensures
        r == is_ws(c),
{
    ('\u{9}' <= c && c <= '\u{d}') || c == ' ' || c == '\u{85}' || c == '\u{a0}' || c == '\u{1680}'
        || ('\u{2000}' <= c && c <= '\u{200a}') || c == '\u{2028}' || c == '\u{2029}' || c
        == '\u{202f}' || c == '\u{205f}' || c == '\u{3000}'
}

/// The first index at or after `i` (and before `to`) whose character is
/// whitespace exactly when `ws` is.
pub open spec fn scan(s: Seq<char>, i: int, to: int, ws: bool) -> int
    decreases to - i,
{
    if i >= to || i < 0 {
        to
    } else if is_ws(s[i]) == ws {
        i
    } else {
        scan(s, i + 1, to, ws)
    }
}

proof fn lemma_scan(s: Seq<char>, i: int, to: int, ws: bool)
    requires
        0 <= i <= to <= s.len(),
    ensures
        i <= scan(s, i, to, ws) <= to,
        scan(s, i, to, ws) < to ==> is_ws(s[scan(s, i, to, ws)]) == ws,
    decreases to - i,
{
    if i < to && is_ws(s[i]) != ws {
        lemma_scan(s, i + 1, to, ws);
    }
}

fn scan_exec(c: &Vec<char>, i: usize, to: usize, ws: bool) -> (r: usize)
    requires
        i <= to <= c@.len(),
    ensures
        r == scan(c@, i as int, to as int, ws),
        i <= r <= to,
{
    let mut j = i;
    while j < to
        invariant
            i <= j <= to <= c@.len(),
            scan(c@, i as int, to as int, ws) == scan(c@, j as int, to as int, ws),
        decreases to - j,
    {
        if is_ws_exec(c[j]) == ws {
            return j;
        }
        j += 1;
    }
    j
}

/// The words of `s[i..to]` that whitespace separates (`str::split_whitespace`).
pub open spec fn words_from(s: Seq<char>, i: int, to: int) -> Seq<Seq<char>>
    decreases to - i,
{
    let a = scan(s, i, to, false);
    if a >= to || a < i {
        Seq::empty()
    } else {
        let b = scan(s, a, to, true);
        if b <= a || b > to {
            Seq::empty()
        } else {
            seq![s.subrange(a, b)] + words_from(s, b, to)
        }
    }
}

fn words(c: &Vec<char>, from: usize, to: usize) -> (r: Vec<String>)
    requires
        from <= to <= c@.len(),
    ensures
        r@.len() == words_from(c@, from as int, to as int).len(),
        forall|k: int| 0 <= k < r@.len() ==> #[trigger] r@[k]@ == words_from(c@, from as int, to as int)[k],
{
    let ghost all = words_from(c@, from as int, to as int);
    let mut out: Vec<String> = Vec::new();
    let mut i = from;
    loop
        invariant
            from <= i <= to <= c@.len(),
            all == words_from(c@, from as int, to as int),
            out@.len() + words_from(c@, i as int, to as int).len() == all.len(),
            forall|k: int| 0 <= k < out@.len() ==> #[trigger] out@[k]@ == all[k],
            forall|k: int| 0 <= k < words_from(c@, i as int, to as int).len() ==> #[trigger] words_from(c@, i as int, to as int)[k]
                == all[out@.len() + k],
        decreases to - i,
    {
        let a = scan_exec(c, i, to, false);
        proof {
            lemma_scan(c@, i as int, to as int, false);
        }
        if a >= to {
            return out;
        }
        let b = scan_exec(c, a, to, true);
        proof {
            lemma_scan(c@, a as int, to as int, true);
        }
        let ghost rest = words_from(c@, i as int, to as int);
        let w = string_of(c, a, b);
        assert(rest == seq![w@] + words_from(c@, b as int, to as int));
        let ghost tail = words_from(c@, b as int, to as int);
        assert forall|j: int| 0 <= j < tail.len() implies #[trigger] tail[j] == all[out@.len() + 1 + j] by {
            assert(tail[j] == rest[j + 1]);
        }
        assert(rest[0] == w@);
        out.push(w);
        i = b;
    }
}

/// The lines of `s[i..]` (`str::lines`): split at each `\n`, a `\r` just
/// before it dropped, no empty line after a final `\n`.
pub open spec fn lines_from(s: Seq<char>, i: int) -> Seq<Seq<char>>
    decreases s.len() - i,
{
    if i >= s.len() || i < 0 {
        Seq::empty()
    } else {
        let k = find_from(s, '\n', i, s.len() as int);
        if k >= s.len() {
            seq![s.subrange(i, s.len() as int)]
        } else if k < i {
            Seq::empty()
        } else {
            let line = s.subrange(i, k);
            let line = if line.len() > 0 && line.last() == '\r' { line.drop_last() } else { line };
            seq![line] + lines_from(s, k + 1)
        }
    }
}

/// Where the lines of `c` begin and end, as index pairs.
fn line_spans(c: &Vec<char>) -> (r: Vec<(usize, usize)>)
    ensures
        r@.len() == lines_from(c@, 0).len(),
        forall|k: int|
            0 <= k < r@.len() ==> {
                &&& (#[trigger] r@[k]).0 <= r@[k].1 <= c@.len()
                &&& c@.subrange(r@[k].0 as int, r@[k].1 as int) == lines_from(c@, 0)[k]
            },
{
    let ghost all = lines_from(c@, 0);
    let n = c.len();
    let mut out: Vec<(usize, usize)> = Vec::new();
    let mut i: usize = 0;
    while i < n
        invariant
            i <= n == c@.len(),
            all == lines_from(c@, 0),
            out@.len() + lines_from(c@, i as int).len() == all.len(),
            forall|k: int|
                0 <= k < out@.len() ==> {
                    &&& (#[trigger] out@[k]).0 <= out@[k].1 <= c@.len()
                    &&& c@.subrange(out@[k].0 as int, out@[k].1 as int) == all[k]
                },
            forall|k: int| 0 <= k < lines_from(c@, i as int).len() ==> #[trigger] lines_from(c@, i as int)[k]
                == all[out@.len() + k],
        decreases n - i,
    {
        let k = find_char(c, '\n', i, n);
        let ghost rest = lines_from(c@, i as int);
        if k >= n {
            assert(rest == seq![c@.subrange(i as int, n as int)]);
            assert(rest[0] == all[out@.len() as int]);
            out.push((i, n));
            assert(out@[out@.len() - 1] == (i, n));
            assert(lines_from(c@, n as int).len() == 0);
            i = n;
        } else {
            let end = if k > i && c[k - 1] == '\r' { k - 1 } else { k };
            assert(c@.subrange(i as int, end as int) == rest[0]);
            assert(rest[0] == all[out@.len() as int]);
            out.push((i, end));
            assert(out@[out@.len() - 1] == (i, end));
            let ghost tail = lines_from(c@, k + 1);
            assert(rest == seq![rest[0]] + tail);
            assert forall|j: int| 0 <= j < tail.len() implies #[trigger] tail[j] == all[out@.len() + j] by {
                assert(tail[j] == rest[j + 1]);
            }
            i = k + 1;
        }
    }
    out
}

/// `s[i..j]` without whitespace at either end (`str::trim`).
pub open spec fn trimmed(s: Seq<char>, i: int, j: int) -> Seq<char> {
    let a = scan(s, i, j, false);
    s.subrange(a, trim_end(s, a, j))
}

/// The end of `s[a..j]` once trailing whitespace is dropped.
pub open spec fn trim_end(s: Seq<char>, a: int, j: int) -> int
    decreases j - a,
{
    if j <= a {
        a
    } else if is_ws(s[j - 1]) {
        trim_end(s, a, j - 1)
    } else {
        j
    }
}

fn trim_exec(c: &Vec<char>, i: usize, j: usize) -> (r: String)
    requires
        i <= j <= c@.len(),
    ensures
        r@ == trimmed(c@, i as int, j as int),
{
    let a = scan_exec(c, i, j, false);
    let mut b = j;
    while b > a && is_ws_exec(c[b - 1])
        invariant
            a <= b <= j <= c@.len(),
            trim_end(c@, a as int, j as int) == trim_end(c@, a as int, b as int),
        decreases b - a,
    {
        b -= 1;
    }
    string_of(c, a, b)
}

/// A header line `key: value`, split at its first `:`, both sides trimmed.
pub open spec fn header_of(line: Seq<char>) -> Option<(Seq<char>, Seq<char>)> {
    let k = find_from(line, ':', 0, line.len() as int);
    if k < line.len() {
        Some((trimmed(line, 0, k), trimmed(line, k + 1, line.len() as int)))
    } else {
        None
    }
}

/// Splits a header line at its first `:` into a trimmed key and value.
pub fn parse_header(header: &str) -> (r: Option<(String, String)>)
    ensures
        match header_of(header@) {
            Some((k, v)) => r matches Some(p) && p.0@ == k && p.1@ == v,
            None => r is None,
        },
{
    let c = chars_of(header);
    let n = c.len();
    let k = find_char(&c, ':', 0, n);
    if k < n {
        Some((trim_exec(&c, 0, k), trim_exec(&c, k + 1, n)))
    } else {
        None
    }
}

/// The headers of a request whose lines are `lines`, from the second line to
/// line `n`: each line that is a header gives its key in lower case and its value.
pub open spec fn header_pairs(lines: Seq<Seq<char>>, n: int) -> Seq<(Seq<char>, Seq<char>)>
    decreases n,
{
    if n <= 1 {
        Seq::empty()
    } else {
        let prev = header_pairs(lines, n - 1);
        match header_of(lines[n - 1]) {
            Some((k, v)) => prev.push((lowercase_of(k), v)),
            None => prev,
        }
    }
}

/// A request: method, path and query (percent-decoded, split at the first
/// `?`), headers with lower-case keys in the order given, and version.
#[derive(Debug, Clone)]
pub struct HttpRequest {
    pub method: HttpMethod,
    pub path: String,
    pub query_string: String,
    pub headers: Vec<(String, String)>,
    pub http_version: String,
}

/// Relies on `str::from_utf8`: it succeeds exactly on valid UTF-8 and then
/// holds the decoded characters.
#[verifier::external_body]
fn utf8_text(raw: &[u8]) -> (r: Option<String>)
    ensures
        r matches Some(s) ==> valid_utf8(raw@) && s@ == decode_utf8(raw@),
        r is None ==> !valid_utf8(raw@),
{
    std::str::from_utf8(raw).ok().map(|s| s.to_string())
}

impl HttpMethod {
    /// The method that a request line names; only `GET` is served.
    pub fn try_from(value: &str) -> (r: Result<HttpMethod, HttpRequestError>)
        ensures
            value@ == "GET"@ ==> r == Ok::<HttpMethod, HttpRequestError>(HttpMethod::Get),
            value@ != "GET"@ ==> (r matches Err(HttpRequestError::Method(m)) && m@ == value@),
    {
        let c = chars_of(value);
        if slice_is(&c, 0, c.len(), "GET") {
            assert(c@.subrange(0, c@.len() as int) == c@);
            Ok(HttpMethod::Get)
        } else {
            assert(c@.subrange(0, c@.len() as int) == c@);
            Err(HttpRequestError::Method(value.to_owned()))
        }
    }
}

/// What a request holds: path, query, header pairs, version.
pub open spec fn request_parts(text: Seq<char>) -> Option<(Seq<char>, Seq<char>, Seq<(Seq<char>, Seq<char>)>, Seq<char>)> {
    let lines = lines_from(text, 0);
    if lines.len() == 0 {
        None
    } else {
        let parts = words_from(lines[0], 0, lines[0].len() as int);
        if parts.len() != 3 || parts[0] != "GET"@ {
            None
        } else {
            let full = decoded_from(parts[1], 0);
            let q = find_from(full, '?', 0, full.len() as int);
            let path = full.subrange(0, q);
            let query = if q < full.len() { full.subrange(q + 1, full.len() as int) } else { Seq::empty() };
            Some((path, query, header_pairs(lines, lines.len() as int), parts[2]))
        }
    }
}

impl HttpRequest {
    /// Reads a request: UTF-8 text whose first line is `METHOD PATH VERSION`
    /// (split at whitespace) and whose other lines are headers; lines that
    /// are not `key: value` are passed over.
    pub fn parse(raw_data: &[u8]) -> (r: Result<HttpRequest, HttpRequestError>)
        ensures
            !valid_utf8(raw_data@) ==> r == Err::<HttpRequest, HttpRequestError>(HttpRequestError::Data),
            valid_utf8(raw_data@) ==> match request_parts(decode_utf8(raw_data@)) {
                Some((path, query, headers, version)) => (r matches Ok(req) && req.method == HttpMethod::Get
                    && req.path@ == path && req.query_string@ == query && req.http_version@ == version
                    && req.headers@.len() == headers.len() && forall|k: int| 0 <= k < headers.len() ==>
                        (#[trigger] req.headers@[k]).0@ == headers[k].0 && req.headers@[k].1@ == headers[k].1),
                None => r is Err,
            },
    {
        let text = match utf8_text(raw_data) {
            Some(t) => t,
            None => return Err(HttpRequestError::Data),
        };
        let c = chars_of(text.as_str());
        let spans = line_spans(&c);
        if spans.len() == 0 {
            return Err(HttpRequestError::Header(String::new()));
        }
        let (l0, l1) = spans[0];
        let first = string_of(&c, l0, l1);
        let fc = chars_of(first.as_str());
        let parts = words(&fc, 0, fc.len());
        assert(fc@ == lines_from(c@, 0)[0]);
        if parts.len() != 3 {
            return Err(HttpRequestError::Header(first));
        }
        let method = match HttpMethod::try_from(parts[0].as_str()) {
            Ok(m) => m,
            Err(e) => return Err(e),
        };
        let full = decode_uri(parts[1].as_str());
        let fullc = chars_of(full.as_str());
        let q = find_char(&fullc, '?', 0, fullc.len());
        let path = string_of(&fullc, 0, q);
        let query = if q < fullc.len() { string_of(&fullc, q + 1, fullc.len()) } else { String::new() };
        let ghost lines = lines_from(c@, 0);
        let mut headers: Vec<(String, String)> = Vec::new();
        let mut k: usize = 1;
        while k < spans.len()
            invariant
                1 <= k <= spans@.len() == lines.len(),
                lines == lines_from(c@, 0),
                forall|j: int|
                    0 <= j < spans@.len() ==> {
                        &&& (#[trigger] spans@[j]).0 <= spans@[j].1 <= c@.len()
                        &&& c@.subrange(spans@[j].0 as int, spans@[j].1 as int) == lines[j]
                    },
                headers@.len() == header_pairs(lines, k as int).len(),
                forall|j: int| 0 <= j < headers@.len() ==> (#[trigger] headers@[j]).0@ == header_pairs(lines, k as int)[j].0
                    && headers@[j].1@ == header_pairs(lines, k as int)[j].1,
            decreases spans@.len() - k,
        {
            let (a, b) = spans[k];
            let line = string_of(&c, a, b);
            assert(line@ == lines[k as int]);
            match parse_header(line.as_str()) {
                Some((key, value)) => {
                    let lower = to_lowercase(key.as_str());
                    headers.push((lower, value));
                },
                None => {},
            }
            k += 1;
        }
        Ok(HttpRequest { method, path, query_string: query, headers, http_version: parts[2].clone() })
    }
}

/// What parsing `s` as an unsigned 64-bit integer gives: an optional `+`,
/// then one or more digits.
pub open spec fn u64_value(s: Seq<char>) -> Option<u64> {
    let body = if s.len() > 0 && s[0] == '+' { s.drop_first() } else { s };
    if body.len() > 0 && all_digits(body) && digits_value(body) <= u64::MAX {
        Some(digits_value(body) as u64)
    } else {
        None
    }
}

fn parse_u64(c: &Vec<char>, from: usize, to: usize) -> (r: Option<u64>)
    requires
        from <= to <= c@.len(),
    ensures
        r == u64_value(c@.subrange(from as int, to as int)),
{
    let ghost t = c@.subrange(from as int, to as int);
    let start = if from < to && c[from] == '+' { from + 1 } else { from };
    assert(c@.subrange(start as int, to as int) == if t.len() > 0 && t[0] == '+' { t.drop_first() } else { t });
    if start == to {
        return None;
    }
    digits_upto(c, start, to, u64::MAX)
}

pub open spec fn saturating_add_u64(a: u64, b: u64) -> u64 {
    if a + b > u64::MAX {
        u64::MAX
    } else {
        (a + b) as u64
    }
}

/// The byte range a `Range` header value asks for: after its first `=`,
/// `start-end`; a missing or unreadable start is 0, a missing or unreadable
/// end is one chunk after the start.
pub open spec fn range_of(v: Seq<char>) -> Option<(u64, u64)> {
    let e = find_from(v, '=', 0, v.len() as int);
    if e >= v.len() {
        None
    } else {
        let d = find_from(v, '-', e + 1, v.len() as int);
        if d >= v.len() {
            None
        } else {
            let start = match u64_value(v.subrange(e + 1, d)) {
                Some(x) => x,
                None => 0u64,
            };
            let end = match u64_value(v.subrange(d + 1, v.len() as int)) {
                Some(x) => x,
                None => saturating_add_u64(start, ASSET_CHUNK_SIZE),
            };
            Some((start, end))
        }
    }
}

/// The value of the last header named `name` among `hs`.
pub open spec fn last_header(hs: Seq<(String, String)>, name: Seq<char>) -> Option<Seq<char>>
    decreases hs.len(),
{
    if hs.len() == 0 {
        None
    } else if hs.last().0@ == name {
        Some(hs.last().1@)
    } else {
        last_header(hs.drop_last(), name)
    }
}

impl HttpRequest {
    /// The byte range that the request's `range` header asks for, if it has one.
    pub fn range(&self) -> (r: Option<(u64, u64)>)
        ensures
            r == (match last_header(self.headers@, "range"@) {
                Some(v) => range_of(v),
                None => None,
            }),
    {
        let mut i = self.headers.len();
        assert(self.headers@.subrange(0, i as int) == self.headers@);
        while i > 0
            invariant
                i <= self.headers@.len(),
                last_header(self.headers@, "range"@) == last_header(self.headers@.subrange(0, i as int), "range"@),
            decreases i,
        {
            assert(self.headers@.subrange(0, i as int).drop_last() == self.headers@.subrange(0, i - 1));
            let kc = chars_of(self.headers[i - 1].0.as_str());
            if slice_is(&kc, 0, kc.len(), "range") {
                assert(kc@.subrange(0, kc@.len() as int) == kc@);
                return range_value(self.headers[i - 1].1.as_str());
            }
            assert(kc@.subrange(0, kc@.len() as int) == kc@);
            i -= 1;
        }
        None
    }
}

fn range_value(value: &str) -> (r: Option<(u64, u64)>)
    ensures
        r == range_of(value@),
{
    let c = chars_of(value);
    let n = c.len();
    let e = find_char(&c, '=', 0, n);
    if e >= n {
        return None;
    }
    let d = find_char(&c, '-', e + 1, n);
    if d >= n {
        return None;
    }
    let start = match parse_u64(&c, e + 1, d) {
        Some(x) => x,
        None => 0,
    };
    let end = match parse_u64(&c, d + 1, n) {
        Some(x) => x,
        None => if start > u64::MAX - ASSET_CHUNK_SIZE { u64::MAX } else { start + ASSET_CHUNK_SIZE },
    };
    Some((start, end))
}

} // verus!
