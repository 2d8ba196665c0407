//! Response decisions: status lines, partial content and route matching.

use vstd::prelude::*;
use crate::request::{HttpRequestError, ASSET_CHUNK_SIZE};
use crate::text::{chars_of, slice_is};

verus! {

/// Files larger than this are always served in parts.
pub const PARTIAL_CONTENT_SIZE: u64 = 25 * 1024 * 1024;

#[derive(Debug, Clone, PartialEq, Eq)]
pub enum HttpStatus {
    OK,
    PartialContent,
    BadRequest(HttpRequestError),
    NotFound,
    /// A failure while serving, with its description.
    InternalServerError(String),
}

impl HttpStatus {
    /// The status code and reason phrase.
    pub fn as_tuple(&self) -> (r: (u16, &'static str))
        ensures
            self is OK ==> r.0 == 200 && r.1@ == "OK"@,
            self is PartialContent ==> r.0 == 206 && r.1@ == "Partial Content"@,
            self is BadRequest ==> r.0 == 400 && r.1@ == "Bad Request"@,
            self is NotFound ==> r.0 == 404 && r.1@ == "Not Found"@,
            self is InternalServerError ==> r.0 == 500 && r.1@ == "Internal Server Error"@,
    {
        match self {
            HttpStatus::OK => (200, "OK"),
            HttpStatus::PartialContent => (206, "Partial Content"),
            HttpStatus::BadRequest(..) => (400, "Bad Request"),
            HttpStatus::NotFound => (404, "Not Found"),
            HttpStatus::InternalServerError(..) => (500, "Internal Server Error"),
        }
    }
}

/// The part of a file of `length` bytes that is served: `None` for the whole
/// file, `Some((start, end))` for the bytes `start..end`. A file is served in
/// parts when a range was asked for or it is larger than
/// `PARTIAL_CONTENT_SIZE`; a part is at most one chunk long (an empty or
/// reversed range also gets one chunk) and ends at the end of the file.
pub open spec fn served_part(range: Option<(u64, u64)>, length: u64) -> Option<(u64, u64)> {
    if range is None && length <= PARTIAL_CONTENT_SIZE {
        None
    } else {
        let (start, end) = match range {
            Some(r) => r,
            None => (0u64, ASSET_CHUNK_SIZE),
        };
        let chunk_end = if start + ASSET_CHUNK_SIZE > u64::MAX {
            u64::MAX
        } else {
            (start + ASSET_CHUNK_SIZE) as u64
        };
        let wanted = if end <= start || end - start > ASSET_CHUNK_SIZE {
            chunk_end
        } else {
            end
        };
        Some((start, if wanted < length { wanted } else { length }))
    }
}

/// Chooses the part of a file to serve; see `served_part`.
pub fn serve_range(range: Option<(u64, u64)>, length: u64) -> (r: Option<(u64, u64)>)
    ensures
        r == served_part(range, length),
{
    if range.is_none() && length <= PARTIAL_CONTENT_SIZE {
        return None;
    }
    let (start, end) = match range {
        Some(r) => r,
        None => (0, ASSET_CHUNK_SIZE),
    };
    let chunk_end = if start > u64::MAX - ASSET_CHUNK_SIZE { u64::MAX } else { start + ASSET_CHUNK_SIZE };
    let wanted = if end <= start || end - start > ASSET_CHUNK_SIZE { chunk_end } else { end };
    Some((start, if wanted < length { wanted } else { length }))
}

/// Whether a route endpoint serves a path: an endpoint ending in `/*`
/// serves every path that begins with what precedes the `*`'s slash;
/// any other endpoint serves only itself.
pub open spec fn route_serves(endpoint: Seq<char>, path: Seq<char>) -> bool {
    let n = endpoint.len();
    if n >= 2 && endpoint[n - 2] == '/' && endpoint[n - 1] == '*' {
        let prefix = endpoint.subrange(0, n - 2);
        path.len() >= prefix.len() && path.subrange(0, prefix.len() as int) == prefix
    } else {
        path == endpoint
    }
}

/// Whether the route `endpoint` serves `path`; see `route_serves`.
pub fn route_matches(endpoint: &str, path: &str) -> (r: bool)
    ensures
        r == route_serves(endpoint@, path@),
{
    let e = chars_of(endpoint);
    let p = chars_of(path);
    let n = e.len();
    if n >= 2 && e[n - 2] == '/' && e[n - 1] == '*' {
        let m = n - 2;
        if p.len() < m {
            return false;
        }
        let mut i: usize = 0;
        while i < m
            invariant
                i <= m == n - 2,
                n == e@.len(),
                m <= p@.len(),
                e@ == endpoint@,
                p@ == path@,
                forall|j: int| 0 <= j < i ==> p@[j] == e@[j],
            decreases m - i,
        {
            if p[i] != e[i] {
                assert(p@.subrange(0, m as int)[i as int] != e@.subrange(0, m as int)[i as int]);
                assert(p@.subrange(0, m as int) != e@.subrange(0, m as int));
                return false;
            }
            i += 1;
        }
        assert(p@.subrange(0, m as int) =~= e@.subrange(0, m as int));
        true
    } else {
        assert(e@.subrange(0, n as int) == e@);
        let pc = p.len();
        assert(p@.subrange(0, pc as int) == p@);
        slice_is(&p, 0, pc, endpoint)
    }
}

} // verus!
