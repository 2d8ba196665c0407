//! What a frame request asks for, read from its path and query string.

use vstd::prelude::*;
use crate::request::{HttpRequest, HttpRequestError};
use crate::text::{chars_of, string_of, find_char, find_from, parse_i64, i32_value};
use crate::timespec::{Fraction, SeekPosition, seek_position_of};
use crate::uri::{find_query_arg, find_query_flag, split_query, pieces_from, arg_index, after_equals};

verus! {

/// An `i32` argument: its value, or 0 where it is missing or unreadable.
pub open spec fn i32_arg(v: Option<Seq<char>>) -> i32 {
    match v {
        Some(s) => match i32_value(s) {
            Some(x) => x,
            None => 0i32,
        },
        None => 0i32,
    }
}

/// A position argument: its value, or tick 0 where it is missing or unreadable.
pub open spec fn position_arg(v: Option<Seq<char>>) -> SeekPosition {
    match v {
        Some(s) => match seek_position_of(s) {
            Ok(p) => p,
            Err(_) => SeekPosition::TimeBase(0),
        },
        None => SeekPosition::TimeBase(0),
    }
}

/// The value of argument `key` among the pieces `q` of a query string.
pub open spec fn arg_value(q: Seq<String>, key: Seq<char>) -> Option<Seq<char>> {
    let i = arg_index(q, key, 0);
    if i < q.len() {
        Some(after_equals(q[i]@))
    } else {
        None
    }
}

fn i32_of(v: Option<String>) -> (r: i32)
    ensures
        r == i32_arg(match v {
            Some(s) => Some(s@),
            None => None,
        }),
{
    match v {
        Some(s) => {
            let c = chars_of(s.as_str());
            assert(c@.subrange(0, c@.len() as int) == c@);
            match parse_i64(&c, 0, c.len()) {
                Some(x) => if i32::MIN as i64 <= x && x <= i32::MAX as i64 {
                    x as i32
                } else {
                    0
                },
                None => 0,
            }
        },
        None => 0,
    }
}

fn position_of(v: Option<String>) -> (r: SeekPosition)
    ensures
        r == position_arg(match v {
            Some(s) => Some(s@),
            None => None,
        }),
{
    match v {
        Some(s) => match SeekPosition::parse(s.as_str()) {
            Ok(p) => p,
            Err(_) => SeekPosition::TimeBase(0),
        },
        None => SeekPosition::TimeBase(0),
    }
}

/// The arguments of a frame request.
#[derive(Debug, Clone, Copy, PartialEq, Eq, Structural)]
pub struct VideoArgs {
    /// Whether a mosaic is asked for.
    pub film: bool,
    pub height: i32,
    pub seek_position: SeekPosition,
    pub width: i32,
    pub end: SeekPosition,
    pub step: SeekPosition,
}

/// The end of a sampling: tick 0 (also what a missing end reads as) stands
/// for the whole of the stream.
pub open spec fn end_or_whole(p: SeekPosition) -> SeekPosition {
    if p == SeekPosition::TimeBase(0) {
        SeekPosition::Percentage(Fraction { num: 1, den: 1 })
    } else {
        p
    }
}

/// The step of a sampling: tick 0 (also what a missing step reads as) stands
/// for one tick.
pub open spec fn step_or_one(p: SeekPosition) -> SeekPosition {
    if p == SeekPosition::TimeBase(0) {
        SeekPosition::TimeBase(1)
    } else {
        p
    }
}

impl VideoArgs {
    /// Reads `film`, `width`, `height`, `start`, `end` and `step` from a query
    /// string of `&`-separated `key=value` pieces.
    pub fn from_query_string(query_string: &str) -> (r: VideoArgs)
        ensures
            ({
                let q = pieces_from(query_string@, '&', 0);
                &&& r.film == exists|k: int| 0 <= k < q.len() && #[trigger] q[k] == "film"@
                &&& r.height == i32_arg(arg_value_of(q, "height"@))
                &&& r.width == i32_arg(arg_value_of(q, "width"@))
                &&& r.seek_position == position_arg(arg_value_of(q, "start"@))
                &&& r.end == end_or_whole(position_arg(arg_value_of(q, "end"@)))
                &&& r.step == step_or_one(position_arg(arg_value_of(q, "step"@)))
            }),
    {
        let query = split_query(query_string);
        proof {
            lemma_arg_value_of(query@, query_string@, "height"@);
            lemma_arg_value_of(query@, query_string@, "width"@);
            lemma_arg_value_of(query@, query_string@, "start"@);
            lemma_arg_value_of(query@, query_string@, "end"@);
            lemma_arg_value_of(query@, query_string@, "step"@);
        }
        let film = find_query_flag(&query, "film");
        proof {
            let q = pieces_from(query_string@, '&', 0);
            if film {
                let k = choose|k: int| 0 <= k < query@.len() && #[trigger] query@[k]@ == "film"@;
                assert(q[k] == "film"@);
            }
            if exists|k: int| 0 <= k < q.len() && #[trigger] q[k] == "film"@ {
                let k = choose|k: int| 0 <= k < q.len() && #[trigger] q[k] == "film"@;
                assert(query@[k]@ == "film"@);
            }
        }
        let height = i32_of(find_query_arg(&query, "height"));
        let width = i32_of(find_query_arg(&query, "width"));
        let seek_position = position_of(find_query_arg(&query, "start"));
        let end = match position_of(find_query_arg(&query, "end")) {
            SeekPosition::TimeBase(0) => SeekPosition::Percentage(Fraction { num: 1, den: 1 }),
            n => n,
        };
        let step = match position_of(find_query_arg(&query, "step")) {
            SeekPosition::TimeBase(0) => SeekPosition::TimeBase(1),
            n => n,
        };
        VideoArgs { film, height, seek_position, width, end, step }
    }
}

/// The index of the first piece at or after `i` that is an argument `key=...`,
/// over pieces given as character sequences.
pub open spec fn arg_index_of(q: Seq<Seq<char>>, key: Seq<char>, i: int) -> int
    decreases q.len() - i,
{
    if i >= q.len() || i < 0 {
        q.len() as int
    } else if crate::uri::is_arg_of(q[i], key) {
        i
    } else {
        arg_index_of(q, key, i + 1)
    }
}

/// The value of argument `key` among the pieces `q`.
pub open spec fn arg_value_of(q: Seq<Seq<char>>, key: Seq<char>) -> Option<Seq<char>> {
    let i = arg_index_of(q, key, 0);
    if i < q.len() {
        Some(after_equals(q[i]))
    } else {
        None
    }
}

proof fn lemma_arg_index(query: Seq<String>, q: Seq<Seq<char>>, key: Seq<char>, i: int)
    requires
        query.len() == q.len(),
        forall|k: int| 0 <= k < query.len() ==> #[trigger] query[k]@ == q[k],
    ensures
        arg_index(query, key, i) == arg_index_of(q, key, i),
        0 <= i <= query.len() ==> i <= arg_index(query, key, i) <= query.len(),
    decreases query.len() - i,
{
    if 0 <= i < query.len() {
        lemma_arg_index(query, q, key, i + 1);
    }
}

proof fn lemma_arg_value_of(query: Seq<String>, s: Seq<char>, key: Seq<char>)
    requires
        query.len() == pieces_from(s, '&', 0).len(),
        forall|k: int| 0 <= k < query.len() ==> #[trigger] query[k]@ == pieces_from(s, '&', 0)[k],
    ensures
        arg_value(query, key) == arg_value_of(pieces_from(s, '&', 0), key),
{
    lemma_arg_index(query, pieces_from(s, '&', 0), key, 0);
    let i = arg_index(query, key, 0);
    if 0 <= i < query.len() {
        assert(query[i]@ == pieces_from(s, '&', 0)[i]);
    }
}

/// A media file named by a request path: the media root, then what follows
/// the path's first segment.
#[derive(Debug, Clone, PartialEq, Eq)]
pub struct FilePath(pub String);

/// The file that a request path `/<route>/<file>` names under `root`:
/// `<root>/<file>`; `None` where the path (its first character aside) has no `/`.
pub open spec fn file_path_of(path: Seq<char>, root: Seq<char>) -> Option<Seq<char>> {
    if path.len() == 0 {
        None
    } else {
        let k = find_from(path, '/', 1, path.len() as int);
        if k < path.len() {
            Some(root + seq!['/'] + path.subrange(k + 1, path.len() as int))
        } else {
            None
        }
    }
}

impl FilePath {
    /// The file under `media_root` that a request path names.
    pub fn from_path(path: &str, media_root: &str) -> (r: Result<FilePath, HttpRequestError>)
        ensures
            match file_path_of(path@, media_root@) {
                Some(f) => (r matches Ok(p) && p.0@ == f),
                None => (r matches Err(HttpRequestError::Parse(m)) && m@ == "Missing filepath"@),
            },
    {
        let c = chars_of(path);
        let n = c.len();
        if n == 0 {
            return Err(HttpRequestError::Parse("Missing filepath".to_owned()));
        }
        let k = find_char(&c, '/', 1, n);
        if k >= n {
            return Err(HttpRequestError::Parse("Missing filepath".to_owned()));
        }
        let rc = chars_of(media_root);
        let mut all: Vec<char> = rc;
        all.push('/');
        let mut i = k + 1;
        while i < n
            invariant
                k + 1 <= i <= n == c@.len(),
                all@ == media_root@ + seq!['/'] + c@.subrange(k + 1, i as int),
            decreases n - i,
        {
            all.push(c[i]);
            i += 1;
            assert(all@ =~= media_root@ + seq!['/'] + c@.subrange(k + 1, i as int));
        }
        let m = all.len();
        Ok(FilePath(string_of(&all, 0, m)))
    }
}

impl HttpRequest {
    /// The media file that the request's path names under `media_root`.
    pub fn path(&self, media_root: &str) -> (r: Result<FilePath, HttpRequestError>)
        ensures
            match file_path_of(self.path@, media_root@) {
                Some(f) => (r matches Ok(p) && p.0@ == f),
                None => (r matches Err(HttpRequestError::Parse(m)) && m@ == "Missing filepath"@),
            },
    {
        FilePath::from_path(self.path.as_str(), media_root)
    }

    /// The frame arguments in the request's query string.
    pub fn query(&self) -> (r: VideoArgs)
        ensures
            ({
                let q = pieces_from(self.query_string@, '&', 0);
                &&& r.film == exists|k: int| 0 <= k < q.len() && #[trigger] q[k] == "film"@
                &&& r.height == i32_arg(arg_value_of(q, "height"@))
                &&& r.width == i32_arg(arg_value_of(q, "width"@))
                &&& r.seek_position == position_arg(arg_value_of(q, "start"@))
                &&& r.end == end_or_whole(position_arg(arg_value_of(q, "end"@)))
                &&& r.step == step_or_one(position_arg(arg_value_of(q, "step"@)))
            }),
    {
        VideoArgs::from_query_string(self.query_string.as_str())
    }
}

} // verus!
