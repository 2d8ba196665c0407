//! Percent-decoding of request paths and the arguments of a query string.

use vstd::prelude::*;
use crate::text::{chars_of, push_char, string_of, slice_is, find_char, find_from};

verus! {

pub open spec fn hex_digit(c: char) -> Option<int> {
    if '0' <= c && c <= '9' {
        Some(c as int - '0' as int)
    } else if 'a' <= c && c <= 'f' {
        Some(c as int - 'a' as int + 10)
    } else if 'A' <= c && c <= 'F' {
        Some(c as int - 'A' as int + 10)
    } else {
        None
    }
}

/// What reading one or two characters as a hexadecimal byte gives: one or
/// two hex digits, or `+` and one digit.
pub open spec fn hex_byte(e: Seq<char>) -> Option<u8> {
    if e.len() == 1 {
        match hex_digit(e[0]) {
            Some(d) => Some(d as u8),
            None => None,
        }
    } else if e.len() == 2 {
        if e[0] == '+' {
            match hex_digit(e[1]) {
                Some(d) => Some(d as u8),
                None => None,
            }
        } else {
            match (hex_digit(e[0]), hex_digit(e[1])) {
                (Some(a), Some(b)) => Some((16 * a + b) as u8),
                _ => None,
            }
        }
    } else {
        None
    }
}

/// `s[i..]` with each `%` and the (up to) two characters after it replaced
/// by the byte they spell, read as a Latin-1 character; where they spell none
/// they are kept as they are.
pub open spec fn decoded_from(s: Seq<char>, i: int) -> Seq<char>
    decreases s.len() - i,
{
    if i >= s.len() || i < 0 {
        Seq::empty()
    } else if s[i] == '%' {
        let end = if i + 3 < s.len() { i + 3 } else { s.len() as int };
        let e = s.subrange(i + 1, end);
        match hex_byte(e) {
            Some(b) => seq![b as char] + decoded_from(s, end),
            None => seq!['%'] + e + decoded_from(s, end),
        }
    } else {
        seq![s[i]] + decoded_from(s, i + 1)
    }
}

fn hex_digit_exec(c: char) -> (r: Option<u8>)
    ensures
        r matches Some(d) ==> hex_digit(c) == Some(d as int) && d < 16,
        r is None ==> hex_digit(c) is None,
{
    if '0' <= c && c <= '9' {
        Some((c as u32 - '0' as u32) as u8)
    } else if 'a' <= c && c <= 'f' {
        Some((c as u32 - 'a' as u32 + 10) as u8)
    } else if 'A' <= c && c <= 'F' {
        Some((c as u32 - 'A' as u32 + 10) as u8)
    } else {
        None
    }
}

fn hex_byte_exec(c: &Vec<char>, from: usize, to: usize) -> (r: Option<u8>)
    requires
        from <= to <= c@.len(),
    ensures
        r == hex_byte(c@.subrange(from as int, to as int)),
{
    let n = to - from;
    if n == 1 {
        match hex_digit_exec(c[from]) {
            Some(d) => Some(d),
            None => None,
        }
    } else if n == 2 {
        if c[from] == '+' {
            match hex_digit_exec(c[from + 1]) {
                Some(d) => Some(d),
                None => None,
            }
        } else {
            match (hex_digit_exec(c[from]), hex_digit_exec(c[from + 1])) {
                (Some(a), Some(b)) => Some(16 * a + b),
                _ => None,
            }
        }
    } else {
        None
    }
}

/// Decodes `%XX` escapes in a URI; see `decoded_from`.
pub fn decode_uri(uri: &str) -> (r: String)
    ensures
        r@ == decoded_from(uri@, 0),
{
    let c = chars_of(uri);
    let n = c.len();
    let mut out = String::new();
    let mut i: usize = 0;
    while i < n
        invariant
            n == c@.len() == uri@.len(),
            c@ == uri@,
            i <= n,
            out@ + decoded_from(c@, i as int) == decoded_from(c@, 0),
        decreases n - i,
    {
        let ghost before = out@;
        if c[i] == '%' {
            let end = if n - i > 3 { i + 3 } else { n };
            match hex_byte_exec(&c, i + 1, end) {
                Some(b) => {
                    push_char(&mut out, b as char);
                    assert(out@ + decoded_from(c@, end as int) =~= before + decoded_from(c@, i as int));
                },
                None => {
                    push_char(&mut out, '%');
                    let mut j = i + 1;
                    while j < end
                        invariant
                            i + 1 <= j <= end <= n == c@.len(),
                            out@ == before + seq!['%'] + c@.subrange(i + 1, j as int),
                        decreases end - j,
                    {
                        push_char(&mut out, c[j]);
                        j += 1;
                        assert(out@ =~= before + seq!['%'] + c@.subrange(i + 1, j as int));
                    }
                    assert(out@ + decoded_from(c@, end as int) =~= before + decoded_from(c@, i as int));
                },
            }
            i = end;
        } else {
            push_char(&mut out, c[i]);
            assert(out@ + decoded_from(c@, i + 1) =~= before + decoded_from(c@, i as int));
            i += 1;
        }
    }
    assert(out@ + decoded_from(c@, n as int) =~= out@);
    out
}

/// The pieces of `s[i..]` between `&` separators.
pub open spec fn pieces_from(s: Seq<char>, sep: char, i: int) -> Seq<Seq<char>>
    decreases s.len() - i,
{
    if i > s.len() || i < 0 {
        Seq::empty()
    } else {
        let k = find_from(s, sep, i, s.len() as int);
        if k >= s.len() {
            seq![s.subrange(i, s.len() as int)]
        } else if k < i {
            Seq::empty()
        } else {
            seq![s.subrange(i, k)] + pieces_from(s, sep, k + 1)
        }
    }
}

proof fn lemma_find_from_bounds(s: Seq<char>, x: char, i: int, to: int)
    requires
        0 <= i <= to <= s.len(),
    ensures
        i <= find_from(s, x, i, to) <= to,
    decreases to - i,
{
    if i < to && s[i] != x {
        lemma_find_from_bounds(s, x, i + 1, to);
    }
}

/// Splits a query string at each `&`.
pub fn split_query(query_string: &str) -> (r: Vec<String>)
    ensures
        r@.len() == pieces_from(query_string@, '&', 0).len(),
        forall|k: int| 0 <= k < r@.len() ==> #[trigger] r@[k]@ == pieces_from(query_string@, '&', 0)[k],
{
    let c = chars_of(query_string);
    let n = c.len();
    let mut out: Vec<String> = Vec::new();
    let mut i: usize = 0;
    loop
        invariant
            n == c@.len(),
            c@ == query_string@,
            i <= n,
            out@.len() + pieces_from(c@, '&', i as int).len() == pieces_from(c@, '&', 0).len(),
            forall|k: int| 0 <= k < out@.len() ==> #[trigger] out@[k]@ == pieces_from(c@, '&', 0)[k],
            forall|k: int| 0 <= k < pieces_from(c@, '&', i as int).len() ==> #[trigger] pieces_from(c@, '&', i as int)[k]
                == pieces_from(c@, '&', 0)[out@.len() + k],
        decreases n - i,
    {
        let k = find_char(&c, '&', i, n);
        proof {
            lemma_find_from_bounds(c@, '&', i as int, n as int);
        }
        let piece = string_of(&c, i, k);
        let ghost rest = pieces_from(c@, '&', i as int);
        assert(rest[0] == piece@);
        out.push(piece);
        if k >= n {
            assert(rest.len() == 1);
            return out;
        }
        assert(rest == seq![piece@] + pieces_from(c@, '&', k + 1));
        let ghost tail = pieces_from(c@, '&', k + 1);
        assert forall|j: int| 0 <= j < tail.len() implies #[trigger] tail[j] == pieces_from(
            c@,
            '&',
            0,
        )[out@.len() + j] by {
            assert(tail[j] == rest[j + 1]);
        }
        i = k + 1;
    }
}

/// Whether `key` is one of the pieces of the query.
pub fn find_query_flag(query: &Vec<String>, key_name: &str) -> (r: bool)
    ensures
        r == exists|k: int| 0 <= k < query@.len() && #[trigger] query@[k]@ == key_name@,
{
    let mut i: usize = 0;
    while i < query.len()
        invariant
            i <= query@.len(),
            forall|k: int| 0 <= k < i ==> #[trigger] query@[k]@ != key_name@,
        decreases query@.len() - i,
    {
        let c = chars_of(query[i].as_str());
        if slice_is(&c, 0, c.len(), key_name) {
            assert(c@.subrange(0, c@.len() as int) == c@);
            return true;
        }
        assert(c@.subrange(0, c@.len() as int) == c@);
        i += 1;
    }
    false
}

/// Whether `q` begins with `key` followed by `=`.
pub open spec fn is_arg_of(q: Seq<char>, key: Seq<char>) -> bool {
    q.len() > key.len() && q.subrange(0, key.len() as int) == key && q[key.len() as int] == '='
}

/// The part of `q` after its first `=`.
pub open spec fn after_equals(q: Seq<char>) -> Seq<char> {
    let k = find_from(q, '=', 0, q.len() as int);
    if k < q.len() {
        q.subrange(k + 1, q.len() as int)
    } else {
        Seq::empty()
    }
}

/// The index of the first piece at or after `i` that is an argument `key=...`.
pub open spec fn arg_index(query: Seq<String>, key: Seq<char>, i: int) -> int
    decreases query.len() - i,
{
    if i >= query.len() || i < 0 {
        query.len() as int
    } else if is_arg_of(query[i]@, key) {
        i
    } else {
        arg_index(query, key, i + 1)
    }
}

/// The value of the first argument `key=value` of the query, if any: what
/// follows the piece's first `=`.
pub fn find_query_arg(query: &Vec<String>, key_name: &str) -> (r: Option<String>)
    ensures
        ({
            let i = arg_index(query@, key_name@, 0);
            if i < query@.len() {
                r matches Some(v) && v@ == after_equals(query@[i]@)
            } else {
                r is None
            }
        }),
{
    let kc = chars_of(key_name);
    let kn = kc.len();
    let mut i: usize = 0;
    while i < query.len()
        invariant
            i <= query@.len(),
            kc@ == key_name@,
            kn == kc@.len(),
            arg_index(query@, key_name@, 0) == arg_index(query@, key_name@, i as int),
        decreases query@.len() - i,
    {
        let c = chars_of(query[i].as_str());
        let n = c.len();
        if n > kn && c[kn] == '=' && slice_is(&c, 0, kn, key_name) {
            let k = find_char(&c, '=', 0, n);
            return Some(string_of(&c, k + 1, n));
        }
        i += 1;
    }
    None
}

} // verus!
