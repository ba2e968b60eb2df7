//! The request grammar.
//!
//! Two things are read out of an incoming request:
//! - the path token of the request line: the final non-empty path segment
//!   standing between the last `/` before the first whitespace-then-`HTTP`
//!   marker and the first of `?`, `#`, `/` or whitespace after that slash;
//! - forwarding-header captures: a header line whose name (up to the first
//!   colon, compared without regard to ASCII case) is one of the three
//!   forwarding-header names yields the dotted-quad value standing right
//!   after the colon and any whitespace.
use vstd::prelude::*;

use crate::chars::{digit_at, eq_ignore_case, is_digit, is_ws, lower_at, ws_at};
use vstd::string::StrSliceExecFns;

verus! {

/// The `HTTP` protocol marker: a whitespace character at `i` followed
/// immediately by the four letters `HTTP`.
pub open spec fn http_mark_at(s: Seq<char>, i: int) -> bool {
    &&& 0 <= i
    &&& i + 5 <= s.len()
    &&& is_ws(s[i])
    &&& s[i + 1] == 'H'
    &&& s[i + 2] == 'T'
    &&& s[i + 3] == 'T'
    &&& s[i + 4] == 'P'
}

/// Position of the first protocol marker at or after `from`, if any.
pub open spec fn first_http_mark_from(s: Seq<char>, from: int) -> Option<int>
    decreases s.len() - from,
{
    if from < 0 || from + 5 > s.len() {
        None
    } else if http_mark_at(s, from) {
        Some(from)
    } else {
        first_http_mark_from(s, from + 1)
    }
}

/// Position of the last `/` strictly before `end`, if any.
pub open spec fn last_slash_before(s: Seq<char>, end: int) -> Option<int>
    decreases end,
{
    if end <= 0 || end > s.len() {
        None
    } else if s[end - 1] == '/' {
        Some(end - 1)
    } else {
        last_slash_before(s, end - 1)
    }
}

/// A character that ends a path token.
pub open spec fn is_stop(c: char) -> bool {
    c == '?' || c == '#' || c == '/' || is_ws(c)
}

/// Position of the first token-ending character at or after `from`
/// (`s.len()` if there is none).
pub open spec fn first_stop_from(s: Seq<char>, from: int) -> int
    decreases s.len() - from,
{
    if from < 0 || from >= s.len() {
        s.len() as int
    } else if is_stop(s[from]) {
        from
    } else {
        first_stop_from(s, from + 1)
    }
}

/// The path token of a request line, if one can be extracted: the non-empty
/// run of non-stop characters after the last `/` before the first protocol
/// marker.
pub open spec fn spec_path_token(line: Seq<char>) -> Option<Seq<char>> {
    match first_http_mark_from(line, 0) {
        None => None,
        Some(w) => match last_slash_before(line, w) {
            None => None,
            Some(j) => {
                let k = first_stop_from(line, j + 1);
                if k == j + 1 {
                    None
                } else {
                    Some(line.subrange(j + 1, k))
                }
            },
        },
    }
}

fn find_http_mark(line: &str) -> (r: Option<usize>)
    ensures
        match r {
            Some(w) => first_http_mark_from(line@, 0) == Some(w as int) && w + 5 <= line@.len(),
            None => first_http_mark_from(line@, 0) is None,
        },
{
    let n = line.unicode_len();
    if n < 5 {
        return None;
    }
    let mut i: usize = 0;
    while i <= n - 5
        invariant
            n == line@.len(),
            5 <= n,
            i <= n - 4,
            first_http_mark_from(line@, 0) == first_http_mark_from(line@, i as int),
        decreases n - i,
    {
        if ws_at(line.get_char(i)) && line.get_char(i + 1) == 'H' && line.get_char(i + 2) == 'T'
            && line.get_char(i + 3) == 'T' && line.get_char(i + 4) == 'P' {
            return Some(i);
        }
        i = i + 1;
    }
    None
}

fn find_last_slash(line: &str, end: usize) -> (r: Option<usize>)
    requires
        end <= line@.len(),
    ensures
        match r {
            Some(j) => last_slash_before(line@, end as int) == Some(j as int) && j < end,
            None => last_slash_before(line@, end as int) is None,
        },
{
    let mut e = end;
    while e > 0
        invariant
            end <= line@.len(),
            e <= end,
            last_slash_before(line@, end as int) == last_slash_before(line@, e as int),
        decreases e,
    {
        if line.get_char(e - 1) == '/' {
            return Some(e - 1);
        }
        e = e - 1;
    }
    None
}

fn find_first_stop(line: &str, from: usize) -> (k: usize)
    requires
        from <= line@.len(),
    ensures
        k as int == first_stop_from(line@, from as int),
        from <= k <= line@.len(),
{
    let n = line.unicode_len();
    let mut i = from;
    while i < n
        invariant
            n == line@.len(),
            from <= i <= n,
            first_stop_from(line@, from as int) == first_stop_from(line@, i as int),
        decreases n - i,
    {
        let c = line.get_char(i);
        if c == '?' || c == '#' || c == '/' || ws_at(c) {
            return i;
        }
        i = i + 1;
    }
    n
}

/// Extracts the path token of a request line, exactly as [`spec_path_token`]
/// describes it.
pub fn extract_path_token(line: &str) -> (r: Option<String>)
    ensures
        match r {
            Some(t) => spec_path_token(line@) == Some(t@),
            None => spec_path_token(line@) is None,
        },
{
    let w = match find_http_mark(line) {
        Some(w) => w,
        None => {
            return None;
        },
    };
    let j = match find_last_slash(line, w) {
        Some(j) => j,
        None => {
            return None;
        },
    };
    let k = find_first_stop(line, j + 1);
    if k == j + 1 {
        None
    } else {
        Some(line.substring_char(j + 1, k).to_owned())
    }
}

/// The three forwarding-header rules, in their fixed priority order.
#[derive(Clone, Copy)]
pub enum HeaderRule {
    ForwardedFor,
    RealIp,
    RemoteHost,
}

/// The header name each rule expects.
pub open spec fn rule_name(r: HeaderRule) -> Seq<char> {
    match r {
        HeaderRule::ForwardedFor => "X-Forwarded-For"@,
        HeaderRule::RealIp => "X-Real-IP"@,
        HeaderRule::RemoteHost => "REMOTE-HOST"@,
    }
}

/// Character-wise equality up to ASCII case.
pub open spec fn seq_eq_ci(a: Seq<char>, b: Seq<char>) -> bool {
    a.len() == b.len() && (forall|i: int| 0 <= i < a.len() ==> eq_ignore_case(a[i], b[i]))
}

/// Position of the first `:` at or after `from`, if any.
pub open spec fn first_colon_from(s: Seq<char>, from: int) -> Option<int>
    decreases s.len() - from,
{
    if from < 0 || from >= s.len() {
        None
    } else if s[from] == ':' {
        Some(from)
    } else {
        first_colon_from(s, from + 1)
    }
}

/// Position of the first non-whitespace character at or after `from`
/// (`s.len()` if there is none).
pub open spec fn skip_ws_from(s: Seq<char>, from: int) -> int
    decreases s.len() - from,
{
    if from < 0 || from >= s.len() {
        s.len() as int
    } else if is_ws(s[from]) {
        skip_ws_from(s, from + 1)
    } else {
        from
    }
}

/// Number of consecutive decimal digits starting at `from`.
pub open spec fn digit_run(s: Seq<char>, from: int) -> int
    decreases s.len() - from,
{
    if from < 0 || from >= s.len() || !is_digit(s[from]) {
        0
    } else {
        1 + digit_run(s, from + 1)
    }
}

/// One octet of a dotted quad followed by its dot: one to three digits at `p`
/// and a `.` right after them; the result is the position after the dot.
pub open spec fn octet_then_dot_end(s: Seq<char>, p: int) -> Option<int> {
    let d = digit_run(s, p);
    if 1 <= d && d <= 3 && p + d < s.len() && s[p + d] == '.' {
        Some(p + d + 1)
    } else {
        None
    }
}

/// End position (exclusive) of a dotted-quad value starting at `p`: three
/// octet-dot groups and a final octet of one to three digits (of a longer
/// final digit run only the first three digits are taken).
pub open spec fn quad_end(s: Seq<char>, p: int) -> Option<int> {
    match octet_then_dot_end(s, p) {
        None => None,
        Some(p1) => match octet_then_dot_end(s, p1) {
            None => None,
            Some(p2) => match octet_then_dot_end(s, p2) {
                None => None,
                Some(p3) => {
                    let d = digit_run(s, p3);
                    if d < 1 {
                        None
                    } else if d <= 3 {
                        Some(p3 + d)
                    } else {
                        Some(p3 + 3)
                    }
                },
            },
        },
    }
}

/// What a forwarding-header rule captures on a header line: the line's name
/// (everything before the first colon) must equal the rule's name up to ASCII
/// case, and the value after the colon, once leading whitespace is skipped,
/// must begin with a dotted quad; the capture is that quad.
pub open spec fn spec_rule_capture(line: Seq<char>, r: HeaderRule) -> Option<Seq<char>> {
    match first_colon_from(line, 0) {
        None => None,
        Some(c) => {
            if seq_eq_ci(line.subrange(0, c), rule_name(r)) {
                let p = skip_ws_from(line, c + 1);
                match quad_end(line, p) {
                    None => None,
                    Some(e) => Some(line.subrange(p, e)),
                }
            } else {
                None
            }
        },
    }
}

fn rule_name_str(r: HeaderRule) -> (s: &'static str)
    ensures
        s@ == rule_name(r),
{
    match r {
        HeaderRule::ForwardedFor => "X-Forwarded-For",
        HeaderRule::RealIp => "X-Real-IP",
        HeaderRule::RemoteHost => "REMOTE-HOST",
    }
}

fn find_colon(line: &str) -> (r: Option<usize>)
    ensures
        match r {
            Some(c) => first_colon_from(line@, 0) == Some(c as int) && c < line@.len(),
            None => first_colon_from(line@, 0) is None,
        },
{
    let n = line.unicode_len();
    let mut i: usize = 0;
    while i < n
        invariant
            n == line@.len(),
            i <= n,
            first_colon_from(line@, 0) == first_colon_from(line@, i as int),
        decreases n - i,
    {
        if line.get_char(i) == ':' {
            return Some(i);
        }
        i = i + 1;
    }
    None
}

fn prefix_eq_ci(line: &str, end: usize, name: &str) -> (r: bool)
    requires
        end <= line@.len(),
    ensures
        r == seq_eq_ci(line@.subrange(0, end as int), name@),
{
    let m = name.unicode_len();
    if m != end {
        return false;
    }
    let mut i: usize = 0;
    while i < end
        invariant
            end <= line@.len(),
            m == name@.len(),
            m == end,
            i <= end,
            forall|q: int| 0 <= q < i ==> eq_ignore_case(line@[q], name@[q]),
        decreases end - i,
    {
        if lower_at(line.get_char(i)) != lower_at(name.get_char(i)) {
            assert(!eq_ignore_case(line@.subrange(0, end as int)[i as int], name@[i as int]));
            return false;
        }
        i = i + 1;
    }
    assert forall|q: int| 0 <= q < end implies eq_ignore_case(
        line@.subrange(0, end as int)[q],
        name@[q],
    ) by {
        assert(line@.subrange(0, end as int)[q] == line@[q]);
    }
    true
}

fn skip_ws(line: &str, from: usize) -> (k: usize)
    requires
        from <= line@.len(),
    ensures
        k as int == skip_ws_from(line@, from as int),
        from <= k <= line@.len(),
{
    let n = line.unicode_len();
    let mut i = from;
    while i < n
        invariant
            n == line@.len(),
            from <= i <= n,
            skip_ws_from(line@, from as int) == skip_ws_from(line@, i as int),
        decreases n - i,
    {
        if !ws_at(line.get_char(i)) {
            return i;
        }
        i = i + 1;
    }
    n
}

fn digit_run_len(line: &str, from: usize) -> (d: usize)
    requires
        from <= line@.len(),
    ensures
        d as int == digit_run(line@, from as int),
        from + d <= line@.len(),
{
    let n = line.unicode_len();
    let mut i = from;
    while i < n
        invariant
            n == line@.len(),
            from <= i <= n,
            digit_run(line@, from as int) == i - from + digit_run(line@, i as int),
        decreases n - i,
    {
        if !digit_at(line.get_char(i)) {
            return i - from;
        }
        i = i + 1;
    }
    i - from
}

fn octet_step(line: &str, p: usize) -> (r: Option<usize>)
    requires
        p <= line@.len(),
    ensures
        match r {
            Some(e) => octet_then_dot_end(line@, p as int) == Some(e as int) && p < e
                <= line@.len(),
            None => octet_then_dot_end(line@, p as int) is None,
        },
{
    let n = line.unicode_len();
    let d = digit_run_len(line, p);
    if d < 1 || d > 3 {
        return None;
    }
    if p + d == n {
        return None;
    }
    if line.get_char(p + d) != '.' {
        return None;
    }
    Some(p + d + 1)
}

fn parse_quad_end(line: &str, p: usize) -> (r: Option<usize>)
    requires
        p <= line@.len(),
    ensures
        match r {
            Some(e) => quad_end(line@, p as int) == Some(e as int) && p < e <= line@.len(),
            None => quad_end(line@, p as int) is None,
        },
{
    let p1 = match octet_step(line, p) {
        Some(x) => x,
        None => {
            return None;
        },
    };
    let p2 = match octet_step(line, p1) {
        Some(x) => x,
        None => {
            return None;
        },
    };
    let p3 = match octet_step(line, p2) {
        Some(x) => x,
        None => {
            return None;
        },
    };
    let n = line.unicode_len();
    let d = digit_run_len(line, p3);
    if d < 1 {
        None
    } else if d <= 3 {
        Some(p3 + d)
    } else {
        Some(p3 + 3)
    }
}

/// Applies one forwarding-header rule to one header line, exactly as
/// [`spec_rule_capture`] describes it.
pub fn rule_capture(line: &str, r: HeaderRule) -> (cap: Option<String>)
    ensures
        match cap {
            Some(v) => spec_rule_capture(line@, r) == Some(v@),
            None => spec_rule_capture(line@, r) is None,
        },
{
    let n = line.unicode_len();
    let c = match find_colon(line) {
        Some(c) => c,
        None => {
            return None;
        },
    };
    if !prefix_eq_ci(line, c, rule_name_str(r)) {
        return None;
    }
    let p = skip_ws(line, c + 1);
    let e = match parse_quad_end(line, p) {
        Some(e) => e,
        None => {
            return None;
        },
    };
    Some(line.substring_char(p, e).to_owned())
}

} // verus!
