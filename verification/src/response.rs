//! The one response shape the service ever writes: an `HTTP/1.1 200 OK`
//! status line, a `Content-Length` naming the byte length of the body (not
//! its character length), a `Content-Type`, a blank line, the body verbatim,
//! and a final CRLF.
use vstd::prelude::*;

use vstd::string::StringExecFns;
use vstd::utf8::encode_utf8;

verus! {

/// The decimal digit character of a value below ten.
pub open spec fn digit_char(d: int) -> char {
    if d == 0 {
        '0'
    } else if d == 1 {
        '1'
    } else if d == 2 {
        '2'
    } else if d == 3 {
        '3'
    } else if d == 4 {
        '4'
    } else if d == 5 {
        '5'
    } else if d == 6 {
        '6'
    } else if d == 7 {
        '7'
    } else if d == 8 {
        '8'
    } else {
        '9'
    }
}

/// The decimal numeral of a number, most significant digit first, without
/// leading zeros (zero reads `0`).
pub open spec fn spec_decimal(n: int) -> Seq<char>
    decreases n,
{
    if n < 10 {
        seq![digit_char(n)]
    } else {
        spec_decimal(n / 10).push(digit_char(n % 10))
    }
}

/// The number a sequence of digit characters denotes.
pub open spec fn decimal_value(s: Seq<char>) -> int
    decreases s.len(),
{
    if s.len() == 0 {
        0
    } else {
        decimal_value(s.drop_last()) * 10 + (s.last() as int - '0' as int)
    }
}

/// The decimal numeral of a number denotes exactly that number.
pub proof fn lemma_decimal_value_roundtrip(n: int)
    requires
        n >= 0,
    ensures
        decimal_value(spec_decimal(n)) == n,
    decreases n,
{
    if n < 10 {
        assert(seq![digit_char(n)].drop_last() =~= Seq::<char>::empty());
        assert(seq![digit_char(n)].last() == digit_char(n));
        assert(decimal_value(Seq::<char>::empty()) == 0);
        assert(digit_char(n) as int - '0' as int == n);
    } else {
        lemma_decimal_value_roundtrip(n / 10);
        let s = spec_decimal(n / 10).push(digit_char(n % 10));
        assert(s.drop_last() =~= spec_decimal(n / 10));
        assert(s.last() == digit_char(n % 10));
        assert(digit_char(n % 10) as int - '0' as int == n % 10);
    }
}

/// The two content types the service emits.
#[derive(Clone, Copy)]
pub enum ContentType {
    Json,
    Html,
}

/// The `Content-Type` value for each routing mode.
pub open spec fn content_type_chars(t: ContentType) -> Seq<char> {
    match t {
        ContentType::Json => "application/json; charset=utf-8"@,
        ContentType::Html => "text/html; charset=utf-8"@,
    }
}

/// Number of bytes in the UTF-8 encoding of the text.
pub open spec fn byte_len(s: Seq<char>) -> nat {
    encode_utf8(s).len()
}

/// The full response for a body and a content type.
pub open spec fn spec_response(t: ContentType, body: Seq<char>) -> Seq<char> {
    "HTTP/1.1 200 OK\r\nContent-Length: "@ + spec_decimal(byte_len(body) as int)
        + "\r\nContent-Type: "@ + content_type_chars(t) + "\r\n\r\n"@ + body + "\r\n"@
}

fn digit_str(d: usize) -> (s: &'static str)
    requires
        d < 10,
    ensures
        s@ == seq![digit_char(d as int)],
{
    let s: &'static str = if d == 0 {
        "0"
    } else if d == 1 {
        "1"
    } else if d == 2 {
        "2"
    } else if d == 3 {
        "3"
    } else if d == 4 {
        "4"
    } else if d == 5 {
        "5"
    } else if d == 6 {
        "6"
    } else if d == 7 {
        "7"
    } else if d == 8 {
        "8"
    } else {
        "9"
    };
    proof {
        reveal_strlit("0");
        reveal_strlit("1");
        reveal_strlit("2");
        reveal_strlit("3");
        reveal_strlit("4");
        reveal_strlit("5");
        reveal_strlit("6");
        reveal_strlit("7");
        reveal_strlit("8");
        reveal_strlit("9");
        assert(s@ =~= seq![digit_char(d as int)]);
    }
    s
}

/// Renders a number as its decimal numeral.
pub fn usize_to_string(n: usize) -> (s: String)
    ensures
        s@ == spec_decimal(n as int),
    decreases n,
{
    if n < 10 {
        digit_str(n).to_owned()
    } else {
        let mut s = usize_to_string(n / 10);
        s.append(digit_str(n % 10));
        proof {
            assert(spec_decimal((n / 10) as int).push(digit_char((n % 10) as int))
                =~= spec_decimal((n / 10) as int) + seq![digit_char((n % 10) as int)]);
        }
        s
    }
}

/// The `Content-Type` value as written on the wire.
pub fn content_type_str(t: ContentType) -> (s: &'static str)
    ensures
        s@ == content_type_chars(t),
{
    match t {
        ContentType::Json => "application/json; charset=utf-8",
        ContentType::Html => "text/html; charset=utf-8",
    }
}

/// Formats the response for a body, exactly as [`spec_response`] describes
/// it; the `Content-Length` field counts the body's bytes, which for a body
/// with multi-byte characters is more than its characters.
pub fn build_response(t: ContentType, body: &str) -> (r: String)
    requires
        byte_len(body@) <= usize::MAX,
    ensures
        r@ == spec_response(t, body@),
{
    let mut r = String::from_str("HTTP/1.1 200 OK\r\nContent-Length: ");
    let len_str = usize_to_string(body.len());
    r.append(len_str.as_str());
    r.append("\r\nContent-Type: ");
    r.append(content_type_str(t));
    r.append("\r\n\r\n");
    r.append(body);
    r.append("\r\n");
    proof {
        assert(r@ =~= spec_response(t, body@));
    }
    r
}

/// `Content-Length` is exact: the numeral standing right after the
/// `Content-Length: ` prefix of the response denotes the byte length of the
/// body.
pub proof fn lemma_content_length_exact(t: ContentType, body: Seq<char>)
    ensures
        ({
            let r = spec_response(t, body);
            let p = "HTTP/1.1 200 OK\r\nContent-Length: "@.len() as int;
            let d = spec_decimal(byte_len(body) as int).len() as int;
            decimal_value(r.subrange(p, p + d)) == byte_len(body)
        }),
{
    let r = spec_response(t, body);
    let p = "HTTP/1.1 200 OK\r\nContent-Length: "@.len() as int;
    let d = spec_decimal(byte_len(body) as int).len() as int;
    lemma_decimal_value_roundtrip(byte_len(body) as int);
    assert(r.subrange(p, p + d) =~= spec_decimal(byte_len(body) as int));
}

/// The body stands verbatim in the response, right before the closing CRLF.
pub proof fn lemma_body_verbatim(t: ContentType, body: Seq<char>)
    ensures
        ({
            let r = spec_response(t, body);
            let b = r.len() - 2 - body.len();
            r.subrange(b, b + body.len()) == body
        }),
{
    let r = spec_response(t, body);
    let b = r.len() - 2 - body.len();
    reveal_strlit("\r\n");
    assert(r.subrange(b, b + body.len()) =~= body);
}

} // verus!
