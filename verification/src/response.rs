//! The response writer: the status line, the `Content-Length` of the body,
//! one `Set-Cookie` header for each cookie, the empty line and the body.

use crate::text::{decimal, decimal_text};
use vstd::prelude::*;
use vstd::string::*;
use vstd::utf8::*;

verus! {

/// The characters of each text of a list.
pub open spec fn texts(lines: Seq<String>) -> Seq<Seq<char>> {
    lines.map_values(|line: String| line@)
}

/// One `Set-Cookie` header line for each cookie, in their order.
pub open spec fn cookie_headers(cookies: Seq<Seq<char>>) -> Seq<char>
    decreases cookies.len(),
{
    if cookies.len() == 0 {
        Seq::empty()
    } else {
        cookie_headers(cookies.drop_last()) + "Set-Cookie: "@ + cookies.last() + "\r\n"@
    }
}

/// The head of a response up to the cookie headers: the status line and
/// the length of the body in bytes.
pub open spec fn response_head(status_line: Seq<char>, body: Seq<char>) -> Seq<char> {
    status_line + "\r\nContent-Length: "@ + decimal(encode_utf8(body).len()) + "\r\n"@
}

/// A response as it goes over the wire.
pub open spec fn response_text(
    status_line: Seq<char>,
    body: Seq<char>,
    cookies: Seq<Seq<char>>,
) -> Seq<char> {
    response_head(status_line, body) + cookie_headers(cookies) + "\r\n"@ + body
}

/// Writes a response out.
pub fn write_response(status_line: &str, body: &str, cookies: &Vec<String>) -> (response: String)
    ensures
        response@ == response_text(status_line@, body@, texts(cookies@)),
{
    let mut response = status_line.to_owned();
    response.append("\r\nContent-Length: ");
    let length = decimal_text(body.as_bytes().len());
    response.append(length.as_str());
    response.append("\r\n");
    let mut at: usize = 0;
    while at < cookies.len()
        invariant
            at <= cookies.len(),
            response@ == response_head(status_line@, body@) + cookie_headers(
                texts(cookies@).take(at as int),
            ),
        decreases cookies.len() - at,
    {
        let ghost before = response@;
        response.append("Set-Cookie: ");
        response.append(cookies[at].as_str());
        response.append("\r\n");
        proof {
            let seen = texts(cookies@).take(at + 1);
            assert(seen.drop_last() =~= texts(cookies@).take(at as int));
            assert(seen.last() == cookies@[at as int]@);
            assert(response@ =~= response_head(status_line@, body@) + cookie_headers(seen));
        }
        at += 1;
    }
    assert(texts(cookies@).take(at as int) =~= texts(cookies@));
    response.append("\r\n");
    response.append(body);
    response
}

} // verus!
