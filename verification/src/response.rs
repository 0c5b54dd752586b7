//! Turning a parse result into the bytes sent back to the client.
//!
//! The caller reads the one file that `wanted_file` names, if any, and
//! hands its contents to `resolve`.

use vstd::prelude::*;
use vstd::utf8::encode_utf8;
use crate::config::ServerConfig;
use crate::method::HttpMethod;
use crate::path::within;
use crate::request::{
    outcome_of, parse_outcome, request_method, request_tokens, HttpRequest, RequestView,
};
use crate::status::HttpStatusCode;

verus! {

/// The character of one decimal digit.
pub open spec fn digit(d: nat) -> char {
    if d == 0 {
        '0'
    } else if d == 1 {
        '1'
    } else if d == 2 {
        '2'
    } else if d == 3 {
        '3'
    } else if d == 4 {
        '4'
    } else if d == 5 {
        '5'
    } else if d == 6 {
        '6'
    } else if d == 7 {
        '7'
    } else if d == 8 {
        '8'
    } else {
        '9'
    }
}

/// The decimal numeral of `n`, without leading zeros.
pub open spec fn decimal(n: nat) -> Seq<char>
    decreases n,
{
    if n < 10 {
        seq![digit(n)]
    } else {
        decimal(n / 10).push(digit(n % 10))
    }
}

/// The head of every response: protocol version, numeric code and reason
/// phrase separated by single spaces, then an empty line.
pub open spec fn status_line(proto_version: Seq<char>, status: HttpStatusCode) -> Seq<char> {
    proto_version + seq![' '] + decimal(status.code()) + seq![' '] + status.reason()
        + seq!['\r', '\n', '\r', '\n']
}

/// A response on the wire: the encoded status line followed by the body.
pub open spec fn response(proto_version: Seq<char>, status: HttpStatusCode, body: Seq<u8>) -> Seq<
    u8,
> {
    encode_utf8(status_line(proto_version, status)) + body
}

/// The file whose contents a response needs: the requested file for an
/// accepted `GET`, the not-found page for a 404, and none otherwise.
pub open spec fn wanted(parsed: Result<RequestView, HttpStatusCode>, notfound_page: Seq<char>) -> Option<
    Seq<char>,
> {
    match parsed {
        Ok(request) => if request.method == HttpMethod::GET {
            Some(request.req_uri)
        } else {
            None
        },
        Err(HttpStatusCode::NotFound) => Some(notfound_page),
        Err(_) => None,
    }
}

/// The status and body that answer a parse result. `contents` holds what
/// was read from the wanted file, or `None` if it could not be read.
///
/// An accepted `GET` is answered with the file, or with a bare 500 if the
/// file could not be read. A 404 carries the not-found page, or becomes a
/// bare 500 if the page could not be read. 400, 401 and 403 carry a short
/// fixed text. `Continue` is answered as a bare 500. Every other case is
/// the bare status line.
pub open spec fn answer_parts(
    parsed: Result<RequestView, HttpStatusCode>,
    contents: Option<Seq<u8>>,
) -> (HttpStatusCode, Seq<u8>) {
    match parsed {
        Ok(request) => match contents {
            Some(body) if request.method == HttpMethod::GET => (HttpStatusCode::HttpOk, body),
            _ => (HttpStatusCode::InternalServerError, Seq::empty()),
        },
        Err(HttpStatusCode::NotFound) => match contents {
            Some(page) => (HttpStatusCode::NotFound, page),
            None => (HttpStatusCode::InternalServerError, Seq::empty()),
        },
        Err(HttpStatusCode::BadRequest) => (
            HttpStatusCode::BadRequest,
            encode_utf8("400 - BAD REQUEST"@),
        ),
        Err(HttpStatusCode::Unauthorized) => (
            HttpStatusCode::Unauthorized,
            encode_utf8("401 - UNAUTHORIZED"@),
        ),
        Err(HttpStatusCode::Forbidden) => (
            HttpStatusCode::Forbidden,
            encode_utf8("403 - FORBIDDEN"@),
        ),
        Err(HttpStatusCode::NotImplemented) => (HttpStatusCode::NotImplemented, Seq::empty()),
        Err(HttpStatusCode::InternalServerError) => (
            HttpStatusCode::InternalServerError,
            Seq::empty(),
        ),
        Err(HttpStatusCode::Continue) => (HttpStatusCode::InternalServerError, Seq::empty()),
        Err(HttpStatusCode::HttpOk) => (HttpStatusCode::HttpOk, Seq::empty()),
    }
}

/// The bytes that answer a parse result.
pub open spec fn answer(
    parsed: Result<RequestView, HttpStatusCode>,
    proto_version: Seq<char>,
    contents: Option<Seq<u8>>,
) -> Seq<u8> {
    let (status, body) = answer_parts(parsed, contents);
    response(proto_version, status, body)
}

/// Every answer is a status line followed by a body.
pub proof fn lemma_answer_begins_with_status_line(
    parsed: Result<RequestView, HttpStatusCode>,
    proto_version: Seq<char>,
    contents: Option<Seq<u8>>,
)
    ensures
        encode_utf8(status_line(proto_version, answer_parts(parsed, contents).0)).is_prefix_of(
            answer(parsed, proto_version, contents),
        ),
        answer(parsed, proto_version, contents).skip(
            encode_utf8(status_line(proto_version, answer_parts(parsed, contents).0)).len() as int,
        ) == answer_parts(parsed, contents).1,
{
    let (status, body) = answer_parts(parsed, contents);
    let head = encode_utf8(status_line(proto_version, status));
    assert((head + body).subrange(0, head.len() as int) == head);
    assert((head + body).skip(head.len() as int) == body);
}

/// An accepted `GET` whose file was read is answered with status 200 and
/// exactly the bytes of the file as body.
pub proof fn lemma_served_body_is_file(
    request: RequestView,
    proto_version: Seq<char>,
    file: Seq<u8>,
)
    requires
        request.method == HttpMethod::GET,
    ensures
        answer(Ok(request), proto_version, Some(file)) == response(
            proto_version,
            HttpStatusCode::HttpOk,
            file,
        ),
        answer(Ok(request), proto_version, Some(file)).skip(
            encode_utf8(status_line(proto_version, HttpStatusCode::HttpOk)).len() as int,
        ) == file,
{
    lemma_answer_begins_with_status_line(Ok(request), proto_version, Some(file));
}

/// Status 200 is given only to an accepted `GET` whose file was read, or
/// in answer to a failure that itself carries status 200.
pub proof fn lemma_ok_only_for_served_file(
    parsed: Result<RequestView, HttpStatusCode>,
    contents: Option<Seq<u8>>,
)
    requires
        answer_parts(parsed, contents).0 == HttpStatusCode::HttpOk,
    ensures
        parsed matches Ok(request) ==> request.method == HttpMethod::GET && contents == Some(
            answer_parts(parsed, contents).1,
        ),
        parsed matches Err(status) ==> status == HttpStatusCode::HttpOk,
{
}

/// A `GET` whose target resolves outside the document root is answered
/// with status 400 and the fixed text, never with a file.
pub proof fn lemma_escape_is_never_served(
    raw: Seq<char>,
    proto_version: Seq<char>,
    target: Seq<char>,
    root: Seq<char>,
    contents: Option<Seq<u8>>,
)
    requires
        request_tokens(raw).len() >= 3,
        request_method(raw) == Some(HttpMethod::GET),
        !within(target, root),
    ensures
        answer(parse_outcome(raw, proto_version, Some(target), root), proto_version, contents)
            == response(
            proto_version,
            HttpStatusCode::BadRequest,
            encode_utf8("400 - BAD REQUEST"@),
        ),
{
}

/// A `GET` whose target does not resolve is answered with status 404 and
/// the contents of the not-found page.
pub proof fn lemma_missing_file_gets_notfound_page(
    raw: Seq<char>,
    proto_version: Seq<char>,
    root: Seq<char>,
    notfound_page: Seq<char>,
    page: Seq<u8>,
)
    requires
        request_tokens(raw).len() >= 3,
        request_method(raw) == Some(HttpMethod::GET),
    ensures
        wanted(parse_outcome(raw, proto_version, None, root), notfound_page) == Some(
            notfound_page,
        ),
        answer(parse_outcome(raw, proto_version, None, root), proto_version, Some(page))
            == response(proto_version, HttpStatusCode::NotFound, page),
{
}

/// The text of one decimal digit.
fn digit_text(d: u16) -> (text: &'static str)
    requires
        d < 10,
    ensures
        text@ == seq![digit(d as nat)],
{
    proof {
        reveal_strlit("0");
        reveal_strlit("1");
        reveal_strlit("2");
        reveal_strlit("3");
        reveal_strlit("4");
        reveal_strlit("5");
        reveal_strlit("6");
        reveal_strlit("7");
        reveal_strlit("8");
        reveal_strlit("9");
    }
    let text = if d == 0 {
        "0"
    } else if d == 1 {
        "1"
    } else if d == 2 {
        "2"
    } else if d == 3 {
        "3"
    } else if d == 4 {
        "4"
    } else if d == 5 {
        "5"
    } else if d == 6 {
        "6"
    } else if d == 7 {
        "7"
    } else if d == 8 {
        "8"
    } else {
        "9"
    };
    assert(text@ =~= seq![digit(d as nat)]);
    text
}

/// Writes `n` in decimal.
pub fn decimal_text(n: u16) -> (text: String)
    ensures
        text@ == decimal(n as nat),
    decreases n,
{
    if n < 10 {
        String::from_str(digit_text(n))
    } else {
        let mut text = decimal_text(n / 10);
        text.append(digit_text(n % 10));
        text
    }
}

/// Formats the head of a response.
pub fn status_line_text(proto_version: &str, status: HttpStatusCode) -> (line: String)
    ensures
        line@ == status_line(proto_version@, status),
{
    proof {
        reveal_strlit(" ");
        reveal_strlit("\r\n\r\n");
        assert(" "@ =~= seq![' ']);
        assert("\r\n\r\n"@ =~= seq!['\r', '\n', '\r', '\n']);
    }
    let (code, reason) = status.value();
    let mut line = String::from_str(proto_version);
    line.append(" ");
    line.append(decimal_text(code).as_str());
    line.append(" ");
    line.append(reason);
    line.append("\r\n\r\n");
    line
}

/// Appends `more` to `out`.
fn push_all(out: &mut Vec<u8>, more: &[u8])
    ensures
        final(out)@ == old(out)@ + more@,
{
    let mut i: usize = 0;
    while i < more.len()
        invariant
            i <= more.len(),
            out@ == old(out)@ + more@.take(i as int),
        decreases more.len() - i,
    {
        out.push(more[i]);
        i += 1;
    }
    assert(more@.take(more.len() as int) == more@);
}

/// The path of the file that `resolve` needs read for this parse result,
/// if it needs one. For every other result no file is to be touched.
pub fn wanted_file<'b>(
    result: &'b Result<Box<HttpRequest<'_>>, HttpStatusCode>,
    config: &'b ServerConfig,
) -> (path: Option<&'b str>)
    ensures
        path.deep_view() == wanted(outcome_of(*result), config.notfound_page@),
{
    match result {
        Ok(request) => match request.method {
            HttpMethod::GET => Some(request.req_uri.as_str()),
            _ => None,
        },
        Err(HttpStatusCode::NotFound) => Some(config.notfound_page.as_str()),
        Err(_) => None,
    }
}

/// Formats the response to a parse result. `contents` is what was read
/// from the file that `wanted_file` named, or `None` if no file was named
/// or it could not be read.
pub fn resolve(
    result: &Result<Box<HttpRequest<'_>>, HttpStatusCode>,
    config: &ServerConfig,
    contents: Option<&[u8]>,
) -> (bytes: Vec<u8>)
    ensures
        bytes@ == answer(outcome_of(*result), config.proto_version@, contents.deep_view()),
{
    let mut status = HttpStatusCode::InternalServerError;
    let mut body: Option<&[u8]> = None;
    match result {
        Ok(request) => match (request.method, contents) {
            (HttpMethod::GET, Some(file)) => {
                status = HttpStatusCode::HttpOk;
                body = Some(file);
            },
            _ => {},
        },
        Err(HttpStatusCode::NotFound) => match contents {
            Some(page) => {
                status = HttpStatusCode::NotFound;
                body = Some(page);
            },
            None => {},
        },
        Err(HttpStatusCode::BadRequest) => {
            status = HttpStatusCode::BadRequest;
            body = Some("400 - BAD REQUEST".as_bytes());
        },
        Err(HttpStatusCode::Unauthorized) => {
            status = HttpStatusCode::Unauthorized;
            body = Some("401 - UNAUTHORIZED".as_bytes());
        },
        Err(HttpStatusCode::Forbidden) => {
            status = HttpStatusCode::Forbidden;
            body = Some("403 - FORBIDDEN".as_bytes());
        },
        Err(HttpStatusCode::NotImplemented) => {
            status = HttpStatusCode::NotImplemented;
        },
        Err(HttpStatusCode::InternalServerError) => {},
        Err(HttpStatusCode::Continue) => {},
        Err(HttpStatusCode::HttpOk) => {
            status = HttpStatusCode::HttpOk;
        },
    }
    let line = status_line_text(config.proto_version.as_str(), status);
    let mut bytes = line.as_str().as_bytes_vec();
    match body {
        Some(more) => push_all(&mut bytes, more),
        None => {
            assert(bytes@ + Seq::<u8>::empty() == bytes@);
        },
    }
    bytes
}

} // verus!
