//! The parsed request and the request-line parser.

use std::collections::HashMap;
use vstd::prelude::*;
use crate::config::ServerConfig;
use crate::method::HttpMethod;
use crate::path::{is_within, within};
use crate::status::HttpStatusCode;
use crate::text::{fold_line_ends, normalize_line_ends, same_text, split, split_on};

verus! {

/// The tokens of a raw request: CR LF pairs count as spaces, and the text
/// is split at every single space.
pub open spec fn request_tokens(raw: Seq<char>) -> Seq<Seq<char>> {
    split(fold_line_ends(raw), ' ')
}

/// The method that the leading token of a raw request selects, if any.
pub open spec fn request_method(raw: Seq<char>) -> Option<HttpMethod> {
    HttpMethod::recognize(request_tokens(raw)[0])
}

/// The path, relative to the document root, that a request target names.
/// The target `/` names the default index; any other target loses exactly
/// one leading slash.
pub open spec fn lookup_target(target: Seq<char>, default_index: Seq<char>) -> Seq<char> {
    if target == seq!['/'] {
        default_index
    } else if target.len() > 1 && target[0] == '/' {
        target.skip(1)
    } else {
        target
    }
}

/// What is known of a request before any path is resolved: the relative
/// path to look up, or the status that rejects the request.
pub open spec fn lookup_outcome(raw: Seq<char>, default_index: Seq<char>) -> Result<
    Seq<char>,
    HttpStatusCode,
> {
    let tokens = request_tokens(raw);
    if tokens.len() < 3 {
        Err(HttpStatusCode::BadRequest)
    } else {
        match request_method(raw) {
            None => Err(HttpStatusCode::BadRequest),
            Some(HttpMethod::GET) => Ok(lookup_target(tokens[1], default_index)),
            Some(_) => Err(HttpStatusCode::NotImplemented),
        }
    }
}

/// The contents of a parsed request.
pub ghost struct RequestView {
    pub method: HttpMethod,
    pub req_uri: Seq<char>,
    pub proto_ver: Seq<char>,
}

/// The result of parsing `raw`, given the outcomes of resolving the looked-up
/// path (`target`, `None` if it could not be resolved) and the document
/// root (`root`). The first failure that applies, in this order, decides:
/// too few tokens, an unknown method, a method other than `GET`, a target
/// that does not resolve, a target outside the root, a wrong protocol
/// version.
pub open spec fn parse_outcome(
    raw: Seq<char>,
    proto_version: Seq<char>,
    target: Option<Seq<char>>,
    root: Seq<char>,
) -> Result<RequestView, HttpStatusCode> {
    let tokens = request_tokens(raw);
    if tokens.len() < 3 {
        Err(HttpStatusCode::BadRequest)
    } else {
        match request_method(raw) {
            None => Err(HttpStatusCode::BadRequest),
            Some(HttpMethod::GET) => match target {
                None => Err(HttpStatusCode::NotFound),
                Some(path) => if !within(path, root) {
                    Err(HttpStatusCode::BadRequest)
                } else if tokens[2] != proto_version {
                    Err(HttpStatusCode::BadRequest)
                } else {
                    Ok(RequestView { method: HttpMethod::GET, req_uri: path, proto_ver: tokens[2] })
                },
            },
            Some(_) => Err(HttpStatusCode::NotImplemented),
        }
    }
}

/// A request that the first stage rejects gets the same status from the
/// full parse, whatever the paths resolve to.
pub proof fn lemma_lookup_rejection_stands(
    raw: Seq<char>,
    default_index: Seq<char>,
    proto_version: Seq<char>,
    target: Option<Seq<char>>,
    root: Seq<char>,
)
    requires
        lookup_outcome(raw, default_index) is Err,
    ensures
        parse_outcome(raw, proto_version, target, root) == Err::<RequestView, HttpStatusCode>(
            lookup_outcome(raw, default_index)->Err_0,
        ),
{
}

/// A request with fewer than three tokens is a bad request.
pub proof fn lemma_short_request_is_bad(
    raw: Seq<char>,
    proto_version: Seq<char>,
    target: Option<Seq<char>>,
    root: Seq<char>,
)
    requires
        request_tokens(raw).len() < 3,
    ensures
        parse_outcome(raw, proto_version, target, root) == Err::<RequestView, HttpStatusCode>(
            HttpStatusCode::BadRequest,
        ),
{
}

/// A request whose leading token selects no method is a bad request.
pub proof fn lemma_unknown_method_is_bad(
    raw: Seq<char>,
    proto_version: Seq<char>,
    target: Option<Seq<char>>,
    root: Seq<char>,
)
    requires
        request_method(raw) is None,
    ensures
        parse_outcome(raw, proto_version, target, root) == Err::<RequestView, HttpStatusCode>(
            HttpStatusCode::BadRequest,
        ),
{
}

/// A request of at least three tokens whose method is recognized and is
/// not `GET` is not implemented.
pub proof fn lemma_other_method_is_unimplemented(
    raw: Seq<char>,
    proto_version: Seq<char>,
    target: Option<Seq<char>>,
    root: Seq<char>,
)
    requires
        request_tokens(raw).len() >= 3,
        request_method(raw) is Some,
        request_method(raw) != Some(HttpMethod::GET),
    ensures
        parse_outcome(raw, proto_version, target, root) == Err::<RequestView, HttpStatusCode>(
            HttpStatusCode::NotImplemented,
        ),
{
}

/// A `GET` whose target does not resolve is not found.
pub proof fn lemma_unresolved_target_is_not_found(
    raw: Seq<char>,
    proto_version: Seq<char>,
    root: Seq<char>,
)
    requires
        request_tokens(raw).len() >= 3,
        request_method(raw) == Some(HttpMethod::GET),
    ensures
        parse_outcome(raw, proto_version, None, root) == Err::<RequestView, HttpStatusCode>(
            HttpStatusCode::NotFound,
        ),
{
}

/// A `GET` whose target resolves outside the document root is a bad
/// request, whatever file the target resolves to.
pub proof fn lemma_escaping_target_is_bad(
    raw: Seq<char>,
    proto_version: Seq<char>,
    target: Seq<char>,
    root: Seq<char>,
)
    requires
        request_tokens(raw).len() >= 3,
        request_method(raw) == Some(HttpMethod::GET),
        !within(target, root),
    ensures
        parse_outcome(raw, proto_version, Some(target), root) == Err::<
            RequestView,
            HttpStatusCode,
        >(HttpStatusCode::BadRequest),
{
}

/// A `GET` that names another protocol version than the expected one is
/// a bad request once its target resolves.
pub proof fn lemma_wrong_version_is_bad(
    raw: Seq<char>,
    proto_version: Seq<char>,
    target: Seq<char>,
    root: Seq<char>,
)
    requires
        request_tokens(raw).len() >= 3,
        request_method(raw) == Some(HttpMethod::GET),
        request_tokens(raw)[2] != proto_version,
    ensures
        parse_outcome(raw, proto_version, Some(target), root) == Err::<
            RequestView,
            HttpStatusCode,
        >(HttpStatusCode::BadRequest),
{
}

/// Every accepted request is a `GET` for the resolved target, which lies
/// inside the document root, under the expected protocol version.
pub proof fn lemma_accepted_request_is_contained(
    raw: Seq<char>,
    proto_version: Seq<char>,
    target: Option<Seq<char>>,
    root: Seq<char>,
)
    requires
        parse_outcome(raw, proto_version, target, root) is Ok,
    ensures
        ({
            let parsed = parse_outcome(raw, proto_version, target, root)->Ok_0;
            &&& parsed.method == HttpMethod::GET
            &&& target == Some(parsed.req_uri)
            &&& within(parsed.req_uri, root)
            &&& parsed.proto_ver == proto_version
            &&& parsed.proto_ver == request_tokens(raw)[2]
        }),
{
}

/// Tokens beyond the third do not change the result.
pub proof fn lemma_trailing_tokens_are_ignored(
    first: Seq<char>,
    second: Seq<char>,
    proto_version: Seq<char>,
    target: Option<Seq<char>>,
    root: Seq<char>,
)
    requires
        request_tokens(first).len() >= 3,
        request_tokens(second).len() >= 3,
        request_tokens(first).take(3) == request_tokens(second).take(3),
    ensures
        parse_outcome(first, proto_version, target, root) == parse_outcome(
            second,
            proto_version,
            target,
            root,
        ),
{
    let a = request_tokens(first);
    let b = request_tokens(second);
    assert(a[0] == a.take(3)[0] && b[0] == b.take(3)[0]);
    assert(a[2] == a.take(3)[2] && b[2] == b.take(3)[2]);
}

/// Parsing is repeatable: two results for the same request, expected
/// version and resolved paths are the same request or the same status.
pub proof fn lemma_parse_is_repeatable<'a>(
    first: Result<Box<HttpRequest<'a>>, HttpStatusCode>,
    second: Result<Box<HttpRequest<'a>>, HttpStatusCode>,
    raw: Seq<char>,
    proto_version: Seq<char>,
    target: Option<Seq<char>>,
    root: Seq<char>,
)
    requires
        outcome_of(first) == parse_outcome(raw, proto_version, target, root),
        outcome_of(second) == parse_outcome(raw, proto_version, target, root),
    ensures
        outcome_of(first) == outcome_of(second),
        first is Ok <==> second is Ok,
        first matches Ok(a) ==> a@ == second->Ok_0@,
        first matches Err(status) ==> status == second->Err_0,
{
}

/// Splits a raw request into its tokens.
pub fn tokenize(request: &str) -> (tokens: Vec<String>)
    ensures
        tokens.deep_view() == request_tokens(request@),
{
    let normalized = normalize_line_ends(request);
    let pieces = split_on(normalized.as_str(), ' ');
    let mut tokens: Vec<String> = Vec::new();
    let mut i: usize = 0;
    while i < pieces.len()
        invariant
            i <= pieces.len(),
            tokens.deep_view() == pieces.deep_view().take(i as int),
        decreases pieces.len() - i,
    {
        let ghost before = tokens.deep_view();
        let token = String::from_str(pieces[i]);
        tokens.push(token);
        assert(tokens.deep_view() == before.push(pieces[i as int]@));
        i += 1;
    }
    assert(pieces.deep_view().take(pieces.len() as int) == pieces.deep_view());
    tokens
}

/// The path, relative to the document root, that the target names.
pub fn target_path(target: &str, default_index: &str) -> (path: String)
    ensures
        path@ == lookup_target(target@, default_index@),
{
    proof {
        reveal_strlit("/");
    }
    let n = target.unicode_len();
    if same_text(target, "/") {
        assert(target@ =~= seq!['/']);
        String::from_str(default_index)
    } else if n > 1 && target.get_char(0) == '/' {
        assert(target@.subrange(1, n as int) == target@.skip(1));
        String::from_str(target.substring_char(1, n))
    } else {
        assert(target@ != seq!['/']) by {
            if target@ == seq!['/'] {
                assert(target@ =~= "/"@);
            }
        }
        String::from_str(target)
    }
}

/// A request that passed parsing. `req_uri` is the resolved path of the
/// requested file, `proto_ver` the protocol version the request named.
/// Header lines are accepted but never stored, so `req_headers` is `None`
/// on every request the parser builds.
#[derive(Debug)]
pub struct HttpRequest<'a> {
    pub method: HttpMethod,
    pub req_uri: String,
    pub proto_ver: String,
    pub req_headers: Option<Box<HashMap<&'a str, &'a str>>>,
}

impl<'a> View for HttpRequest<'a> {
    type V = RequestView;

    open spec fn view(&self) -> RequestView {
        RequestView { method: self.method, req_uri: self.req_uri@, proto_ver: self.proto_ver@ }
    }
}

/// A parse result with the request replaced by its contents.
pub open spec fn outcome_of<'a>(result: Result<Box<HttpRequest<'a>>, HttpStatusCode>) -> Result<
    RequestView,
    HttpStatusCode,
> {
    match result {
        Ok(request) => Ok(request@),
        Err(status) => Err(status),
    }
}

impl<'a> HttpRequest<'a> {
    pub fn new(
        method: HttpMethod,
        req_uri: &str,
        proto_ver: &str,
        req_headers: Option<Box<HashMap<&'a str, &'a str>>>,
    ) -> (request: HttpRequest<'a>)
        ensures
            request.method == method,
            request.req_uri@ == req_uri@,
            request.proto_ver@ == proto_ver@,
            request.req_headers == req_headers,
    {
        HttpRequest {
            method,
            req_uri: String::from_str(req_uri),
            proto_ver: String::from_str(proto_ver),
            req_headers,
        }
    }

    /// The first stage of parsing, which needs no file system: the relative
    /// path that the caller must resolve before calling `parse_request`, or
    /// the status that already rejects the request.
    pub fn lookup_path(request: &str, config: &ServerConfig) -> (result: Result<
        String,
        HttpStatusCode,
    >)
        ensures
            match lookup_outcome(request@, config.default_index@) {
                Ok(path) => result matches Ok(found) && found@ == path,
                Err(status) => result matches Err(given) && given == status,
            },
    {
        let tokens = tokenize(request);
        if tokens.len() < 3 {
            return Err(HttpStatusCode::BadRequest);
        }
        assert(tokens.deep_view()[0] == tokens[0]@);
        assert(tokens.deep_view()[1] == tokens[1]@);
        match HttpMethod::from_token(tokens[0].as_str()) {
            None => Err(HttpStatusCode::BadRequest),
            Some(HttpMethod::GET) => Ok(
                target_path(tokens[1].as_str(), config.default_index.as_str()),
            ),
            Some(_) => Err(HttpStatusCode::NotImplemented),
        }
    }

    /// Parses a raw request. `target` is the outcome of resolving the path
    /// that `lookup_path` gave (`None` if it did not resolve, or if
    /// `lookup_path` rejected the request), and `root` is the resolved
    /// document root.
    pub fn parse_request(
        request: &'a str,
        config: &ServerConfig,
        target: Option<&str>,
        root: &str,
    ) -> (result: Result<Box<HttpRequest<'a>>, HttpStatusCode>)
        ensures
            outcome_of(result) == parse_outcome(
                request@,
                config.proto_version@,
                target.deep_view(),
                root@,
            ),
            result matches Ok(request) ==> request.req_headers is None,
            request_tokens(request@).len() < 3 ==> result matches Err(HttpStatusCode::BadRequest),
            request_method(request@) is None ==> result matches Err(HttpStatusCode::BadRequest),
            request_tokens(request@).len() >= 3 && request_method(request@) is Some
                && request_method(request@) != Some(HttpMethod::GET) ==> result matches Err(
                HttpStatusCode::NotImplemented,
            ),
            request_tokens(request@).len() >= 3 && request_method(request@) == Some(
                HttpMethod::GET,
            ) && target is Some && !within(target.unwrap()@, root@) ==> result matches Err(
                HttpStatusCode::BadRequest,
            ),
            result matches Ok(request) ==> within(request.req_uri@, root@) && request.method
                == HttpMethod::GET && request.proto_ver@ == config.proto_version@,
    {
        let tokens = tokenize(request);
        if tokens.len() < 3 {
            return Err(HttpStatusCode::BadRequest);
        }
        assert(tokens.deep_view()[0] == tokens[0]@);
        assert(tokens.deep_view()[2] == tokens[2]@);
        match HttpMethod::from_token(tokens[0].as_str()) {
            None => Err(HttpStatusCode::BadRequest),
            Some(HttpMethod::GET) => match target {
                None => Err(HttpStatusCode::NotFound),
                Some(path) => {
                    if !is_within(path, root) {
                        Err(HttpStatusCode::BadRequest)
                    } else if !same_text(tokens[2].as_str(), config.proto_version.as_str()) {
                        Err(HttpStatusCode::BadRequest)
                    } else {
                        Ok(Box::new(HttpRequest::new(HttpMethod::GET, path, tokens[2].as_str(), None)))
                    }
                },
            },
            Some(_) => Err(HttpStatusCode::NotImplemented),
        }
    }
}

} // verus!
