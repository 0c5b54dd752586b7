//! The request methods the server recognizes.

use vstd::prelude::*;
use crate::text::starts_with;

verus! {

/// The closed set of methods. Only `GET` is served; the others are
/// recognized so that they can be answered as unimplemented.
#[derive(Debug, Clone, Copy, PartialEq, Eq, Structural)]
#[allow(dead_code)]
pub enum HttpMethod {
    GET,
    POST,
    UPDATE,
    DELETE,
    CONNECT,
    TRACE,
    HEAD,
    OPTION,
}

impl HttpMethod {
    /// The method that a leading token selects: the first method, in the
    /// order below, whose name the token begins with. Matching is
    /// case-sensitive. `PUT` and `UPDATE` both select `UPDATE`.
    pub open spec fn recognize(token: Seq<char>) -> Option<HttpMethod> {
        if "GET"@.is_prefix_of(token) {
            Some(HttpMethod::GET)
        } else if "POST"@.is_prefix_of(token) {
            Some(HttpMethod::POST)
        } else if "PUT"@.is_prefix_of(token) || "UPDATE"@.is_prefix_of(token) {
            Some(HttpMethod::UPDATE)
        } else if "DELETE"@.is_prefix_of(token) {
            Some(HttpMethod::DELETE)
        } else if "CONNECT"@.is_prefix_of(token) {
            Some(HttpMethod::CONNECT)
        } else if "TRACE"@.is_prefix_of(token) {
            Some(HttpMethod::TRACE)
        } else if "HEAD"@.is_prefix_of(token) {
            Some(HttpMethod::HEAD)
        } else if "OPTIONS"@.is_prefix_of(token) {
            Some(HttpMethod::OPTION)
        } else {
            None
        }
    }

    /// Selects the method named by the leading token of a request line.
    pub fn from_token(token: &str) -> (method: Option<HttpMethod>)
        ensures
            method == Self::recognize(token@),
    {
        if starts_with(token, "GET") {
            Some(HttpMethod::GET)
        } else if starts_with(token, "POST") {
            Some(HttpMethod::POST)
        } else if starts_with(token, "PUT") || starts_with(token, "UPDATE") {
            Some(HttpMethod::UPDATE)
        } else if starts_with(token, "DELETE") {
            Some(HttpMethod::DELETE)
        } else if starts_with(token, "CONNECT") {
            Some(HttpMethod::CONNECT)
        } else if starts_with(token, "TRACE") {
            Some(HttpMethod::TRACE)
        } else if starts_with(token, "HEAD") {
            Some(HttpMethod::HEAD)
        } else if starts_with(token, "OPTIONS") {
            Some(HttpMethod::OPTION)
        } else {
            None
        }
    }
}

} // verus!
