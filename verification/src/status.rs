//! The status codes the server can answer with, and their wire form.

use vstd::prelude::*;

verus! {

/// The closed set of statuses. It is both the failure taxonomy of request
/// parsing and the status written on the wire.
#[derive(Debug, Clone, Copy, PartialEq, Eq, Structural)]
pub enum HttpStatusCode {
    Continue,
    HttpOk,
    BadRequest,
    Unauthorized,
    Forbidden,
    NotFound,
    InternalServerError,
    NotImplemented,
}

impl HttpStatusCode {
    /// The numeric code of the status.
    pub open spec fn code(self) -> nat {
        match self {
            HttpStatusCode::Continue => 100,
            HttpStatusCode::HttpOk => 200,
            HttpStatusCode::BadRequest => 400,
            HttpStatusCode::Unauthorized => 401,
            HttpStatusCode::Forbidden => 403,
            HttpStatusCode::NotFound => 404,
            HttpStatusCode::InternalServerError => 500,
            HttpStatusCode::NotImplemented => 501,
        }
    }

    /// The canonical reason phrase of the status.
    pub open spec fn reason(self) -> Seq<char> {
        match self {
            HttpStatusCode::Continue => "Continue"@,
            HttpStatusCode::HttpOk => "OK"@,
            HttpStatusCode::BadRequest => "Bad request"@,
            HttpStatusCode::Unauthorized => "Unauthorized"@,
            HttpStatusCode::Forbidden => "Forbidden"@,
            HttpStatusCode::NotFound => "Not Found"@,
            HttpStatusCode::InternalServerError => "Internal Server Error"@,
            HttpStatusCode::NotImplemented => "Not implemented"@,
        }
    }

    /// The numeric code and reason phrase of the status.
    pub fn value(&self) -> (r: (u16, &'static str))
        ensures
            r.0 == self.code(),
            r.1@ == self.reason(),
    {
        match *self {
            HttpStatusCode::Continue => (100, "Continue"),
            HttpStatusCode::HttpOk => (200, "OK"),
            HttpStatusCode::BadRequest => (400, "Bad request"),
            HttpStatusCode::Unauthorized => (401, "Unauthorized"),
            HttpStatusCode::Forbidden => (403, "Forbidden"),
            HttpStatusCode::NotFound => (404, "Not Found"),
            HttpStatusCode::InternalServerError => (500, "Internal Server Error"),
            HttpStatusCode::NotImplemented => (501, "Not implemented"),
        }
    }
}

} // verus!
