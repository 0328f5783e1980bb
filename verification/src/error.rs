//! The errors that requests end in, and the answer each one gets.
use vstd::prelude::*;
use crate::text::{int_decimal, append_i64};

verus! {

/// How a request failed. `Internal` carries the description of a store
/// failure; it is logged and never shown to the caller.
#[derive(Debug)]
pub enum AppError {
    NotFound(String),
    Conflict(String),
    BadRequest(String),
    Internal(String),
}

/// The answer to a failed request: an HTTP status and the text of the
/// `error` field of its JSON body.
#[derive(Debug)]
pub struct ErrorResponse {
    pub status: u16,
    pub message: String,
}

impl AppError {
    /// The HTTP status of the answer.
    pub open spec fn spec_status(&self) -> u16 {
        match self {
            AppError::NotFound(_) => 404,
            AppError::Conflict(_) => 409,
            AppError::BadRequest(_) => 400,
            AppError::Internal(_) => 500,
        }
    }

    /// The text shown to the caller: the error's own text, but for internal
    /// failures, whose details are withheld.
    pub open spec fn spec_message(&self) -> Seq<char> {
        match self {
            AppError::NotFound(m) => m@,
            AppError::Conflict(m) => m@,
            AppError::BadRequest(m) => m@,
            AppError::Internal(_) => "internal server error"@,
        }
    }

    pub fn status_code(&self) -> (r: u16)
        ensures
            r == self.spec_status(),
    {
        match self {
            AppError::NotFound(_) => 404,
            AppError::Conflict(_) => 409,
            AppError::BadRequest(_) => 400,
            AppError::Internal(_) => 500,
        }
    }

    /// The answer to the failed request.
    pub fn into_response(self) -> (r: ErrorResponse)
        ensures
            r.status == self.spec_status(),
            r.message@ == self.spec_message(),
    {
        let status = self.status_code();
        match self {
            AppError::NotFound(m) => ErrorResponse { status, message: m },
            AppError::Conflict(m) => ErrorResponse { status, message: m },
            AppError::BadRequest(m) => ErrorResponse { status, message: m },
            AppError::Internal(_) => ErrorResponse {
                status,
                message: String::from_str("internal server error"),
            },
        }
    }
}

/// `<what> <id> not found`.
pub open spec fn id_missing(what: Seq<char>, id: i64) -> Seq<char> {
    what + " "@ + int_decimal(id as int) + " not found"@
}

/// `<what> '<name>' not found`.
pub open spec fn name_missing(what: Seq<char>, name: Seq<char>) -> Seq<char> {
    what + " '"@ + name + "' not found"@
}

/// `slug '<slug>' already exists`.
pub open spec fn slug_taken(slug: Seq<char>) -> Seq<char> {
    "slug '"@ + slug + "' already exists"@
}

/// The store's report of a row that names a missing article, tag or category.
pub open spec fn foreign_key_failed() -> Seq<char> {
    "error returned from database: (code: 787) FOREIGN KEY constraint failed"@
}

/// The store's report of a second row with a unique value.
pub open spec fn unique_failed(column: Seq<char>) -> Seq<char> {
    "error returned from database: (code: 2067) UNIQUE constraint failed: "@ + column
}

/// The store's report of an id sequence that has reached its last value.
pub open spec fn store_full() -> Seq<char> {
    "error returned from database: (code: 13) database or disk is full"@
}

pub fn id_missing_msg(what: &str, id: i64) -> (r: String)
    ensures
        r@ == id_missing(what@, id),
{
    let mut s = String::from_str(what);
    s.append(" ");
    append_i64(&mut s, id);
    s.append(" not found");
    s
}

pub fn name_missing_msg(what: &str, name: &str) -> (r: String)
    ensures
        r@ == name_missing(what@, name@),
{
    let mut s = String::from_str(what);
    s.append(" '");
    s.append(name);
    s.append("' not found");
    s
}

pub fn slug_taken_msg(slug: &str) -> (r: String)
    ensures
        r@ == slug_taken(slug@),
{
    let mut s = String::from_str("slug '");
    s.append(slug);
    s.append("' already exists");
    s
}

pub fn foreign_key_failed_msg() -> (r: String)
    ensures
        r@ == foreign_key_failed(),
{
    String::from_str("error returned from database: (code: 787) FOREIGN KEY constraint failed")
}

pub fn unique_failed_msg(column: &str) -> (r: String)
    ensures
        r@ == unique_failed(column@),
{
    let mut s = String::from_str("error returned from database: (code: 2067) UNIQUE constraint failed: ");
    s.append(column);
    s
}

pub fn store_full_msg() -> (r: String)
    ensures
        r@ == store_full(),
{
    String::from_str("error returned from database: (code: 13) database or disk is full")
}

} // verus!
