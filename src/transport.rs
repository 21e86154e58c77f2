use vstd::prelude::*;

use crate::engine::{check_window, QueryError};

verus! {

/// Window boundaries are written `YYYY-MM-DDTHH:MM:SS`, without an offset.
pub const TIMESTAMP_FORMAT: &'static str = "%Y-%m-%dT%H:%M:%S";

/// The seconds since the epoch of the UTC instant that `text` spells in `format`, if it spells
/// one.
pub uninterp spec fn epoch_of_text(text: Seq<char>, format: Seq<char>) -> Option<i64>;

/// Relies on chrono's `NaiveDateTime::parse_from_str`, which reads `text` in `format`, and on
/// `NaiveDateTime::and_utc` and `DateTime::timestamp`, which give the seconds since the epoch
/// of that time read as UTC. The result depends on the two texts alone.
#[verifier::external_body]
pub(crate) fn parse_timestamp(text: &str, format: &str) -> (r: Option<i64>)
    ensures
        r == epoch_of_text(text@, format@),
{
    match chrono::NaiveDateTime::parse_from_str(text, format) {
        Ok(dt) => Some(dt.and_utc().timestamp()),
        Err(_) => None,
    }
}

/// The window of a search request, from its two texts and what they were read as: both texts
/// must be present, both must have been read, and the start must come before the end.
pub fn decide_window(
    starts_at: &str,
    ends_at: &str,
    start: Option<i64>,
    end: Option<i64>,
) -> (r: Result<(i64, i64), QueryError>)
    ensures
        match r {
            Ok((from, to)) => {
                &&& starts_at@.len() > 0
                &&& ends_at@.len() > 0
                &&& start == Some(from)
                &&& end == Some(to)
                &&& from < to
            },
            Err(e) => {
                &&& e is Validation
                &&& !(starts_at@.len() > 0 && ends_at@.len() > 0 && start is Some && end is Some
                    && start->0 < end->0)
            },
        },
{
    if starts_at.is_empty() || ends_at.is_empty() {
        return Err(
            QueryError::Validation("Both starts_at and ends_at must be provided.".to_owned()),
        );
    }
    let from = match start {
        Some(v) => v,
        None => {
            return Err(
                QueryError::Validation(
                    "Invalid starts_at format. Use %Y-%m-%dT%H:%M:%S".to_owned(),
                ),
            );
        },
    };
    let to = match end {
        Some(v) => v,
        None => {
            return Err(
                QueryError::Validation("Invalid ends_at format. Use %Y-%m-%dT%H:%M:%S".to_owned()),
            );
        },
    };
    match check_window(from, to) {
        Ok(_) => Ok((from, to)),
        Err(e) => Err(e),
    }
}

/// Reads the window of a search request from its two boundary texts.
pub fn parse_window(starts_at: &str, ends_at: &str) -> (r: Result<(i64, i64), QueryError>)
    ensures
        ({
            let start = epoch_of_text(starts_at@, TIMESTAMP_FORMAT@);
            let end = epoch_of_text(ends_at@, TIMESTAMP_FORMAT@);
            match r {
                Ok((from, to)) => {
                    &&& starts_at@.len() > 0
                    &&& ends_at@.len() > 0
                    &&& start == Some(from)
                    &&& end == Some(to)
                    &&& from < to
                },
                Err(e) => {
                    &&& e is Validation
                    &&& !(starts_at@.len() > 0 && ends_at@.len() > 0 && start is Some && end is Some
                        && start->0 < end->0)
                },
            }
        }),
{
    if starts_at.is_empty() || ends_at.is_empty() {
        return decide_window(starts_at, ends_at, None, None);
    }
    let start = parse_timestamp(starts_at, TIMESTAMP_FORMAT);
    let end = parse_timestamp(ends_at, TIMESTAMP_FORMAT);
    decide_window(starts_at, ends_at, start, end)
}

/// The error part of an error response.
pub struct ErrorBody {
    pub code: String,
    pub message: String,
}

/// An error response: the error, and no data.
pub struct ErrorResponse {
    pub error: ErrorBody,
    pub data: Option<()>,
}

impl ErrorResponse {
    pub fn new(code: &str, message: &str) -> (r: Self)
        ensures
            r.error.code@ == code@,
            r.error.message@ == message@,
            r.data is None,
    {
        ErrorResponse {
            error: ErrorBody { code: code.to_owned(), message: message.to_owned() },
            data: None,
        }
    }

    /// The HTTP status and the body that answer a failed query: 400 for a validation error,
    /// 503 when the store is unavailable, 500 otherwise.
    pub fn for_query_error(e: &QueryError) -> (r: (u16, ErrorResponse))
        ensures
            r.1.data is None,
            match e {
                QueryError::Validation(m) => r.0 == 400 && r.1.error.code@ == "bad_request"@
                    && r.1.error.message@ == m@,
                QueryError::StoreUnavailable(m) => r.0 == 503 && r.1.error.code@
                    == "service_unavailable"@ && r.1.error.message@ == m@,
                QueryError::Internal(m) => r.0 == 500 && r.1.error.code@ == "internal_error"@
                    && r.1.error.message@ == m@,
            },
    {
        match e {
            QueryError::Validation(m) => (400, ErrorResponse::new("bad_request", m.as_str())),
            QueryError::StoreUnavailable(m) => (
                503,
                ErrorResponse::new("service_unavailable", m.as_str()),
            ),
            QueryError::Internal(m) => (500, ErrorResponse::new("internal_error", m.as_str())),
        }
    }
}

/// The body of the health probe.
pub struct HealthResponse {
    pub status: String,
}

/// The two window boundaries of a search request, as written.
pub struct GetSearchRequest {
    pub starts_at: String,
    pub ends_at: String,
}

} // verus!
