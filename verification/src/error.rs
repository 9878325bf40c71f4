//! The library's error type.

use vstd::prelude::*;

verus! {

/// What is known of a failed HTTP exchange: whether it timed out, whether
/// the connection could not be made, the response status if one came back,
/// and a description for people.
#[derive(Debug)]
pub struct HttpFailure {
    pub timeout: bool,
    pub connect: bool,
    pub status: Option<u16>,
    pub message: String,
}

/// Errors of the scraper.
#[derive(Debug)]
pub enum PrehrajtoError {
    /// An input (query, name or video id) was empty or whitespace only.
    InvalidId(String),
    /// The HTTP exchange failed.
    HttpError(HttpFailure),
    /// The server answered 429 Too Many Requests.
    RateLimited,
    /// The server answered 404 Not Found for the URL held.
    NotFound(String),
    /// A page or a redirect chain could not be made sense of.
    ParseError(String),
}

/// Whether a status code is a server error (500 to 599).
pub open spec fn is_server_error_status(status: u16) -> bool {
    500 <= status <= 599
}

/// Whether a status code is a redirection (300 to 399).
pub open spec fn is_redirection_status(status: u16) -> bool {
    300 <= status <= 399
}

/// Whether a status code is a server error (500 to 599).
pub fn is_server_error(status: u16) -> (r: bool)
    ensures
        r == is_server_error_status(status),
        r == (500 <= status && status <= 599),
{
    500 <= status && status <= 599
}

/// Whether a status code is a redirection (300 to 399).
pub fn is_redirection(status: u16) -> (r: bool)
    ensures
        r == is_redirection_status(status),
        r == (300 <= status && status <= 399),
{
    300 <= status && status <= 399
}

impl PrehrajtoError {
    /// Whether a request that failed with this error is worth repeating:
    /// rate limiting, a timeout, a failed connection, or a server error.
    pub open spec fn spec_retryable(&self) -> bool {
        match self {
            PrehrajtoError::RateLimited => true,
            PrehrajtoError::HttpError(f) => f.timeout || f.connect || (f.status matches Some(
                s,
            ) && is_server_error_status(s)),
            _ => false,
        }
    }

    /// Whether a request that failed with this error is worth repeating.
    pub fn is_retryable(&self) -> (r: bool)
        ensures
            r == self.spec_retryable(),
            self is RateLimited ==> r,
            self matches PrehrajtoError::HttpError(f) ==> (r <==> (f.timeout || f.connect || (
            f.status matches Some(s) && 500 <= s && s <= 599))),
            !(self is RateLimited) && !(self is HttpError) ==> !r,
    {
        match self {
            PrehrajtoError::RateLimited => true,
            PrehrajtoError::HttpError(f) => {
                f.timeout || f.connect || match f.status {
                    Some(s) => is_server_error(s),
                    None => false,
                }
            },
            _ => false,
        }
    }
}

/// The server errors are exactly the statuses 500 through 599, and the
/// redirections exactly 300 through 399; 404 and 429 are neither.
pub proof fn lemma_status_classes(status: u16)
    ensures
        is_server_error_status(status) <==> (500 <= status && status <= 599),
        is_redirection_status(status) <==> (300 <= status && status <= 399),
        !is_server_error_status(404) && !is_redirection_status(404),
        !is_server_error_status(429) && !is_redirection_status(429),
        is_server_error_status(500) && is_server_error_status(504) && is_server_error_status(599),
        is_redirection_status(301) && is_redirection_status(307) && is_redirection_status(308),
{
}

/// Rate limiting, timeouts, failed connections and every 5xx answer are
/// worth retrying; an HTTP failure with no status or a status outside
/// 500..=599 that neither timed out nor failed to connect is not, and
/// neither are invalid inputs, missing pages or unreadable pages.
pub proof fn lemma_transient_errors_retryable(f: HttpFailure, text: String)
    ensures
        PrehrajtoError::RateLimited.spec_retryable(),
        f.timeout ==> PrehrajtoError::HttpError(f).spec_retryable(),
        f.connect ==> PrehrajtoError::HttpError(f).spec_retryable(),
        (f.status matches Some(s) && 500 <= s && s <= 599) ==> PrehrajtoError::HttpError(
            f,
        ).spec_retryable(),
        (!f.timeout && !f.connect && (f.status is None || (f.status matches Some(s) && (s < 500
            || s > 599)))) ==> !PrehrajtoError::HttpError(f).spec_retryable(),
        !PrehrajtoError::InvalidId(text).spec_retryable(),
        !PrehrajtoError::NotFound(text).spec_retryable(),
        !PrehrajtoError::ParseError(text).spec_retryable(),
{
}

} // verus!
