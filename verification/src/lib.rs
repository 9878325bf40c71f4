//! Request planning and response handling for the prehraj.to scraper.
//!
//! Everything here is plain computation: text normalisation, URL and path
//! building, input validation, the rate limiter's slot bookkeeping, the redirect
//! and retry decisions, and the error classification that drives them. The
//! network, the clock and the sleeping are left to the caller.

pub mod download;
pub mod error;
pub mod fetch;
pub mod rate_limit;
pub mod resolve;
pub mod retry;
pub mod scraper;
pub mod session;
pub mod text;
pub mod url;

pub use error::{HttpFailure, PrehrajtoError};
pub use fetch::{FetchState, FetchStep};
pub use rate_limit::RateLimiter;
pub use retry::{RetryDecision, RetryState};
