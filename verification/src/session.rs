//! The cookie that authenticates a session.

use vstd::prelude::*;
use crate::text::{push_str, trim, trimmed};

verus! {

/// The `Set-Cookie` line that seeds a session with the refresh token
/// `token`, for the whole site.
pub open spec fn refresh_cookie_line(token: Seq<char>) -> Seq<char> {
    "refresh_token="@ + token + "; Domain=prehraj.to; Path=/"@
}

/// The cookie line to seed the session with, where a refresh token is
/// given: the token is trimmed, and one that is empty or whitespace only
/// counts as none (the session is then anonymous).
pub fn session_cookie(refresh_token: Option<&str>) -> (c: Option<String>)
    ensures
        c is Some <==> (refresh_token matches Some(t) && trim(t@).len() > 0),
        c matches Some(line) ==> (refresh_token matches Some(t) && line@ == refresh_cookie_line(
            trim(t@),
        )),
{
    match refresh_token {
        Some(raw) => {
            let token = trimmed(raw);
            if token.as_str().is_empty() {
                None
            } else {
                let mut line = String::new();
                push_str(&mut line, "refresh_token=");
                push_str(&mut line, token.as_str());
                push_str(&mut line, "; Domain=prehraj.to; Path=/");
                Some(line)
            }
        },
        None => None,
    }
}

} // verus!
