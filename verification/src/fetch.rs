//! How one fetch walks through redirects.
//!
//! A fetch requests a URL and looks at the response. Redirects to pages of
//! the site are followed, their `Location` read against the URL requested
//! (see [`crate::resolve`]); a redirect to the CDN is not (its target would be a
//! large media file), and neither is a redirect without a usable `Location`:
//! the body of such a response is the result. A fetch makes at most
//! [`MAX_REQUESTS`] requests.

use vstd::prelude::*;
use crate::error::{
    is_redirection, is_server_error,
    PrehrajtoError,
};
use crate::resolve::{resolve_reference, resolved};
use crate::text::{contains, occurs_in};

verus! {

/// The most requests one fetch makes, the first one included.
pub const MAX_REQUESTS: u32 = 5;

/// The host part that marks a redirect to the CDN.
pub const CDN_MARKER: &'static str = "premiumcdn.net";

/// The characters of [`CDN_MARKER`].
pub open spec fn cdn_marker() -> Seq<char> {
    "premiumcdn.net"@
}

/// The message of the error that ends a redirect chain that is too long.
pub open spec fn too_many_redirects_message() -> Seq<char> {
    "Too many redirects"@
}

/// What to do after a response.
pub enum FetchStep {
    /// The fetch fails with this error.
    Fail(PrehrajtoError),
    /// The server answered with a 5xx status: the fetch fails with the HTTP
    /// error that the response stands for.
    ServerError(u16),
    /// The response body is the result.
    ReadBody,
    /// Request the state's (new) current URL.
    Follow,
}

/// One fetch in progress: the URL to request and how many redirects were
/// followed to reach it.
pub struct FetchState {
    followed: u32,
    url: String,
}

impl FetchState {
    #[verifier::type_invariant]
    spec fn within_limit(self) -> bool {
        self.followed < MAX_REQUESTS
    }

    /// The number of redirects followed so far; the requests made so far
    /// are one more.
    pub closed spec fn followed(&self) -> nat {
        self.followed as nat
    }

    /// The URL to request next.
    pub closed spec fn url(&self) -> Seq<char> {
        self.url@
    }

    /// A fetch of `url` that has not begun.
    pub fn new(url: String) -> (s: Self)
        ensures
            s.followed() == 0,
            s.url() == url@,
    {
        FetchState { followed: 0, url }
    }

    /// The URL to request next.
    pub fn current_url(&self) -> (u: &str)
        ensures
            u@ == self.url(),
    {
        self.url.as_str()
    }

    /// The number of redirects followed so far.
    pub fn followed_count(&self) -> (n: u32)
        ensures
            n == self.followed(),
            n < MAX_REQUESTS,
    {
        proof {
            use_type_invariant(self);
        }
        self.followed
    }

    /// Decides what follows a response with `status`, whose `Location`
    /// header, where it is present and readable as text, is `location`.
    pub fn on_response(&mut self, status: u16, location: Option<&str>) -> (step: FetchStep)
        ensures
            old(self).followed() < MAX_REQUESTS,
            final(self).followed() < MAX_REQUESTS,
            step is Follow ==> final(self).followed() == old(self).followed() + 1,
            step is Follow ==> old(self).followed() < 4,
            (300 <= status <= 399 && old(self).followed() < 4 && (location matches Some(l)
                && !occurs_in(cdn_marker(), l@))) ==> step is Follow,
            !(step is Follow) ==> final(self).followed() == old(self).followed()
                && final(self).url() == old(self).url(),
            status == 429 ==> step matches FetchStep::Fail(PrehrajtoError::RateLimited),
            status == 404 ==> (step matches FetchStep::Fail(PrehrajtoError::NotFound(u))
                && u@ == old(self).url()),
            500 <= status <= 599 ==> step == FetchStep::ServerError(status),
            300 <= status <= 399 ==> match location {
                None => step is ReadBody,
                Some(l) => if occurs_in(cdn_marker(), l@) {
                    step is ReadBody
                } else if old(self).followed() + 1 < MAX_REQUESTS {
                    step is Follow && final(self).url() == resolved(old(self).url(), l@)
                } else {
                    step matches FetchStep::Fail(PrehrajtoError::ParseError(m))
                        && m@ == too_many_redirects_message()
                },
            },
            status != 429 && status != 404 && !(500 <= status <= 599) && !(300 <= status <= 399)
                ==> step is ReadBody,
    {
        proof {
            use_type_invariant(&*self);
        }
        if status == 429 {
            return FetchStep::Fail(PrehrajtoError::RateLimited);
        }
        if status == 404 {
            return FetchStep::Fail(PrehrajtoError::NotFound(self.url.clone()));
        }
        if is_server_error(status) {
            return FetchStep::ServerError(status);
        }
        if is_redirection(status) {
            match location {
                Some(loc) => {
                    if contains(loc, CDN_MARKER) {
                        return FetchStep::ReadBody;
                    }
                    if self.followed + 1 < MAX_REQUESTS {
                        self.url = resolve_reference(self.url.as_str(), loc);
                        self.followed = self.followed + 1;
                        return FetchStep::Follow;
                    }
                    return FetchStep::Fail(
                        PrehrajtoError::ParseError("Too many redirects".to_owned()),
                    );
                },
                None => {
                    return FetchStep::ReadBody;
                },
            }
        }
        FetchStep::ReadBody
    }
}

} // verus!
