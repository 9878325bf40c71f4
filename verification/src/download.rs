//! The flow that fetches a video's original-file download page.
//!
//! The download page only shows the file's CDN link to a session that has
//! visited the video's page first (the "warmup", which sets the session
//! cookies). A scraper warms its session up once and keeps it: a later
//! download skips the warmup. When a download page comes back without a CDN
//! link, a likely sign that the session lapsed, the warmup is run again once
//! and the download page fetched again; if the link is still missing, the
//! download fails with `NotFound`.

use vstd::prelude::*;
use crate::error::PrehrajtoError;
use crate::fetch::{cdn_marker, CDN_MARKER};
use crate::text::{contains, occurs_in};

verus! {

/// What to do next in a download.
pub enum DownloadAction {
    /// Fetch the video's page, to (re)establish the session.
    WarmUp,
    /// Fetch the download page.
    FetchDownloadPage,
    /// The download ends with this result: the download page that holds the
    /// CDN link, or the error.
    Finish(Result<String, PrehrajtoError>),
}

/// Where a download stands.
pub enum DownloadPhase {
    /// The flow waits for a warmup to be done.
    Warming,
    /// The flow waits for the download page.
    Fetching,
    /// The download has ended.
    Finished,
}

/// One download in progress.
pub struct DownloadFlow {
    phase: DownloadPhase,
    warmups: u32,
    page_fetches: u32,
    rewarmed: bool,
}

impl DownloadFlow {
    #[verifier::type_invariant]
    spec fn counts_bounded(self) -> bool {
        let r: int = if self.rewarmed { 1 } else { 0 };
        &&& self.warmups <= 1 + r
        &&& self.page_fetches <= 1 + r
        &&& self.phase is Warming ==> self.warmups <= r && self.page_fetches <= r
        &&& self.phase is Fetching ==> self.page_fetches <= r
    }

    /// Whether the flow waits for a warmup.
    pub closed spec fn awaits_warmup(&self) -> bool {
        self.phase is Warming
    }

    /// Whether the flow waits for the download page.
    pub closed spec fn awaits_page(&self) -> bool {
        self.phase is Fetching
    }

    /// The warmups done so far in this download.
    pub closed spec fn warmups(&self) -> nat {
        self.warmups as nat
    }

    /// The download pages fetched so far in this download.
    pub closed spec fn page_fetches(&self) -> nat {
        self.page_fetches as nat
    }

    /// Whether the warmup was run again after a page without link.
    pub closed spec fn rewarmed(&self) -> bool {
        self.rewarmed
    }

    /// Begins a download; `session_warm` tells whether the session was
    /// warmed up by an earlier download. Only a cold session is warmed up
    /// first.
    pub fn begin(session_warm: bool) -> (r: (Self, DownloadAction))
        ensures
            r.0.warmups() == 0,
            r.0.page_fetches() == 0,
            !r.0.rewarmed(),
            session_warm ==> r.1 is FetchDownloadPage && r.0.awaits_page(),
            !session_warm ==> r.1 is WarmUp && r.0.awaits_warmup(),
    {
        if session_warm {
            (
                DownloadFlow {
                    phase: DownloadPhase::Fetching,
                    warmups: 0,
                    page_fetches: 0,
                    rewarmed: false,
                },
                DownloadAction::FetchDownloadPage,
            )
        } else {
            (
                DownloadFlow {
                    phase: DownloadPhase::Warming,
                    warmups: 0,
                    page_fetches: 0,
                    rewarmed: false,
                },
                DownloadAction::WarmUp,
            )
        }
    }

    /// After a warmup that succeeded: fetch the download page.
    pub fn after_warmup(&mut self) -> (a: DownloadAction)
        requires
            old(self).awaits_warmup(),
        ensures
            a is FetchDownloadPage,
            final(self).awaits_page(),
            final(self).warmups() == old(self).warmups() + 1,
            final(self).warmups() <= 2,
            final(self).page_fetches() == old(self).page_fetches(),
            final(self).rewarmed() == old(self).rewarmed(),
    {
        proof {
            use_type_invariant(&*self);
        }
        self.phase = DownloadPhase::Fetching;
        self.warmups = self.warmups + 1;
        DownloadAction::FetchDownloadPage
    }

    /// After the download page `page` was fetched from `download_url`: the
    /// page is the result when it holds a CDN link; otherwise the warmup is
    /// run again, the first time, and the download fails with `NotFound`
    /// for `download_url` the second time.
    pub fn after_download_page(&mut self, page: String, download_url: &str) -> (a: DownloadAction)
        requires
            old(self).awaits_page(),
        ensures
            final(self).page_fetches() == old(self).page_fetches() + 1,
            final(self).page_fetches() <= 2,
            final(self).warmups() == old(self).warmups(),
            a is Finish ==> !final(self).awaits_page() && !final(self).awaits_warmup(),
            a is WarmUp ==> final(self).awaits_warmup(),
            occurs_in(cdn_marker(), page@) ==> a == DownloadAction::Finish(Ok(page))
                && final(self).rewarmed() == old(self).rewarmed(),
            !occurs_in(cdn_marker(), page@) && !old(self).rewarmed() ==> a is WarmUp
                && final(self).rewarmed(),
            !occurs_in(cdn_marker(), page@) && old(self).rewarmed() ==> (a matches DownloadAction::Finish(
                Err(PrehrajtoError::NotFound(u)),
            ) && u@ == download_url@) && final(self).rewarmed(),
    {
        proof {
            use_type_invariant(&*self);
        }
        if contains(page.as_str(), CDN_MARKER) {
            self.phase = DownloadPhase::Finished;
            self.page_fetches = self.page_fetches + 1;
            DownloadAction::Finish(Ok(page))
        } else if !self.rewarmed {
            self.rewarmed = true;
            self.phase = DownloadPhase::Warming;
            self.page_fetches = self.page_fetches + 1;
            DownloadAction::WarmUp
        } else {
            self.phase = DownloadPhase::Finished;
            self.page_fetches = self.page_fetches + 1;
            DownloadAction::Finish(Err(PrehrajtoError::NotFound(download_url.to_owned())))
        }
    }

    /// Whether the flow waits for a warmup.
    pub fn wants_warmup(&self) -> (b: bool)
        ensures
            b == self.awaits_warmup(),
    {
        match self.phase {
            DownloadPhase::Warming => true,
            _ => false,
        }
    }

    /// Whether the flow waits for the download page.
    pub fn wants_page(&self) -> (b: bool)
        ensures
            b == self.awaits_page(),
    {
        match self.phase {
            DownloadPhase::Fetching => true,
            _ => false,
        }
    }
}

} // verus!
