# prehrajto_core

The computational core of an async client for prehraj.to, written in Verus
and verified: `src/` holds the request planning and the decisions taken on
responses (status codes, redirects, retries, download-page links), each
function with its contract; `app/` holds the async HTTP client and scraper
that perform the requests, read the clock and sleep, and hand the library
plain values.

Modules of `src/`:

- `text`: whitespace, trimming, substring search, decimal formatting.
- `url`: the site's base URL, percent-encoding, search/video/download paths.
- `scraper`: input validation and the paths each scraper operation requests.
- `session`: the refresh-token cookie of an authenticated session.
- `rate_limit`: slot reservation of the rate limiter.
- `fetch`: redirect following within one fetch.
- `resolve`: resolving a redirect's `Location` against the requested URL.
- `retry`: retry decisions and exponential backoff.
- `download`: the warmup/download-page flow of an original-file download.
- `error`: the error type and which errors are worth retrying.

Not in this crate: the HTML parsers of the search results and video pages
(search results, stream sources and their quality selection, subtitle
tracks, the original-file link) and the result types they fill
(`VideoResult`, `VideoSource`, `SubtitleTrack`, `VideoPageData`), and serde
support for them. Their sources were not available. The scraper in `app/`
therefore returns the HTML of the pages it fetches, and has no
`fetch_stream_url`, `fetch_stream_sources`, `fetch_subtitles` or
`search_movie`, whose results only a parser gives.
