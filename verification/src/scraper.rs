//! Input validation and request paths of the scraper's operations.
//!
//! Each operation of the scraper first validates its input and works out which
//! pages of the site it requests; these functions do that part and return
//! the error the operation answers with when the input is refused.

use vstd::prelude::*;
use crate::error::PrehrajtoError;
use crate::text::{
    digit_char, int_digits, lemma_nat_digits_last, lemma_trim_ends,
    lemma_trim_keeps, nat_digits, push_char, push_i32, strip_prefix_or_self, trim, trimmed,
};
use crate::url::{
    base_url, build_download_path, build_search_url, build_video_path, download_path,
    search_path, video_path, BASE_URL,
};

verus! {

/// The message of the error for an empty search query.
pub open spec fn empty_query_message() -> Seq<char> {
    "Search query cannot be empty"@
}

/// The message of the error for an empty video id.
pub open spec fn empty_id_message() -> Seq<char> {
    "Video ID cannot be empty"@
}

/// The message of the error for an empty movie name.
pub open spec fn empty_name_message() -> Seq<char> {
    "Movie name cannot be empty"@
}

/// Whether `e` is the invalid-input error with message `msg`.
pub open spec fn is_invalid_input(e: PrehrajtoError, msg: Seq<char>) -> bool {
    e matches PrehrajtoError::InvalidId(m) && m@ == msg
}

/// The query that a movie search runs: the trimmed name, then, where a year
/// is given, a space and the year.
pub open spec fn movie_query(name: Seq<char>, year: Option<i32>) -> Seq<char> {
    match year {
        Some(y) => trim(name) + seq![' '] + int_digits(y as int),
        None => trim(name),
    }
}

/// Validates a video id: refused when empty or whitespace only.
pub fn validate_video_id(video_id: &str) -> (r: Result<(), PrehrajtoError>)
    ensures
        r is Ok <==> trim(video_id@).len() > 0,
        r matches Err(e) ==> is_invalid_input(e, empty_id_message()),
{
    let t = trimmed(video_id);
    if t.as_str().is_empty() {
        Err(PrehrajtoError::InvalidId("Video ID cannot be empty".to_owned()))
    } else {
        Ok(())
    }
}

/// The path that a search for `query` requests: the search page of the
/// trimmed query. Refused when the query is empty or whitespace only.
pub fn search_request_path(query: &str) -> (r: Result<String, PrehrajtoError>)
    ensures
        r is Ok <==> trim(query@).len() > 0,
        r matches Ok(p) ==> p@ == search_path(trim(query@)),
        r matches Err(e) ==> is_invalid_input(e, empty_query_message()),
{
    let t = trimmed(query);
    if t.as_str().is_empty() {
        return Err(PrehrajtoError::InvalidId("Search query cannot be empty".to_owned()));
    }
    let url = build_search_url(t.as_str());
    let path = strip_prefix_or_self(url.as_str(), BASE_URL);
    proof {
        let whole = base_url() + search_path(trim(query@));
        assert(whole.subrange(0, base_url().len() as int) =~= base_url());
        assert(whole.subrange(base_url().len() as int, whole.len() as int) =~= search_path(
            trim(query@),
        ));
    }
    Ok(path)
}

/// The path of a video's page, which the stream and page operations
/// request. Refused when the id is empty or whitespace only.
pub fn video_request_path(video_slug: &str, video_id: &str) -> (r: Result<
    String,
    PrehrajtoError,
>)
    ensures
        r is Ok <==> trim(video_id@).len() > 0,
        r matches Ok(p) ==> p@ == video_path(video_slug@, video_id@),
        r matches Err(e) ==> is_invalid_input(e, empty_id_message()),
{
    validate_video_id(video_id)?;
    Ok(build_video_path(video_slug, video_id))
}

/// The two paths that fetching a video's original file requests, in
/// order: the video's page, which sets the session cookies, and its download
/// page. Refused when the id is empty or whitespace only.
pub fn original_download_paths(video_slug: &str, video_id: &str) -> (r: Result<
    (String, String),
    PrehrajtoError,
>)
    ensures
        r is Ok <==> trim(video_id@).len() > 0,
        r matches Ok(ps) ==> ps.0@ == video_path(video_slug@, video_id@) && ps.1@
            == download_path(video_slug@, video_id@),
        r matches Err(e) ==> is_invalid_input(e, empty_id_message()),
{
    validate_video_id(video_id)?;
    Ok((build_video_path(video_slug, video_id), build_download_path(video_slug, video_id)))
}

/// The query that a search for a movie runs. Refused when the name is
/// empty or whitespace only.
pub fn movie_search_query(movie_name: &str, year: Option<i32>) -> (r: Result<
    String,
    PrehrajtoError,
>)
    ensures
        r is Ok <==> trim(movie_name@).len() > 0,
        r matches Ok(q) ==> q@ == movie_query(movie_name@, year),
        r matches Err(e) ==> is_invalid_input(e, empty_name_message()),
{
    let t = trimmed(movie_name);
    if t.as_str().is_empty() {
        return Err(PrehrajtoError::InvalidId("Movie name cannot be empty".to_owned()));
    }
    match year {
        Some(y) => {
            let mut q = t;
            push_char(&mut q, ' ');
            push_i32(&mut q, y);
            Ok(q)
        },
        None => Ok(t),
    }
}

/// The path that a search for a movie requests. Refused, with the movie
/// name's error, when the name is empty or whitespace only.
pub fn movie_search_path(movie_name: &str, year: Option<i32>) -> (r: Result<
    String,
    PrehrajtoError,
>)
    ensures
        r is Ok <==> trim(movie_name@).len() > 0,
        r matches Ok(p) ==> p@ == search_path(trim(movie_query(movie_name@, year))),
        r matches Err(e) ==> is_invalid_input(e, empty_name_message()),
{
    let q = movie_search_query(movie_name, year)?;
    let r = search_request_path(q.as_str());
    proof {
        lemma_movie_query_trimmed(movie_name@, year);
    }
    r
}

/// The query of a movie search needs no further trimming.
pub proof fn lemma_movie_query_trimmed(name: Seq<char>, year: Option<i32>)
    requires
        trim(name).len() > 0,
    ensures
        trim(movie_query(name, year)) == movie_query(name, year),
{
    lemma_trim_ends(name);
    let q = movie_query(name, year);
    match year {
        Some(y) => {
            let m: nat = if y < 0 { (-y) as nat } else { y as nat };
            lemma_nat_digits_last(m);
            assert(int_digits(y as int).last() == nat_digits(m).last());
            assert(q.last() == digit_char(m % 10));
            assert(q[0] == trim(name)[0]);
            lemma_trim_keeps(q);
        },
        None => {
            lemma_trim_keeps(q);
        },
    }
}

/// Whitespace around a search query changes nothing: the padded and the
/// trimmed query are both accepted or both refused, and search the same page.
pub proof fn lemma_search_ignores_padding(query: Seq<char>)
    ensures
        (trim(query).len() > 0) == (trim(trim(query)).len() > 0),
        search_path(trim(query)) == search_path(trim(trim(query))),
{
    crate::text::lemma_trim_idempotent(query);
}

} // verus!
