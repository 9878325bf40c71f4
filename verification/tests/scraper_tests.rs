use prehrajto_core::scraper::{
    validate_video_id, movie_search_path, movie_search_query, original_download_paths,
    search_request_path, video_request_path,
};
use prehrajto_core::url::build_download_url;
use prehrajto_core::PrehrajtoError;

#[test]
fn test_download_page_url_valid() {
    let url = build_download_url("doctor-who-s07e05", "63aba7f51f6cf");
    assert_eq!(
        url,
        "https://prehraj.to/doctor-who-s07e05/63aba7f51f6cf?do=download"
    );
}

#[test]
fn test_search_empty_query() {
    let result = search_request_path("");
    assert!(result.is_err());
    match result {
        Err(PrehrajtoError::InvalidId(msg)) => {
            assert!(msg.contains("empty"));
        }
        _ => panic!("Expected InvalidId error"),
    }
}

#[test]
fn test_search_whitespace_query() {
    let result = search_request_path("   ");
    assert!(result.is_err());
    match result {
        Err(PrehrajtoError::InvalidId(_)) => {}
        _ => panic!("Expected InvalidId error"),
    }
}

#[test]
fn test_fetch_stream_url_empty_id() {
    let result = video_request_path("some-slug", "");
    assert!(result.is_err());
    match result {
        Err(PrehrajtoError::InvalidId(msg)) => {
            assert!(msg.contains("empty"));
        }
        _ => panic!("Expected InvalidId error"),
    }
}

#[test]
fn test_fetch_stream_url_whitespace_id() {
    let result = video_request_path("some-slug", "   ");
    assert!(result.is_err());
    match result {
        Err(PrehrajtoError::InvalidId(_)) => {}
        _ => panic!("Expected InvalidId error"),
    }
}

#[test]
fn test_search_movie_empty_name() {
    let result = movie_search_path("", None);
    assert!(result.is_err());
    match result {
        Err(PrehrajtoError::InvalidId(msg)) => {
            assert!(msg.contains("empty"));
        }
        _ => panic!("Expected InvalidId error"),
    }
}

#[test]
fn test_search_movie_whitespace_name() {
    let result = movie_search_path("   ", Some(2020));
    assert!(result.is_err());
    match result {
        Err(PrehrajtoError::InvalidId(_)) => {}
        _ => panic!("Expected InvalidId error"),
    }
}

#[test]
fn test_search_movies_empty_name() {
    let result = movie_search_path("", Some(2020));
    assert!(result.is_err());
    match result {
        Err(PrehrajtoError::InvalidId(msg)) => {
            assert!(msg.contains("empty"));
        }
        _ => panic!("Expected InvalidId error"),
    }
}

#[test]
fn search_path_trims_and_encodes() {
    match search_request_path("  doctor who  ") {
        Ok(p) => assert_eq!(p, "/hledej/doctor%20who"),
        Err(_) => panic!("query refused"),
    }
}

#[test]
fn search_path_encodes_utf8_bytes() {
    match search_request_path("pohádka & co/1~2") {
        Ok(p) => assert_eq!(p, "/hledej/poh%C3%A1dka%20%26%20co%2F1~2"),
        Err(_) => panic!("query refused"),
    }
}

#[test]
fn padded_and_trimmed_queries_search_the_same_page() {
    let a = search_request_path("\t matrix \n").ok().unwrap();
    let b = search_request_path("matrix").ok().unwrap();
    assert_eq!(a, b);
}

#[test]
fn whitespace_of_other_scripts_counts() {
    assert!(search_request_path("\u{3000}\u{a0}\u{2028}").is_err());
    assert!(validate_video_id("\u{85}").is_err());
}

#[test]
fn movie_query_with_and_without_year() {
    assert_eq!(movie_search_query("  Matrix ", Some(1999)).ok().unwrap(), "Matrix 1999");
    assert_eq!(movie_search_query("Matrix", None).ok().unwrap(), "Matrix");
    assert_eq!(movie_search_query("Ben Hur", Some(-26)).ok().unwrap(), "Ben Hur -26");
    assert_eq!(movie_search_query("X", Some(0)).ok().unwrap(), "X 0");
    assert_eq!(
        movie_search_query("X", Some(i32::MIN)).ok().unwrap(),
        "X -2147483648"
    );
}

#[test]
fn movie_search_path_uses_the_query() {
    assert_eq!(
        movie_search_path(" Dune ", Some(2021)).ok().unwrap(),
        "/hledej/Dune%202021"
    );
}

#[test]
fn movie_name_error_message() {
    match movie_search_query(" ", None) {
        Err(PrehrajtoError::InvalidId(msg)) => assert_eq!(msg, "Movie name cannot be empty"),
        _ => panic!("Expected InvalidId error"),
    }
}

#[test]
fn video_paths_keep_slug_and_id() {
    assert_eq!(
        video_request_path("doctor-who", "63aba7f51f6cf").ok().unwrap(),
        "/doctor-who/63aba7f51f6cf"
    );
    let (page, download) = original_download_paths("a-b", "x1").ok().unwrap();
    assert_eq!(page, "/a-b/x1");
    assert_eq!(download, "/a-b/x1?do=download");
}

#[test]
fn empty_id_message_and_download_refusal() {
    match original_download_paths("slug", " \t") {
        Err(PrehrajtoError::InvalidId(msg)) => assert_eq!(msg, "Video ID cannot be empty"),
        _ => panic!("Expected InvalidId error"),
    }
    match search_request_path("") {
        Err(PrehrajtoError::InvalidId(msg)) => assert_eq!(msg, "Search query cannot be empty"),
        _ => panic!("Expected InvalidId error"),
    }
}
