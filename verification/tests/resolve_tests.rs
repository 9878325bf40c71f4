use prehrajto_core::fetch::{FetchState, FetchStep};
use prehrajto_core::resolve::resolve_reference;

const BASE: &str = "https://prehraj.to/a/b?q=1#f";

#[test]
fn absolute_location_is_kept() {
    assert_eq!(resolve_reference(BASE, "https://other.example/x"), "https://other.example/x");
    assert_eq!(resolve_reference(BASE, "HTTP://X/y"), "HTTP://X/y");
}

#[test]
fn network_path_keeps_scheme() {
    assert_eq!(resolve_reference(BASE, "//cdn.example/v"), "https://cdn.example/v");
}

#[test]
fn absolute_path_keeps_scheme_and_host() {
    assert_eq!(resolve_reference(BASE, "/b"), "https://prehraj.to/b");
    assert_eq!(resolve_reference("https://prehraj.to", "/b"), "https://prehraj.to/b");
    assert_eq!(resolve_reference("https://prehraj.to:8443/x?y", "/z"), "https://prehraj.to:8443/z");
}

#[test]
fn query_and_fragment_references() {
    assert_eq!(resolve_reference(BASE, "?p=2"), "https://prehraj.to/a/b?p=2");
    assert_eq!(resolve_reference(BASE, "#top"), "https://prehraj.to/a/b?q=1#top");
    assert_eq!(resolve_reference(BASE, ""), "https://prehraj.to/a/b?q=1");
}

#[test]
fn relative_path_replaces_last_segment() {
    assert_eq!(resolve_reference(BASE, "c"), "https://prehraj.to/a/c");
    assert_eq!(resolve_reference("https://prehraj.to", "c"), "https://prehraj.to/c");
    assert_eq!(resolve_reference("https://prehraj.to/x/?a=/b", "c"), "https://prehraj.to/x/c");
}

#[test]
fn fetch_follows_relative_redirect_on_the_site() {
    let mut s = FetchState::new(String::from("https://prehraj.to/a"));
    assert!(matches!(s.on_response(302, Some("/b")), FetchStep::Follow));
    assert_eq!(s.current_url(), "https://prehraj.to/b");
    assert!(matches!(s.on_response(200, None), FetchStep::ReadBody));
}
