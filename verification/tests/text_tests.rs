use prehrajto_core::session::session_cookie;
use prehrajto_core::text::{contains, push_i32, strip_prefix_or_self, trimmed};
use prehrajto_core::url::{build_search_url, site_url, BASE_URL};

#[test]
fn trimming_matches_std() {
    for s in ["", "  ", " a ", "a", "\u{2003}x y\u{3000}", "\u{200b}z", "tab\t"] {
        assert_eq!(trimmed(s), s.trim());
    }
}

#[test]
fn substring_search() {
    assert!(contains("https://cdn1.premiumcdn.net/file.mp4", "premiumcdn.net"));
    assert!(!contains("https://prehraj.to/video/1", "premiumcdn.net"));
    assert!(contains("abc", ""));
    assert!(!contains("ab", "abc"));
    assert!(contains("premiumcdn.net", "premiumcdn.net"));
}

#[test]
fn prefix_stripping() {
    assert_eq!(strip_prefix_or_self("https://prehraj.to/hledej/x", BASE_URL), "/hledej/x");
    assert_eq!(strip_prefix_or_self("/other", BASE_URL), "/other");
}

#[test]
fn urls_on_the_site() {
    assert_eq!(site_url("/a/b"), "https://prehraj.to/a/b");
    assert_eq!(build_search_url("a b"), "https://prehraj.to/hledej/a%20b");
}

#[test]
fn decimal_formatting() {
    let mut s = String::from("y=");
    push_i32(&mut s, 2147483647);
    assert_eq!(s, "y=2147483647");
}

#[test]
fn session_cookie_from_token() {
    assert_eq!(
        session_cookie(Some("  abc  ")),
        Some("refresh_token=abc; Domain=prehraj.to; Path=/".to_string())
    );
    assert_eq!(session_cookie(Some("   ")), None);
    assert_eq!(session_cookie(None), None);
}
