use prehrajto_core::download::{DownloadAction, DownloadFlow};
use prehrajto_core::PrehrajtoError;

const URL: &str = "https://prehraj.to/a/b?do=download";

#[test]
fn cold_session_warms_up_first() {
    let (mut flow, action) = DownloadFlow::begin(false);
    assert!(matches!(action, DownloadAction::WarmUp));
    assert!(matches!(flow.after_warmup(), DownloadAction::FetchDownloadPage));
    match flow.after_download_page(String::from("<a href=\"https://x.premiumcdn.net/f.mkv\">"), URL) {
        DownloadAction::Finish(Ok(page)) => assert!(page.contains("premiumcdn.net")),
        _ => panic!("expected the page"),
    }
}

#[test]
fn warm_session_skips_warmup() {
    let (mut flow, action) = DownloadFlow::begin(true);
    assert!(matches!(action, DownloadAction::FetchDownloadPage));
    assert!(matches!(
        flow.after_download_page(String::from("premiumcdn.net"), URL),
        DownloadAction::Finish(Ok(_))
    ));
}

#[test]
fn lapsed_session_is_warmed_again_once() {
    let (mut flow, _) = DownloadFlow::begin(true);
    assert!(matches!(
        flow.after_download_page(String::from("<html>no link</html>"), URL),
        DownloadAction::WarmUp
    ));
    assert!(flow.wants_warmup());
    assert!(matches!(flow.after_warmup(), DownloadAction::FetchDownloadPage));
    assert!(flow.wants_page());
    match flow.after_download_page(String::from("<html>still none</html>"), URL) {
        DownloadAction::Finish(Err(PrehrajtoError::NotFound(u))) => assert_eq!(u, URL),
        _ => panic!("expected NotFound"),
    }
    assert!(!flow.wants_page());
    assert!(!flow.wants_warmup());
}

#[test]
fn flow_reports_what_it_waits_for() {
    let (flow, _) = DownloadFlow::begin(false);
    assert!(flow.wants_warmup());
    assert!(!flow.wants_page());
}

#[test]
fn second_try_can_succeed() {
    let (mut flow, _) = DownloadFlow::begin(false);
    flow.after_warmup();
    assert!(matches!(flow.after_download_page(String::new(), URL), DownloadAction::WarmUp));
    flow.after_warmup();
    assert!(matches!(
        flow.after_download_page(String::from("https://cdn.premiumcdn.net/x"), URL),
        DownloadAction::Finish(Ok(_))
    ));
}
