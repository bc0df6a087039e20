use oaas::download::{
    download_action, may_attempt, partial_download_path, partial_path_from, range_header, DownloadAction,
};

#[test]
fn partial_download_path_suffix() {
    let p = partial_download_path("/home/u/.local/share/oaas/models/foo.gguf");
    assert!(p.ends_with("foo.gguf.part"));
}

#[test]
fn partial_path_is_beside_destination() {
    assert_eq!(partial_download_path("/data/models/m.gguf"), "/data/models/m.gguf.part");
    assert_eq!(partial_path_from(None, None), "./download.part");
    assert_eq!(partial_path_from(Some("x".to_string()), Some("/d".to_string())), "/d/x.part");
}

#[test]
fn range_header_only_when_resuming() {
    assert_eq!(range_header(0), None);
    assert_eq!(range_header(1234).as_deref(), Some("bytes=1234-"));
}

#[test]
fn answers_decide_the_download() {
    assert_eq!(download_action(10, 416), DownloadAction::RetryWithoutPart);
    assert_eq!(download_action(0, 404), DownloadAction::Fail);
    assert_eq!(download_action(10, 206), DownloadAction::Write { append: true, discard_part: false });
    assert_eq!(download_action(10, 200), DownloadAction::Write { append: false, discard_part: true });
    assert_eq!(download_action(0, 200), DownloadAction::Write { append: false, discard_part: false });
    assert_eq!(download_action(0, 206), DownloadAction::Write { append: false, discard_part: false });
}

#[test]
fn eight_attempts_at_most() {
    assert!(may_attempt(0));
    assert!(may_attempt(7));
    assert!(!may_attempt(8));
}
