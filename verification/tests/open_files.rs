use gangplank::open_files::{is_decodable, url_to_path, Inbox};
use std::path::PathBuf;

#[test]
fn decodes_file_urls() {
    assert_eq!(url_to_path("file:///Users/x/my%20data.csv").unwrap(), PathBuf::from("/Users/x/my data.csv"));
    assert_eq!(url_to_path("file:///a/b.csv").unwrap(), PathBuf::from("/a/b.csv"));
    assert_eq!(url_to_path("csvgrid://open").unwrap(), PathBuf::from("csvgrid://open"));
    assert_eq!(url_to_path("file:///100%25.csv").unwrap(), PathBuf::from("/100%.csv"));
}

#[test]
fn buffers_until_a_handler_exists() {
    let mut files = Inbox::new(Vec::new());
    assert_eq!(files.deliver(vec![PathBuf::from("/a")]), None);
    assert_eq!(files.deliver(vec![PathBuf::from("/b")]), None);
    assert_eq!(files.buffered_len(), 2);
}

#[test]
fn early_paths_reach_the_view() {
    let mut files = Inbox::new(Vec::new());
    files.deliver(vec![PathBuf::from("/early.csv")]);
    files.set_ready();
    assert_eq!(files.set_handler(), Some(vec![PathBuf::from("/early.csv")]));
    assert_eq!(
        files.deliver(vec![PathBuf::from("/late.csv")]),
        Some(vec![PathBuf::from("/late.csv")]),
        "live delivery after the view exists"
    );
    assert_eq!(files.buffered_len(), 0);
    assert_eq!(files.deliver(Vec::new()), None);
}

#[test]
fn bad_escapes_pass_through_and_invalid_utf8_is_refused() {
    assert_eq!(url_to_path("file:///a%zzb").unwrap(), PathBuf::from("/a%zzb"));
    assert_eq!(url_to_path("file:///end%2").unwrap(), PathBuf::from("/end%2"));
    assert_eq!(url_to_path("file:///%C3%A9").unwrap(), PathBuf::from("/é"));
    assert_eq!(url_to_path("file:///%FF"), None);
    assert!(is_decodable("file:///x%20y"));
    assert!(is_decodable("file:///%éa"));
    assert!(!is_decodable("file:///%aé"));
    assert!(is_decodable("csvgrid://%aé"));
}

#[test]
fn argv_paths_wait_in_the_inbox() {
    let mut files = Inbox::new(vec![PathBuf::from("/argv.csv")]);
    assert_eq!(files.buffered_len(), 1);
    assert_eq!(files.set_handler(), Some(vec![PathBuf::from("/argv.csv")]));
    assert_eq!(files.set_handler(), None);
}
