use file_sync::cancel::TransferManager;
use file_sync::discovery::{
    address_found, address_in_page, begin_discovery, describe_failure, Discovery, FetchFailure,
};
use file_sync::history::{
    get_upload_history, history_from_pairs, remove_upload_history, save_upload_history,
};
use file_sync::local::{finish_local_removal, plan_local_removal, plan_opening, Opening};
use file_sync::server::Removal;

fn text(s: &str) -> String {
    s.to_string()
}

#[test]
fn transfers_are_cancelled_by_path() {
    let mut m = TransferManager::default();
    let a = m.begin(text("a"));
    let b = m.begin(text("b"));
    assert_ne!(a, b);
    assert!(!m.is_cancelled(a) && !m.is_cancelled(b));
    m.cancel_transfer("a");
    m.cancel_transfer("missing");
    assert!(m.is_cancelled(a) && !m.is_cancelled(b));
    m.cancel_transfer("b");
    assert!(m.is_cancelled(a) && m.is_cancelled(b));
    m.end("a", a);
    assert!(!m.is_cancelled(a) && m.is_cancelled(b));
    m.cancel_transfer("a");
    assert!(!m.is_cancelled(a));
}

#[test]
fn a_new_transfer_under_the_same_path_is_not_cancelled() {
    let mut m = TransferManager::default();
    let first = m.begin(text("a"));
    m.cancel_transfer("a");
    let second = m.begin(text("a"));
    assert!(m.is_cancelled(first) && !m.is_cancelled(second));
    m.cancel_transfer("a");
    assert!(m.is_cancelled(second));
}

#[test]
fn an_ended_transfer_takes_its_path_away() {
    let mut m = TransferManager::default();
    let first = m.begin(text("a"));
    let second = m.begin(text("a"));
    m.end("a", first);
    m.cancel_transfer("a");
    assert!(!m.is_cancelled(second));
}

#[test]
fn the_server_is_looked_for() {
    match begin_discovery(None) {
        Discovery::Known(name) => assert_eq!(name, "w4090"),
        _ => panic!(),
    }
    match begin_discovery(Some(text("http://x"))) {
        Discovery::Fetch(url) => assert_eq!(url, "http://x"),
        _ => panic!(),
    }
    assert_eq!(describe_failure(&FetchFailure::Request(text("e"))), "失敗: e");
    assert_eq!(describe_failure(&FetchFailure::Body(text("e"))), "テキスト失敗: e");
}

#[test]
fn the_first_address_in_a_page_is_taken() {
    assert_eq!(address_in_page("<p>1.2.3.4</p> 5.6.7.8"), Ok(text("1.2.3.4")));
    assert_eq!(address_in_page("v1.2 at 192.168.100.200!"), Ok(text("192.168.100.200")));
    assert_eq!(address_in_page("1234.5.6.7"), Ok(text("234.5.6.7")));
    assert_eq!(address_in_page("999.999.999.9999"), Ok(text("999.999.999.999")));
    assert_eq!(address_in_page("1.2.3"), Err("err regex"));
    assert_eq!(address_in_page(""), Err("err regex"));
    assert_eq!(address_found(Some(text("9.9.9.9"))), Ok(text("9.9.9.9")));
    assert_eq!(address_found(None), Err("err regex"));
}

#[test]
fn saved_uploads_are_in_the_history() {
    let one = save_upload_history(&None, text("r/a"), text("C:\\a \"x\"\n")).unwrap();
    let two = save_upload_history(&Some(one.clone()), text("r/b"), text("日本")).unwrap();
    let h = get_upload_history(&Some(two.clone()));
    assert_eq!(h.get("r/a"), Some(&text("C:\\a \"x\"\n")));
    assert_eq!(h.get("r/b"), Some(&text("日本")));
    assert_eq!(h.keys().len(), 2);
    let again = save_upload_history(&Some(two.clone()), text("r/a"), text("D:\\a")).unwrap();
    assert_eq!(get_upload_history(&Some(again)).get("r/a"), Some(&text("D:\\a")));
    let replaced = save_upload_history(&Some(two.clone()), text("r/a"), text("D:\\a")).unwrap();
    let gone = remove_upload_history(&Some(replaced), "r/a").unwrap();
    let h = get_upload_history(&Some(gone));
    assert!(h.get("r/a").is_none());
    assert_eq!(h.get("r/b"), Some(&text("日本")));
    assert_eq!(remove_upload_history(&Some(two.clone()), "r/c"), None);
    let left = remove_upload_history(&Some(two), "r/a").unwrap();
    let h = get_upload_history(&Some(left));
    assert!(h.get("r/a").is_none());
    assert_eq!(h.get("r/b"), Some(&text("日本")));
    assert_eq!(one, "{\n  \"r/a\": \"C:\\\\a \\\"x\\\"\\n\"\n}");
}

#[test]
fn unreadable_histories_are_empty() {
    assert!(get_upload_history(&None).keys().is_empty());
    for bad in ["", "x", "[]", "{\"a\":1}", "{\"a\":\"b\"", "{\"a\":\"b\"} x"] {
        assert!(get_upload_history(&Some(text(bad))).keys().is_empty());
        assert_eq!(remove_upload_history(&Some(text(bad)), "a"), None);
    }
    let h = get_upload_history(&Some(text("{\"a\":\"1\",\"a\":\"2\"}")));
    assert_eq!(h.get("a"), Some(&text("2")));
}

#[test]
fn parsed_pairs_make_a_history() {
    assert!(history_from_pairs(None).keys().is_empty());
    let h = history_from_pairs(Some(vec![(text("a"), text("1")), (text("a"), text("2"))]));
    assert_eq!(h.get("a"), Some(&text("2")));
}

#[test]
fn local_removals_are_planned() {
    assert_eq!(plan_local_removal(false, false), Err("ローカルにファイルが見つかりません"));
    assert_eq!(plan_local_removal(true, true), Ok(Removal::Tree));
    assert_eq!(plan_local_removal(true, false), Ok(Removal::File));
    assert_eq!(finish_local_removal(&None), Ok(()));
    assert_eq!(finish_local_removal(&Some(text("e"))), Err(text("削除失敗: e")));
}

fn opening(mode: &str, exists: bool, shows: bool) -> Result<String, &'static str> {
    plan_opening("a/b", mode, exists, shows).map(|o| match o {
        None => text("nothing"),
        Some(Opening::Reveal(p)) => format!("reveal {}", p),
        Some(Opening::Open(p)) => format!("open {}", p),
        Some(Opening::Parent) => text("parent"),
    })
}

#[test]
fn openings_are_planned() {
    assert_eq!(opening("reveal", true, true), Ok(text("reveal a\\b")));
    assert_eq!(opening("open", true, true), Ok(text("open a\\b")));
    assert_eq!(opening("dir", true, true), Ok(text("parent")));
    assert_eq!(opening("x", true, true), Err("不明なモードです"));
    assert_eq!(opening("x", true, false), Ok(text("nothing")));
    assert_eq!(opening("open", false, true), Err("ファイルが存在しません"));
}
