use glycerin::devtools::{route_message, DevToolsMessage, DevToolsReply, FindInPage, METHOD_NOT_FOUND};
use glycerin::encoding::base64_encode;
use glycerin::extensions::{ContentScript, ExtensionEngine, ExtensionError, ExtensionManifest, RunAt, url_matches_pattern};
use glycerin::persistence::{Cookie, DatabaseManager};
use glycerin::shell::{BrowserShell, Message};
use std::path::PathBuf;

#[test]
fn find_then_previous_returns_to_the_same_match() {
    let mut finder = FindInPage::new();
    assert_eq!(finder.find("abcabcabc", "abc", true), 3);
    assert_eq!(finder.next_match().unwrap().start_offset, 0);
    assert_eq!(finder.next_match().unwrap().start_offset, 3);
    assert_eq!(finder.previous_match().unwrap().start_offset, 0);
    // previous from the first match wraps to the last one
    assert_eq!(finder.previous_match().unwrap().start_offset, 6);
    assert_eq!(finder.next_match().unwrap().start_offset, 0);
}

#[test]
fn find_counts_overlapping_matches_and_keeps_original_case() {
    let mut finder = FindInPage::new();
    assert_eq!(finder.find("AAAA", "aa", false), 3);
    let m = finder.next_match().unwrap();
    assert_eq!(m.text, "AA");
    assert_eq!(m.end_offset, 2);
    assert_eq!(finder.find("AAAA", "aa", true), 0);
    assert!(finder.next_match().is_none());
    assert!(finder.previous_match().is_none());
}

#[test]
fn find_offsets_count_bytes_of_the_page_text() {
    let mut finder = FindInPage::new();
    assert_eq!(finder.find("h\u{e9}llo hello", "hello", true), 1);
    let m = finder.next_match().unwrap();
    assert_eq!(m.start_offset, 7);
    assert_eq!(m.end_offset, 12);
    assert_eq!(m.text, "hello");
    assert_eq!(finder.find("Caf\u{e9} CAF\u{c9}", "caf\u{e9}", false), 2);
    assert_eq!(finder.next_match().unwrap().text, "Caf\u{e9}");
    let second = finder.next_match().unwrap();
    assert_eq!(second.text, "CAF\u{c9}");
    assert_eq!(second.start_offset, 6);
}

#[test]
fn devtools_routing_answers_known_methods_and_refuses_others() {
    assert!(matches!(route_message(&DevToolsMessage::DomEnable { id: 7 }), DevToolsReply::Empty { id: 7 }));
    assert!(matches!(
        route_message(&DevToolsMessage::DomGetDocument { id: 8, depth: 1 }),
        DevToolsReply::Document { id: 8 }
    ));
    assert!(matches!(
        route_message(&DevToolsMessage::RuntimeEvaluate { id: 9, expression: "1".to_string() }),
        DevToolsReply::Evaluation { id: 9 }
    ));
    match route_message(&DevToolsMessage::NetworkEnable { id: 5 }) {
        DevToolsReply::Failure { id, error } => {
            assert_eq!(id, 0);
            assert_eq!(error.code, METHOD_NOT_FOUND);
            assert_eq!(error.message, "Method not found");
        }
        _ => panic!("expected a failure"),
    }
}

#[test]
fn base64_of_each_padding_length() {
    assert_eq!(base64_encode(b"M"), "TQ==");
    assert_eq!(base64_encode(b"Ma"), "TWE=");
    assert_eq!(base64_encode(b"Man"), "TWFu");
    assert_eq!(base64_encode(&[0xff, 0xfe, 0xfd]), "//79");
    // four output characters for every started group of three bytes
    assert_eq!(base64_encode(b"Hello, world").len(), 16);
}

#[test]
fn history_is_recorded_searched_limited_and_cleared() {
    let mut db = DatabaseManager::new(PathBuf::from("unused.db")).unwrap();
    db.add_history_entry_at("https://example.com", "Example Domain", 10).unwrap();
    db.add_history_entry_at("https://rust-lang.org", "Rust", 20).unwrap();
    let all = db.get_history(10).unwrap();
    assert_eq!(all.len(), 2);
    assert_eq!(all[0].id, 1);
    assert_eq!(all[1].id, 2);
    assert_eq!(all[1].timestamp, 20);
    assert_eq!(all[0].visit_count, 1);
    assert_eq!(db.get_history(1).unwrap().len(), 1);
    let hits = db.search_history("Rust", 10).unwrap();
    assert_eq!(hits.len(), 1);
    assert_eq!(hits[0].url, "https://rust-lang.org");
    assert_eq!(db.search_history("nothing", 10).unwrap().len(), 0);
    db.clear_history().unwrap();
    assert_eq!(db.get_history(10).unwrap().len(), 0);
}

#[test]
fn bookmarks_cookies_and_sessions_round_trip() {
    let mut db = DatabaseManager::new(PathBuf::from("unused.db")).unwrap();
    assert_eq!(db.add_bookmark("https://rust-lang.org", "Rust", "Favorites").unwrap(), 1);
    assert_eq!(db.add_bookmark("https://docs.rs", "Docs", "Work").unwrap(), 2);
    assert_eq!(db.get_bookmarks(None).unwrap().len(), 2);
    let favs = db.get_bookmarks(Some("Favorites")).unwrap();
    assert_eq!(favs.len(), 1);
    assert_eq!(favs[0].position, 1);

    let cookie = Cookie {
        id: 1,
        name: "sid".to_string(),
        value: "abc".to_string(),
        domain: "www.example.com".to_string(),
        path: "/".to_string(),
        expires: None,
        secure: true,
        httponly: true,
    };
    db.set_cookie(&cookie).unwrap();
    assert_eq!(db.get_cookies_for_domain("example.com").unwrap().len(), 1);
    assert_eq!(db.get_cookies_for_domain("other.org").unwrap().len(), 0);

    db.save_session("main", "[1]", 0).unwrap();
    db.save_session("main", "[2]", 1).unwrap();
    let s = db.load_session("main").unwrap().unwrap();
    assert_eq!(s.tabs_json, "[2]");
    assert_eq!(s.active_tab_index, 1);
    assert!(db.load_session("other").unwrap().is_none());
    assert_eq!(db.get_all_sessions().unwrap().len(), 2);
}

#[test]
fn shell_new_tab_then_close_restores_the_tabs() {
    let mut shell = BrowserShell::new();
    assert_eq!(shell.tabs().len(), 1);
    assert_eq!(shell.active_tab_id(), Some(0));
    shell.update(Message::NewTab);
    assert_eq!(shell.tabs().len(), 2);
    assert_eq!(shell.active_tab_id(), Some(1));
    shell.update(Message::CloseTab(1));
    assert_eq!(shell.tabs().len(), 1);
    assert_eq!(shell.tabs()[&0].id, 0);
}

#[test]
fn shell_select_shows_the_tab_url_and_closing_the_last_tab_opens_a_blank_one() {
    let mut shell = BrowserShell::new();
    shell.update(Message::UrlSubmitted("https://example.com".to_string()));
    assert!(shell.tabs()[&0].is_loading);
    assert!(shell.tabs()[&0].can_go_back);
    shell.update(Message::NewTab);
    shell.update(Message::TabSelected(0));
    assert_eq!(shell.url_bar_text(), "https://example.com");
    shell.update(Message::WindowResized(800, 600));
    assert_eq!(shell.window_size(), (800, 600));
    shell.update(Message::CloseTab(0));
    shell.update(Message::CloseTab(1));
    assert_eq!(shell.tabs().len(), 1);
    assert_eq!(shell.tabs()[&2].url, "about:blank");
    assert_eq!(shell.active_tab_id(), Some(2));
}

fn manifest(id: &str, pattern: &str, js: &str) -> ExtensionManifest {
    ExtensionManifest {
        id: id.to_string(),
        name: "Test".to_string(),
        version: "1.0".to_string(),
        description: String::new(),
        permissions: Vec::new(),
        background_script: None,
        content_scripts: vec![ContentScript {
            matches: vec![pattern.to_string()],
            js_file: js.to_string(),
            css_file: None,
            run_at: RunAt::DocumentEnd,
        }],
    }
}

#[test]
fn installed_extension_is_found_and_injects_matching_scripts() {
    let mut engine = ExtensionEngine::new().ok().unwrap();
    engine.install(manifest("a", "<all_urls>", "a.js"), None).ok().unwrap();
    engine.install(manifest("b", "*example*", "b.js"), None).ok().unwrap();
    assert!(engine.is_installed("a"));
    assert!(!engine.is_installed("c"));
    assert_eq!(engine.get_injectable_scripts("https://example.com"), vec!["a.js", "b.js"]);
    assert_eq!(engine.get_injectable_scripts("https://other.org"), vec!["a.js"]);
    // reinstalling under the same id replaces the extension
    engine.install(manifest("a", "*nothing*", "a2.js"), None).ok().unwrap();
    assert_eq!(engine.get_injectable_scripts("https://example.com"), vec!["b.js"]);
}

#[test]
fn activating_an_unknown_extension_fails() {
    let mut engine = ExtensionEngine::new().ok().unwrap();
    match engine.activate("missing", 1, "https://example.com") {
        Err(e) => {
            assert!(matches!(e, ExtensionError::NotFound));
            assert_eq!(e.message(), "Extension not found");
        }
        Ok(()) => panic!("expected NotFound"),
    }
    engine.install(manifest("a", "<all_urls>", "a.js"), None).ok().unwrap();
    assert!(engine.activate("a", 1, "https://example.com").is_ok());
    engine.disable("a");
}

#[test]
fn url_patterns() {
    assert!(url_matches_pattern("anything", "<all_urls>"));
    assert!(url_matches_pattern("anything", "*://*/*"));
    assert!(url_matches_pattern("https://news.example.com/x", "*example.com*"));
    assert!(!url_matches_pattern("https://example.org", "*example.com*"));
}

#[test]
fn timestamps_given_to_the_store_are_kept() {
    let mut db = DatabaseManager::new(PathBuf::from("unused.db")).unwrap();
    assert_eq!(db.add_bookmark_at("https://a.org", "A", "F", 1_700_000_000).unwrap(), 1);
    assert_eq!(db.get_bookmarks(None).unwrap()[0].date_added, 1_700_000_000);
    db.save_session_at("w1", "tabs-v1", 0, 10).unwrap();
    db.save_session_at("w2", "other", 3, 11).unwrap();
    db.save_session_at("w1", "tabs-v2", 1, 12).unwrap();
    let s = db.load_session("w1").unwrap().unwrap();
    assert_eq!(s.tabs_json, "tabs-v2");
    assert_eq!(s.active_tab_index, 1);
    assert_eq!(s.timestamp, 12);
    assert_eq!(db.load_session("w2").unwrap().unwrap().tabs_json, "other");
    assert!(db.load_session("w3").unwrap().is_none());
}

#[test]
fn tab_labels_fall_back_to_new_tab() {
    let shell = BrowserShell::new();
    assert_eq!(shell.tabs()[&0].label(), "New Tab");
    let mut tab = shell.tabs()[&0].clone();
    tab.title = String::new();
    assert_eq!(tab.label(), "New Tab");
    tab.title = "Docs".to_string();
    assert_eq!(tab.label(), "Docs");
}

#[test]
fn closing_the_active_tab_activates_an_open_one() {
    let mut shell = BrowserShell::new();
    shell.update(Message::NewTab);
    shell.update(Message::NewTab);
    assert_eq!(shell.tab_count(), 3);
    shell.update(Message::CloseTab(2));
    let active = shell.active_tab_id().unwrap();
    assert!(shell.tab(active).is_some());
    assert!(shell.tab(2).is_none());
    assert_eq!(shell.tab_count(), 2);
    shell.update(Message::CloseTab(7));
    assert_eq!(shell.tab_count(), 2);
    assert_eq!(shell.active_tab_id(), Some(active));
}
