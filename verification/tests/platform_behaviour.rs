use glycerin::compositing::{target_fps, z_order};
use glycerin::engine::{network_event_line, Color, Paint, ProxyRotation, TextLayoutEngine};
use glycerin::js_engine::{classify_script, DomBindings, JsConsole, ScriptKind, TimerApi};
use glycerin::rendering::{extract_attr, parse_document, style_selectors};
use glycerin::services::{ImeEngine, PasswordManager, SharedTab, SyncEngine, TabSyncManager, TextDirection, TextEngine};
use glycerin::webplatform::{
    CachedResponse, DevToolsServer, IndexedDbManager, SecurityManager, ServiceWorkerManager, WasiEnvironment,
    WebGpuEngine, WebRtcEngine,
};

#[test]
fn proxies_rotate_through_the_pool() {
    let mut r = ProxyRotation::new();
    let seen: Vec<&str> = (0..6).map(|_| r.get_next_proxy()).collect();
    assert_eq!(seen[0], "192.168.1.100:8080");
    assert_eq!(seen[4], "192.168.1.104:8080");
    assert_eq!(seen[5], seen[0]);
}

#[test]
fn wasm_modules_need_the_magic_number() {
    let mut engine = TextLayoutEngine::new();
    assert_eq!(engine.register_module("a.wasm", vec![0, 0x61, 0x73, 0x6d, 1]), Ok(()));
    assert_eq!(engine.register_module("b.wasm", vec![1, 2, 3, 4]), Err("Invalid WASM module"));
    assert_eq!(engine.register_module("c.wasm", vec![0, 0x61]), Err("Invalid WASM module"));
    let _ = Paint::new(Color::from_argb(255, 0, 0, 0), None);
}

#[test]
fn network_event_lines() {
    assert_eq!(network_event_line("https://a.b", true, 1024), "NET:https://a.b:OK:1024");
    assert_eq!(network_event_line("x", false, 0), "NET:x:ERR:0");
}

#[test]
fn console_and_dom_bindings() {
    let mut console = JsConsole::new();
    console.log("a".to_string());
    console.warn("b".to_string());
    console.error("c".to_string());
    assert_eq!(console.get_logs(), vec!["a", "WARN: b", "ERROR: c"]);
    console.clear();
    assert!(console.get_logs().is_empty());

    let mut dom = DomBindings::new();
    assert_eq!(dom.create_element("div".to_string()), "elem_0");
    assert_eq!(dom.create_element("p".to_string()), "elem_1");
    assert_eq!(dom.query_selector(".x".to_string()), Some("element_for_.x".to_string()));
    assert_eq!(dom.get_element_by_id("main".to_string()), Some("main".to_string()));
    assert!(dom.query_selector_all("p".to_string()).is_empty());
    dom.set_title("T".to_string());
    assert_eq!(dom.get_title(), "T");
}

#[test]
fn timers_get_fresh_ids_and_clear_one_at_a_time() {
    let mut timers = TimerApi::new();
    let a = timers.set_timeout(String::new(), 10);
    let b = timers.set_interval(String::new(), 20);
    assert_eq!((a, b), (1, 2));
    timers.clear_interval(a);
    assert_eq!(timers.get_active_timers(), vec![2]);
    timers.clear_timeout(99);
    assert_eq!(timers.get_active_timers(), vec![2]);
}

#[test]
fn scripts_are_classified_in_order() {
    assert_eq!(classify_script("2 + 2; console.log(1)"), ScriptKind::Arithmetic);
    assert_eq!(classify_script("clearInterval(3)"), ScriptKind::ClearTimers);
    assert_eq!(classify_script("let x = 1"), ScriptKind::Unknown);
}

#[test]
fn documents_are_parsed_tag_by_tag() {
    let doc = parse_document("<html><body><div id=\"main\" class=\"a b\"><p>x</p></div><header></header></body></html>");
    let tags: Vec<&str> = doc.elements.iter().map(|e| e.tag_name.as_str()).collect();
    assert_eq!(tags, vec!["html", "head", "body", "header", "div", "p"]);
    let div = &doc.elements[4];
    assert_eq!(div.id.as_deref(), Some("main"));
    assert_eq!(div.classes, vec!["a", "b"]);
    assert_eq!(extract_attr("<a href=\"x\" id=\"y\"", "id"), Some("y".to_string()));
    assert_eq!(extract_attr("<a id=\"y", "id"), None);
}

#[test]
fn style_sheets_name_their_selectors() {
    assert_eq!(style_selectors("   "), vec!["default"]);
    assert_eq!(style_selectors(".container { color: red; }"), vec![".container"]);
    assert_eq!(style_selectors("a { x } b { y } c { z }"), vec!["a", "y } c"]);
}

#[test]
fn object_stores_keep_what_is_put() {
    let mut db = IndexedDbManager::new();
    db.put("D", "S", "k", b"lost");
    assert_eq!(db.get("D", "S", "k"), None);
    db.open("D", 1).unwrap();
    db.create_object_store("D", "S", Some("id"));
    db.put("D", "S", "k", b"v1");
    db.put("D", "S", "k", b"v2");
    assert_eq!(db.get("D", "S", "k"), Some(b"v2".to_vec()));
    assert_eq!(db.get("D", "T", "k"), None);
}

#[test]
fn caches_match_what_is_put() {
    let mut sw = ServiceWorkerManager::new();
    sw.register("/app/", "/sw.js");
    let response = CachedResponse {
        url: "https://e.com/a.js".to_string(),
        status: 200,
        headers: vec![("content-type".to_string(), "text/javascript".to_string())],
        body: b"x".to_vec(),
        timestamp: 1,
    };
    sw.cache_put("c", "https://e.com/a.js", response);
    let hit = sw.cache_match("c", "https://e.com/a.js").unwrap();
    assert_eq!(hit.status, 200);
    assert_eq!(hit.body, b"x".to_vec());
    assert!(sw.cache_match("c", "https://e.com/b.js").is_none());
    assert!(sw.cache_match("d", "https://e.com/a.js").is_none());
    assert!(sw.process_background_sync().is_empty());
}

#[test]
fn wasi_streams() {
    let mut env = WasiEnvironment::new();
    assert_eq!(env.fd_write(1, b"Hello"), 5);
    assert_eq!(env.fd_write(2, b"err"), 3);
    assert_eq!(env.fd_write(7, b"x"), 0);
    let mut buf = [9u8; 4];
    assert_eq!(env.fd_read(0, &mut buf), 0);
    assert_eq!(buf, [9u8; 4]);
}

#[test]
fn gpu_buffers_are_written_when_the_data_fits() {
    let mut gpu = WebGpuEngine::new();
    gpu.create_buffer("b", 4, 0);
    gpu.write_buffer("b", 1, &[7, 8]);
    assert_eq!(gpu.buffer_contents("b"), Some(vec![0, 7, 8, 0]));
    gpu.write_buffer("b", 3, &[1, 2]);
    assert_eq!(gpu.buffer_contents("b"), Some(vec![0, 7, 8, 0]));
    gpu.write_buffer("missing", 0, &[1]);
    assert_eq!(gpu.buffer_contents("missing"), None);
    gpu.create_compute_pipeline("p", "code", "main");
}

#[test]
fn webrtc_offers_for_known_connections() {
    let mut rtc = WebRtcEngine::new();
    let pc = rtc.create_peer_connection("{}");
    assert_eq!(pc.len(), 36);
    let offer = rtc.create_offer(&pc).unwrap();
    assert_eq!(offer.sdp_type, "offer");
    assert!(rtc.create_offer("nope").is_none());
    let dc = rtc.create_data_channel(&pc, "chat");
    rtc.send_data(&dc, b"hello");
}

#[test]
fn devtools_server_and_request_blocking() {
    let mut server = DevToolsServer::new(9222);
    assert_eq!(server.evaluate_js("1+1"), "Evaluated: 1+1");
    server.set_breakpoint(glycerin::webplatform::Breakpoint {
        url: "a.js".to_string(),
        line: 1,
        column: 0,
        condition: None,
    });
    let security = SecurityManager::new();
    assert!(security.should_block_request("https://www.google-analytics.com/collect"));
    assert!(!security.should_block_request("https://example.com"));
    assert!(security.check_url_safety("https://example.com"));
}

#[test]
fn text_direction_and_input_method() {
    let text = TextEngine::new();
    assert_eq!(text.resolve_direction("hello"), TextDirection::Ltr);
    assert_eq!(text.resolve_direction("abc \u{05D0}"), TextDirection::Rtl);
    assert_eq!(text.resolve_direction("\u{0627}"), TextDirection::Rtl);
    assert_eq!(text.shape_text("hi", &TextDirection::Ltr)[0].font, "Inter");

    let mut ime = ImeEngine::new();
    ime.input_char('x');
    ime.start_composition();
    ime.input_char('n');
    ime.input_char('i');
    assert_eq!(ime.commit(), "ni");
    assert_eq!(ime.commit(), "");
}

#[test]
fn sealed_changes_open_again() {
    let sync = SyncEngine::new("device");
    let sealed = sync.encrypt_data(b"Hello").unwrap();
    assert_eq!(sealed, b"SGVsbG8=".to_vec());
    assert_eq!(sync.decrypt_data(&sealed).unwrap(), b"Hello".to_vec());
    assert_eq!(sync.decrypt_data(b"@@@").err(), Some("Invalid base64".to_string()));
    let mut sync = sync;
    sync.queue_change(glycerin::services::EntityType::Bookmark, glycerin::services::Operation::Create, b"x");
    let uploads = sync.sync_now();
    assert_eq!(uploads, vec![Ok("bookmark")]);
}

#[test]
fn passwords_are_kept_by_domain() {
    let mut vault = PasswordManager::new();
    assert!(vault.get_password("github.com").is_none());
    vault.add_password("github.com", "me", "s3cret");
    vault.add_password("github.com", "me", "n3w");
    assert_eq!(vault.get_password("github.com"), Some(("me".to_string(), "n3w".to_string())));
    vault.set_master_password("SecurePassword123");
    assert_eq!(
        vault.master_hash_text(),
        Some("JFsi3Ok4BR78KM9DZJKPom4XHbE5dVMRqTcDumX9bQc=".to_string())
    );
    assert!(vault.check_breach("example.com"));
    assert!(!vault.check_breach("github.com"));
}

#[test]
fn tabs_are_shared_to_known_devices() {
    let mut sync = TabSyncManager::new();
    sync.register_device("d1", "Phone", "mobile");
    let tab = SharedTab { id: 1, url: "https://github.com".to_string(), title: "GitHub".to_string(), favicon: Some(vec![1]) };
    sync.share_tab(&tab, "d1");
    sync.share_tab(&tab, "unknown");
    let tabs = sync.get_remote_tabs("d1");
    assert_eq!(tabs.len(), 1);
    assert_eq!(tabs[0].title, "GitHub");
    assert_eq!(tabs[0].favicon.as_deref(), Some("data:image/png;base64,..."));
    assert!(sync.get_remote_tabs("unknown").is_empty());
    sync.start_sync_session();
}

#[test]
fn layers_stack_by_z_index_keeping_ties_in_order() {
    assert_eq!(z_order(&vec![3, 1, 2, 1]), vec![1, 3, 2, 0]);
    assert_eq!(z_order(&vec![]), Vec::<usize>::new());
    assert_eq!(target_fps(10), 30);
    assert_eq!(target_fps(60), 60);
    assert_eq!(target_fps(500), 144);
}

#[test]
fn searches_go_to_the_html_endpoint_through_the_proxy() {
    assert_eq!(
        glycerin::engine::search_url("rust verus", "192.168.1.100:8080"),
        "https://duckduckgo.com/html/?q=rust verus&proxy=192.168.1.100:8080"
    );
    assert_eq!(glycerin::engine::search_url("", ""), "https://duckduckgo.com/html/?q=&proxy=");
}

#[test]
fn cleared_timer_ids_are_not_given_out_again() {
    let mut timers = TimerApi::new();
    let a = timers.set_timeout(String::new(), 10);
    let b = timers.set_interval(String::new(), 10);
    timers.clear_timeout(a);
    timers.clear_interval(b);
    assert!(timers.get_active_timers().is_empty());
    let c = timers.set_timeout(String::new(), 10);
    assert!(c != a && c != b);
    assert_eq!(c, 3);
    assert_eq!(timers.get_active_timers(), vec![3]);
}
