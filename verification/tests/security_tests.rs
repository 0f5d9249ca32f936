use glycerin::security::{ContentSecurityPolicy, ProcessIsolator, SafeBrowsingManager};

#[test]
fn test_csp_parsing() {
    let header = "default-src 'self'; script-src 'unsafe-inline' https://cdn.example.com";
    let policy = ContentSecurityPolicy::parse(header);

    assert!(policy.default_src.is_some());
    assert!(policy.script_src.is_some());
    assert_eq!(policy.report_uri, None);
}

#[test]
fn test_safe_browsing() {
    let mut manager = SafeBrowsingManager::new();
    manager.add_malicious_domain("malware-site.com");

    assert!(manager.is_safe("https://google.com"));
    assert!(!manager.is_safe("https://malware-site.com/payload"));
    assert!(!manager.is_safe("https://paypa1.com/phish"));
}

#[test]
fn test_process_isolation() {
    let isolator = ProcessIsolator::new(true);
    assert!(isolator.requires_new_process("https://a.com", "https://b.com"));
    assert!(!isolator.requires_new_process("https://a.com", "https://a.com/page"));
}
