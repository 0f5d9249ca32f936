use glycerin::security::{ContentSecurityPolicy, ProcessIsolator, SafeBrowsingManager, SandboxFlags, ALLOW_FORMS, ALLOW_SCRIPTS};

#[test]
fn csp_directives_are_read_case_insensitively() {
    let policy = ContentSecurityPolicy::parse("DEFAULT-SRC 'self'; img-src https://img.example.com; report-uri /csp; bogus x");
    assert_eq!(policy.default_src, Some(vec!["'self'".to_string()]));
    assert_eq!(policy.img_src, Some(vec!["https://img.example.com".to_string()]));
    assert_eq!(policy.report_uri, Some("/csp".to_string()));
    assert!(policy.script_src.is_none());
}

#[test]
fn csp_allows_by_governing_list() {
    let open = ContentSecurityPolicy::parse("");
    assert!(open.allows("script", "https://anything"));

    let policy = ContentSecurityPolicy::parse("default-src https://cdn.example.com; script-src 'unsafe-inline'");
    assert!(policy.allows("script", "https://evil.org/x.js"));
    assert!(!policy.allows("style", "https://evil.org/x.css"));
    assert!(policy.allows("style", "https://cdn.example.com/x.css"));
    assert!(policy.allows("image", "https://cdn.example.com/x.png"));

    let self_only = ContentSecurityPolicy::parse("default-src 'self'");
    assert!(self_only.allows("xhr", "https://anywhere.org"));
}

#[test]
fn csp_apply_directive_takes_the_lowercased_name() {
    let mut policy = ContentSecurityPolicy::parse("");
    policy.apply_directive("connect-src", vec!["https://api.example.com".to_string()]);
    assert!(policy.allows("xhr", "https://api.example.com/v1"));
    assert!(!policy.allows("xhr", "https://other.org"));
    policy.apply_directive("report-uri", Vec::new());
    assert!(policy.report_uri.is_none());
}

#[test]
fn sandbox_flags_keep_defined_bits() {
    let flags = SandboxFlags::from_bits_truncate(ALLOW_SCRIPTS | ALLOW_FORMS | 128);
    assert_eq!(flags.bits(), 3);
    assert!(flags.contains(SandboxFlags::from_bits_truncate(ALLOW_SCRIPTS)));
    assert!(!SandboxFlags::empty().contains(flags));
}

#[test]
fn blocked_domain_is_unsafe_in_any_case() {
    let mut manager = SafeBrowsingManager::new();
    manager.add_malicious_domain("Bad.Example");
    assert!(!manager.is_safe("https://BAD.example/path"));
    assert!(!manager.is_safe_lowercase("https://bad.example/"));
    assert!(manager.is_safe("https://good.example/"));
    assert!(!manager.is_safe("https://amaz0n.com/login"));
}

#[test]
fn isolation_compares_origins() {
    let isolator = ProcessIsolator::new(true);
    assert!(!isolator.requires_new_process("https://a.com/x", "http://a.com/y"));
    assert!(isolator.requires_new_process("a.com", "b.com"));
    let shared = ProcessIsolator::new(false);
    assert!(!shared.requires_new_process("https://a.com", "https://b.com"));
}
