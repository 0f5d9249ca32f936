use glycerin::adblock::AdBlockFilter;
use glycerin::media::AudioFormat;

#[test]
fn url_patterns_are_matched_as_regular_expressions() {
    let mut f = AdBlockFilter::new();
    assert!(f.should_block("https://example.com/ads/slot"));
    assert_eq!(f.get_stats().trackers_blocked, 1);
    assert_eq!(f.get_stats().ads_blocked, 0);
    assert!(f.should_block("https://example.com/ad/1"));
    assert!(f.should_block("https://cdn.example.com/img/banner_top.png?x=1"));
    assert!(f.should_block("https://site.org/tracking/pixel"));
    assert!(f.should_block("https://site.org/js/analytics.js"));
    assert_eq!(f.get_stats().trackers_blocked, 5);
    assert!(!f.should_block("https://example.com/adventure"));
    assert!(!f.should_block("https://example.com/banner.html"));
    assert!(!f.should_block("https://site.org/js/analyticsXjs"));
    assert_eq!(f.get_stats().trackers_blocked, 5);
}

#[test]
fn custom_regex_rules_block_and_invalid_ones_match_nothing() {
    let mut f = AdBlockFilter::new();
    f.add_custom_rule("regex:^https://evil\\.".to_string());
    f.add_custom_rule("regex:(".to_string());
    assert!(f.should_block("https://evil.org/x"));
    assert!(!f.should_block("https://notevil.org/("));
    f.add_custom_rule("tracker.example".to_string());
    assert!(f.should_block("https://tracker.example/x"));
    assert_eq!(f.get_stats().ads_blocked, 1);
    assert_eq!(f.get_stats().trackers_blocked, 1);
}

#[test]
fn aac_is_a_known_audio_format() {
    assert_eq!(AudioFormat::from_extension("aac"), AudioFormat::Aac);
    assert_eq!(AudioFormat::from_extension("AAC"), AudioFormat::Aac);
    assert_eq!(AudioFormat::Aac.mime_type(), "audio/aac");
    assert_eq!(AudioFormat::from_extension("flac"), AudioFormat::Flac);
    assert_eq!(AudioFormat::from_extension("m4a"), AudioFormat::M4a);
}
