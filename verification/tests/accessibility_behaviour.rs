use glycerin::accessibility::{AccessibilityEngine, Politeness};

#[test]
fn the_screen_reader_speaks_polite_and_assertive_lines() {
    let a = AccessibilityEngine::new();
    assert_eq!(
        a.announce("Welcome to Glycerin Browser", Politeness::Polite).as_deref(),
        Some("🔊 Screen Reader (polite): Welcome to Glycerin Browser")
    );
    assert_eq!(
        a.announce("Saved", Politeness::Assertive).as_deref(),
        Some("🔊 Screen Reader (assertive): Saved")
    );
    assert_eq!(a.announce("quiet", Politeness::Off), None);
}

#[test]
fn focus_on_an_unknown_node_changes_nothing() {
    let mut a = AccessibilityEngine::new();
    assert_eq!(a.set_focus("main-nav"), None);
    assert_eq!(a.set_focus(""), None);
}

#[test]
fn preferences_and_live_regions_can_be_set() {
    let mut a = AccessibilityEngine::new();
    a.enable_high_contrast();
    a.enable_reduced_motion();
    a.add_live_region("status", Politeness::Polite);
    a.add_live_region("alerts", Politeness::Assertive);
    assert_eq!(a.announce("still speaking", Politeness::Polite).as_deref(), Some("🔊 Screen Reader (polite): still speaking"));
}
