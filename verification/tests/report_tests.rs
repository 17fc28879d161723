use hydra_check::report;
use hydra_check::eval::rev_param;
use hydra_check::eval::short_revs_of;

#[test]
fn tbody_selector_composition() {
    assert_eq!(report::tbody_selector(""), "tbody");
    assert_eq!(report::tbody_selector("div#tabs-inputs"), "div#tabs-inputs tbody");
}

#[test]
fn unknown_error_message_format() {
    assert_eq!(
        report::unknown_error_message("tbody", "https://hydra.nixos.org/job/x/y"),
        "Unknown Hydra Error with 'tbody' found at https://hydra.nixos.org/job/x/y",
    );
}

#[test]
fn rev_param_takes_last_usable_occurrence() {
    assert_eq!(rev_param("x?rev1=000&rev1=abc", "rev1="), Some("abc".to_string()));
    assert_eq!(rev_param("x?rev1=abc&rev1=", "rev1="), Some("abc".to_string()));
    assert_eq!(rev_param("x?rev2=def456", "rev1="), None);
    assert_eq!(rev_param("rev1=x", "rev1="), Some("x".to_string()));
    assert_eq!(rev_param("", "rev1="), None);
    assert_eq!(rev_param("rev1=X", "rev1="), None);
}

#[test]
fn short_revs_require_the_exact_shape() {
    assert_eq!(
        short_revs_of("abc123 to def456"),
        Some(("abc123".to_string(), "def456".to_string())),
    );
    assert_eq!(short_revs_of("abc to def to ghi"), None);
    assert_eq!(short_revs_of(" to def"), None);
    assert_eq!(short_revs_of("abc to "), None);
    assert_eq!(short_revs_of("Abc to def"), None);
    assert_eq!(short_revs_of("abc helps def"), None);
    assert_eq!(short_revs_of(""), None);
}
