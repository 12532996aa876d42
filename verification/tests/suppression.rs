use soroban_upgrade_safeguard::diff::Finding;
use soroban_upgrade_safeguard::diff::Severity;
use soroban_upgrade_safeguard::suppression::compute_fingerprint;
use soroban_upgrade_safeguard::suppression::stable_category;
use soroban_upgrade_safeguard::suppression::SuppressionConfig;
use soroban_upgrade_safeguard::suppression::SuppressionRule;
use soroban_upgrade_safeguard::suppression::CURRENT_NAMES;
use soroban_upgrade_safeguard::suppression::LEGACY_NAMES;

fn finding(category: &str, target: Option<&str>) -> Finding {
    Finding {
        severity: Severity::Critical,
        category: category.to_string(),
        message: "m".to_string(),
        subject_type: None,
        target: target.map(|t| t.to_string()),
        classification: None,
    }
}

fn rule(rule_id: &str, target: Option<&str>, fingerprint: Option<&str>) -> SuppressionRule {
    SuppressionRule {
        rule_id: rule_id.to_string(),
        target: target.map(|t| t.to_string()),
        reason: None,
        author: None,
        expiry: None,
        fingerprint: fingerprint.map(|t| t.to_string()),
    }
}

#[test]
fn older_names_stand_for_current_ones() {
    for (old, new) in LEGACY_NAMES.iter().zip(CURRENT_NAMES) {
        assert_eq!(stable_category(old), new);
    }
    assert_eq!(stable_category("Event Field Removed"), "Struct Field Removed");
    assert_eq!(stable_category("anything else"), "anything else");
}

#[test]
fn a_rule_matches_by_category_and_target() {
    let f = finding("Struct Field Removed", Some("S.a"));
    for name in [
        "struct_field_removed",
        "Struct Field Removed",
        "Event Field Removed",
    ] {
        assert!(rule(name, Some("S.a"), None).matches(&f), "{name}");
        assert!(rule(name, None, None).matches(&f), "{name}");
        assert!(!rule(name, Some("S.b"), None).matches(&f), "{name}");
    }
    assert!(!rule("struct_removed", Some("S.a"), None).matches(&f));
    assert!(!rule("struct_field_removed", Some("S.a"), None)
        .matches(&finding("Struct Field Removed", None)));
    assert!(rule("Custom", None, None).matches(&finding("Custom", None)));
}

#[test]
fn a_fingerprint_narrows_a_rule() {
    let f = finding("Struct Field Removed", Some("S.a"));
    let print = compute_fingerprint(&f);
    assert!(rule("struct_field_removed", None, Some(&print)).matches(&f));
    assert!(!rule("struct_field_removed", None, Some("00")).matches(&f));
}

#[test]
fn the_first_rule_that_matches_is_taken() {
    let config = SuppressionConfig {
        rules: vec![
            rule("enum_removed", None, None),
            rule("struct_removed", Some("S"), None),
            rule("struct_removed", None, None),
        ],
        ..SuppressionConfig::default()
    };
    let at = |f: &Finding| config.matching_rule_with_index(f).map(|(i, _)| i);
    assert_eq!(at(&finding("Struct Removed", Some("S"))), Some(1));
    assert_eq!(at(&finding("Struct Removed", Some("T"))), Some(2));
    assert_eq!(at(&finding("Union Removed", None)), None);
    assert!(SuppressionConfig::default()
        .matching_rule_with_index(&finding("Struct Removed", None))
        .is_none());
}

#[test]
fn severity_and_role_are_no_part_of_a_fingerprint() {
    let f = finding("Struct Removed", Some("S"));
    let mut g = finding("Struct Removed", Some("S"));
    g.severity = Severity::Info;
    g.classification = Some("event".to_string());
    g.subject_type = Some("S".to_string());
    assert_eq!(compute_fingerprint(&f), compute_fingerprint(&g));
    g.message = "other".to_string();
    assert_ne!(compute_fingerprint(&f), compute_fingerprint(&g));
    assert_eq!(compute_fingerprint(&f).len(), 64);
}
