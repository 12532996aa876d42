use soroban_upgrade_safeguard::diff::Severity;
use soroban_upgrade_safeguard::diff::ALL_CATEGORIES;
use soroban_upgrade_safeguard::report::get_remediation_guidance;
use soroban_upgrade_safeguard::rules::all_category_labels;
use soroban_upgrade_safeguard::rules::all_rules;
use soroban_upgrade_safeguard::rules::canonical_rule_id;
use soroban_upgrade_safeguard::rules::display_label_for_rule_id;
use soroban_upgrade_safeguard::rules::distance;
use soroban_upgrade_safeguard::rules::guidance_for_rule_id;
use soroban_upgrade_safeguard::rules::lookup_rule_lenient;
use soroban_upgrade_safeguard::rules::rule_by_id;
use soroban_upgrade_safeguard::rules::suggest_categories;

#[test]
fn every_registered_rule_has_unique_id_and_guidance() {
    let mut ids = std::collections::HashSet::new();

    for rule in all_rules() {
        assert!(ids.insert(rule.id), "duplicate rule id: {}", rule.id);
        assert_eq!(rule.label, display_label_for_rule_id(rule.id).unwrap());
        assert_eq!(rule.guidance, guidance_for_rule_id(rule.id).unwrap());
        assert_eq!(rule.severity, rule_by_id(rule.id).unwrap().severity);
    }
}

#[test]
fn every_category_in_the_inventory_has_guidance() {
    for cat in ALL_CATEGORIES {
        assert!(
            get_remediation_guidance(cat).is_some(),
            "Category '{cat}' does not have remediation guidance!"
        );
    }
}

#[test]
fn no_category_is_event_flavored() {
    // Event-ness must live in `classification`, never in the suppression
    // key, so that reclassifying a type cannot move a finding out from
    // under an existing suppression rule.
    for cat in ALL_CATEGORIES {
        assert!(
            !cat.contains("Event") || cat.starts_with("Error Enum"),
            "Category '{cat}' encodes classification in the suppression key"
        );
    }
}

#[test]
fn labels_are_listed_in_the_order_of_the_rules() {
    let labels: Vec<&str> = all_rules().iter().map(|r| r.label).collect();
    assert_eq!(all_category_labels(), labels);
    assert_eq!(labels, ALL_CATEGORIES.to_vec());
}

#[test]
fn a_rule_goes_by_its_id_or_its_label() {
    assert_eq!(
        canonical_rule_id("Union Case Reordered"),
        Some("union_case_reordered")
    );
    assert_eq!(
        canonical_rule_id("union_case_reordered"),
        Some("union_case_reordered")
    );
    assert_eq!(canonical_rule_id("nothing"), None);
    let rule = rule_by_id("union_case_reordered").unwrap();
    assert_eq!(rule.label, "Union Case Reordered");
    assert_eq!(rule.severity, Severity::Critical);
    assert!(rule_by_id("Union Case Reordered").is_none());
    assert_eq!(display_label_for_rule_id("nothing"), None);
    assert_eq!(guidance_for_rule_id("Union Case Reordered"), None);
    assert_eq!(
        get_remediation_guidance("Union Case Reordered"),
        guidance_for_rule_id("union_case_reordered")
    );
    assert_eq!(get_remediation_guidance("nothing"), None);
}

#[test]
fn a_rule_is_found_in_any_case() {
    for alias in [
        "Union Case Reordered",
        "union_case_reordered",
        "union case reordered",
        "UNION CASE REORDERED",
    ] {
        assert_eq!(lookup_rule_lenient(alias).unwrap().id, "union_case_reordered");
    }
    assert!(lookup_rule_lenient("Union Case Reorderd").is_none());
}

#[test]
fn near_names_are_suggested() {
    assert!(suggest_categories("Union Case Reorderd").contains(&"Union Case Reordered".to_string()));
    let family = suggest_categories("union case");
    assert!(family.contains(&"Union Case Removed".to_string()));
    assert!(family.contains(&"Union Case Added".to_string()));
    assert!(suggest_categories("Struct Field Remvoed").contains(&"Struct Field Removed".to_string()));
    assert!(suggest_categories("xyzzy").is_empty());
}

#[test]
fn the_distance_counts_edits() {
    assert_eq!(distance("", ""), 0);
    assert_eq!(distance("abc", ""), 3);
    assert_eq!(distance("kitten", "sitting"), 3);
    assert_eq!(distance("Remvoed", "Removed"), 2);
    assert_eq!(distance("flaw", "lawn"), 2);
}
