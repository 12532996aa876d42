use soroban_upgrade_safeguard::diff::Severity;
use soroban_upgrade_safeguard::severity_override::SeverityOverrides;
use soroban_upgrade_safeguard::severity_override::UnknownCategory;

fn table(entries: &[(&str, Severity)]) -> SeverityOverrides {
    SeverityOverrides::from_pairs(
        entries
            .iter()
            .map(|(name, severity)| (name.to_string(), *severity))
            .collect(),
    )
}

fn checked(entries: &[(&str, Severity)]) -> Result<SeverityOverrides, UnknownCategory> {
    let overrides = table(entries);
    overrides.validate()?;
    Ok(overrides)
}

#[test]
fn resolves_by_label_rule_id_and_legacy_alias() {
    let overrides = checked(&[
        ("Parameter Renamed", Severity::Info),
        ("struct_field_added", Severity::Critical),
        ("Event Field Removed", Severity::Warning),
    ])
    .unwrap();

    assert_eq!(
        overrides.severity_for("Parameter Renamed"),
        Some(Severity::Info)
    );
    // Keyed by rule id, looked up by the display label the diff emits.
    assert_eq!(
        overrides.severity_for("Struct Field Added"),
        Some(Severity::Critical)
    );
    // A legacy event-flavored key still governs its structural replacement.
    assert_eq!(
        overrides.severity_for("Struct Field Removed"),
        Some(Severity::Warning)
    );
    assert_eq!(overrides.severity_for("Function Removed"), None);
}

#[test]
fn unknown_category_is_rejected_with_suggestions() {
    let err = checked(&[("Union Case Reorderd", Severity::Info)])
        .expect_err("a misspelled category must be rejected at load time");
    let message = err.message();
    assert!(message.contains("Union Case Reorderd"), "{message}");
    assert!(message.contains("Union Case Reordered"), "{message}");
}

#[test]
fn a_name_like_no_other_gets_no_suggestion() {
    let err = checked(&[("xyzzy", Severity::Info)]).unwrap_err();
    assert_eq!(err.name, "xyzzy");
    assert!(err.suggestions.is_empty());
    assert_eq!(
        err.message(),
        "Unknown category \"xyzzy\" in the [severity] table. \
         Run `soroban-upgrade-safeguard explain` to list every known category."
    );
}

#[test]
fn suggestions_are_quoted() {
    let err = checked(&[("Enum Addd", Severity::Info)]).unwrap_err();
    assert!(err.suggestions.contains(&"Enum Added".to_string()));
    assert!(
        err.message().starts_with(
            "Unknown category \"Enum Addd\" in the [severity] table. Did you mean: \""
        ),
        "{}",
        err.message()
    );
    assert!(err
        .message()
        .ends_with("\"? Run `soroban-upgrade-safeguard explain` to list every known category."));
}

#[test]
fn the_table_is_sorted_and_the_last_of_equal_names_stays() {
    let overrides = table(&[
        ("b", Severity::Info),
        ("a", Severity::Critical),
        ("b", Severity::Warning),
    ]);
    assert_eq!(overrides.len(), 2);
    assert!(!overrides.is_empty());
    assert_eq!(
        overrides.iter(),
        vec![("a", &Severity::Critical), ("b", &Severity::Warning)]
    );
}

#[test]
fn the_first_name_in_order_governs_a_rule() {
    let overrides = table(&[
        ("struct_field_removed", Severity::Info),
        ("Struct Field Removed", Severity::Warning),
        ("Event Field Removed", Severity::Critical),
    ]);
    for name in [
        "struct_field_removed",
        "Struct Field Removed",
        "STRUCT FIELD REMOVED",
        "Event Field Removed",
    ] {
        assert_eq!(overrides.severity_for(name), Some(Severity::Critical), "{name}");
    }
}

#[test]
fn an_empty_table_governs_nothing() {
    let overrides = table(&[]);
    assert!(overrides.is_empty());
    assert_eq!(overrides.len(), 0);
    assert!(overrides.validate().is_ok());
    assert_eq!(overrides.severity_for("Struct Removed"), None);
    assert!(overrides.iter().is_empty());
}
