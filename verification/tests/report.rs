use soroban_upgrade_safeguard::baseline::BaselineDiff;
use soroban_upgrade_safeguard::baseline::BaselineStatus;
use soroban_upgrade_safeguard::baseline::ResolvedFinding;
use soroban_upgrade_safeguard::diff::DiffReport;
use soroban_upgrade_safeguard::diff::Finding;
use soroban_upgrade_safeguard::diff::Severity;
use soroban_upgrade_safeguard::limits::ResourcePolicy;
use soroban_upgrade_safeguard::report::escape_html;
use soroban_upgrade_safeguard::report::escape_xml;
use soroban_upgrade_safeguard::report::html_document;
use soroban_upgrade_safeguard::report::junit_document;
use soroban_upgrade_safeguard::report::validate_categories;
use soroban_upgrade_safeguard::report::AnalysisScope;
use soroban_upgrade_safeguard::report::BuildMetrics;
use soroban_upgrade_safeguard::report::CategoryFilter;
use soroban_upgrade_safeguard::report::FindingGroups;
use soroban_upgrade_safeguard::report::ReportSettings;
use soroban_upgrade_safeguard::report::SafetyReport;
use soroban_upgrade_safeguard::report::StorageScopeState;
use soroban_upgrade_safeguard::report::KNOWN_CATEGORIES;
use soroban_upgrade_safeguard::report::SCOPE_SUMMARY_LINE;
use soroban_upgrade_safeguard::report::STORAGE_NOT_VERIFIED_NOTE;
use soroban_upgrade_safeguard::rules::RULE_LABELS;
use soroban_upgrade_safeguard::severity_override::SeverityOverrides;
use soroban_upgrade_safeguard::suppression::compute_fingerprint;
use soroban_upgrade_safeguard::suppression::SuppressionConfig;
use soroban_upgrade_safeguard::suppression::SuppressionRule;

fn finding(severity: Severity, category: &str, message: &str, target: Option<&str>) -> Finding {
    Finding {
        severity,
        category: category.to_string(),
        message: message.to_string(),
        subject_type: None,
        target: target.map(|t| t.to_string()),
        classification: None,
    }
}

fn sample() -> DiffReport {
    DiffReport {
        findings: vec![
            finding(Severity::Info, "Function Added", "Function 'g' added.", Some("g")),
            finding(Severity::Critical, "Struct Field Removed", "Field 'b' removed.", Some("S.b")),
            finding(Severity::Warning, "Parameter Renamed", "Parameter renamed.", None),
            finding(Severity::Critical, "Struct Field Removed", "Field 'a' removed.", Some("S.a")),
        ],
    }
}

fn rule(rule_id: &str, target: Option<&str>, reason: Option<&str>) -> SuppressionRule {
    SuppressionRule {
        rule_id: rule_id.to_string(),
        target: target.map(|t| t.to_string()),
        reason: reason.map(|t| t.to_string()),
        author: None,
        expiry: None,
        fingerprint: None,
    }
}

fn config(rules: Vec<SuppressionRule>, overrides: &[(&str, Severity)]) -> SuppressionConfig {
    SuppressionConfig {
        rules,
        severity_overrides: SeverityOverrides::from_pairs(
            overrides.iter().map(|(n, s)| (n.to_string(), *s)).collect(),
        ),
        ..SuppressionConfig::default()
    }
}

fn under(config: &SuppressionConfig, strict: bool) -> SafetyReport {
    SafetyReport::with_suppressions(&sample(), config, false, strict, &ResourcePolicy::default())
}

fn empty_report() -> SafetyReport {
    SafetyReport {
        critical_count: 0,
        warning_count: 0,
        info_count: 0,
        suppressed_count: 0,
        filtered_count: 0,
        severity_overridden_count: 0,
        verdict_changed_by_override: false,
        suppressed_critical_count: 0,
        total_findings: 0,
        is_safe: true,
        findings_by_category: FindingGroups::new(),
        strict: false,
        baseline_source: None,
        verified_code_hash: None,
        category_filter: CategoryFilter::default(),
        scope: AnalysisScope::default(),
        old_spec_summary: None,
        new_spec_summary: None,
        metrics: None,
        settings: ReportSettings {
            strict: false,
            explain: false,
            max_suppressions: None,
            allow_targetless: None,
            max_xdr_depth: 0,
            max_xdr_len: 0,
            max_entries: 0,
            max_walk_depth: 0,
        },
        unmatched_suppressions: Vec::new(),
        baseline_diff: None,
        diff_types: false,
        use_color: false,
    }
}

#[test]
fn test_recommended_semver_bump() {
    let mut report = empty_report();

    // Identical upgrade -> patch
    assert_eq!(report.recommended_bump(), "patch");

    // Info findings -> minor
    report.info_count = 1;
    assert_eq!(report.recommended_bump(), "minor");

    // Warning findings -> minor
    report.info_count = 0;
    report.warning_count = 1;
    assert_eq!(report.recommended_bump(), "minor");

    // Critical findings -> major (even if other findings are present)
    report.critical_count = 1;
    assert_eq!(report.recommended_bump(), "major");
}

fn mixed_report() -> SafetyReport {
    SafetyReport::new(&DiffReport {
        findings: vec![
            finding(
                Severity::Info,
                "Environment",
                "Environment metadata changed",
                None,
            ),
            finding(
                Severity::Warning,
                "Function Renamed",
                "Function renamed",
                None,
            ),
            finding(Severity::Critical, "Struct Removed", "Struct removed", None),
            finding(Severity::Info, "Enum Added", "Enum added", None),
        ],
    })
}

#[test]
fn categories_are_sorted_by_severity_then_name() {
    let report = mixed_report();

    let sorted: Vec<&str> = report
        .categories_sorted_by_severity()
        .iter()
        .map(|s| s.as_str())
        .collect();

    assert_eq!(
        sorted,
        vec![
            "Struct Removed",
            "Function Renamed",
            "Enum Added",
            "Environment"
        ]
    );
}

#[test]
fn severity_order_applies_in_text_and_markdown_output() {
    let report = mixed_report();

    let text = report.generate_summary_text(false);
    let struct_pos = text.find("--- [STRUCT REMOVED] ---").unwrap();
    let function_pos = text.find("--- [FUNCTION RENAMED] ---").unwrap();
    let enum_pos = text.find("--- [ENUM ADDED] ---").unwrap();
    let env_pos = text.find("--- [ENVIRONMENT] ---").unwrap();
    assert!(struct_pos < function_pos && function_pos < enum_pos && enum_pos < env_pos);

    let markdown = report.generate_summary_markdown();
    let struct_pos = markdown.find("### Struct Removed").unwrap();
    let function_pos = markdown.find("### Function Renamed").unwrap();
    let enum_pos = markdown.find("### Enum Added").unwrap();
    let env_pos = markdown.find("### Environment").unwrap();
    assert!(struct_pos < function_pos && function_pos < enum_pos && enum_pos < env_pos);
}

fn report_with_hostile_names() -> SafetyReport {
    SafetyReport::new(&DiffReport {
        findings: vec![Finding {
            severity: Severity::Critical,
            category: "Struct Field Removed".to_string(),
            message: "Struct field <script>alert('xss')</script> of type \
                      \"Data\" & Co was removed"
                .to_string(),
            subject_type: Some("<img src=x onerror=alert(1)>".to_string()),
            target: Some("<b>Data</b>.amount".to_string()),
            classification: None,
        }],
    })
}

#[test]
fn wasm_derived_content_is_escaped() {
    let html = report_with_hostile_names().generate_summary_html();

    // The raw markup must never reach the document.
    assert!(
        !html.contains("<script>alert('xss')</script>"),
        "a script tag from the WASM input reached the page unescaped"
    );
    assert!(
        !html.contains("<img src=x onerror=alert(1)>"),
        "an event-handler tag from the WASM input reached the page unescaped"
    );
    assert!(
        !html.contains("<b>Data</b>.amount"),
        "a target from the WASM input reached the page unescaped"
    );

    // It must still be *present*, just inert.
    assert!(
        html.contains("&lt;script&gt;alert(&#39;xss&#39;)&lt;/script&gt;"),
        "the escaped message must still be readable: {html}"
    );
    assert!(html.contains("&quot;Data&quot; &amp; Co"), "{html}");
    assert!(html.contains("&lt;b&gt;Data&lt;/b&gt;.amount"), "{html}");

    // The page's own structural markup is of course still real markup.
    assert!(html.contains("<!DOCTYPE html>"));
    assert!(html.contains("<details"));
}

#[test]
fn escaping_covers_every_metacharacter() {
    assert_eq!(
        escape_html(r#"<a href="x" o='y'>&</a>"#),
        "&lt;a href=&quot;x&quot; o=&#39;y&#39;&gt;&amp;&lt;/a&gt;"
    );
    // Ordinary text, including non-ASCII, passes through untouched.
    assert_eq!(escape_html("Data.amount → i128"), "Data.amount → i128");
}

#[test]
fn xml_text_drops_control_characters() {
    assert_eq!(
        escape_xml("<a b='c' d=\"e\">&</a>"),
        "&lt;a b=&apos;c&apos; d=&quot;e&quot;&gt;&amp;&lt;/a&gt;"
    );
    assert_eq!(
        escape_xml("a\u{0}\u{1f}\t\n\r\u{7f}\u{9f}\u{a0}→"),
        "a\t\n\r\u{a0}→"
    );
}

#[test]
fn every_finding_counts() {
    let report = SafetyReport::new(&sample());
    assert_eq!(report.critical_count, 2);
    assert_eq!(report.warning_count, 1);
    assert_eq!(report.info_count, 1);
    assert_eq!(report.total_findings, 4);
    assert_eq!(report.suppressed_count, 0);
    assert_eq!(report.severity_overridden_count, 0);
    assert!(!report.verdict_changed_by_override);
    assert!(!report.is_safe);
    assert_eq!(report.findings_by_category.len(), 3);
    let group = report.findings_by_category.get("Struct Field Removed").unwrap();
    assert_eq!(group.len(), 2);
    assert_eq!(group[0].finding.message, "Field 'b' removed.");
    assert_eq!(group[1].finding.message, "Field 'a' removed.");
    assert_eq!(group[0].rule_id, "struct_field_removed");
    assert!(report.findings_by_category.get("Enum Added").is_none());
    assert_eq!(report.settings.max_xdr_depth, 64);
}

#[test]
fn warnings_fail_in_strict_mode_only() {
    let found = DiffReport {
        findings: vec![finding(Severity::Warning, "Parameter Renamed", "m", None)],
    };
    let none = SuppressionConfig::default();
    let policy = ResourcePolicy::default();
    let lenient = SafetyReport::with_suppressions(&found, &none, false, false, &policy);
    assert!(lenient.is_safe);
    let strict = SafetyReport::with_suppressions(&found, &none, false, true, &policy);
    assert!(!strict.is_safe);
    assert!(strict
        .generate_summary_markdown()
        .contains("## Status: ❌ FAILED (Warnings detected in strict mode)\n"));
    let empty = DiffReport { findings: vec![] };
    assert!(SafetyReport::with_suppressions(&empty, &none, false, true, &policy).is_safe);
}

#[test]
fn acknowledged_findings_do_not_fail() {
    let all = config(
        vec![
            rule("Struct Field Removed", Some("S.a"), Some("planned")),
            rule("struct_field_removed", Some("S.b"), None),
            rule("Enum Removed", Some("E"), None),
        ],
        &[],
    );
    let report = under(&all, false);
    assert!(report.is_safe);
    assert_eq!(report.suppressed_count, 2);
    assert_eq!(report.suppressed_critical_count, 2);
    assert_eq!(report.critical_count, 2);
    assert_eq!(report.recommended_bump(), "major");
    assert_eq!(report.unmatched_suppressions.len(), 1);
    assert_eq!(report.unmatched_suppressions[0].rule_id, "Enum Removed");
    let group = report.findings_by_category.get("Struct Field Removed").unwrap();
    assert!(group[0].suppressed && group[1].suppressed);
    assert_eq!(group[0].suppression_reason, None);
    assert_eq!(group[1].suppression_reason.as_deref(), Some("planned"));

    let one = config(vec![rule("struct_field_removed", Some("S.a"), None)], &[]);
    let report = under(&one, false);
    assert!(!report.is_safe);
    assert_eq!(report.suppressed_count, 1);
}

#[test]
fn a_lowered_severity_can_turn_the_verdict() {
    let lowered = config(vec![], &[("struct_field_removed", Severity::Warning)]);
    let report = under(&lowered, false);
    assert!(report.is_safe);
    assert!(report.verdict_changed_by_override);
    assert_eq!(report.critical_count, 0);
    assert_eq!(report.warning_count, 3);
    assert_eq!(report.severity_overridden_count, 2);
    let group = report.findings_by_category.get("Struct Field Removed").unwrap();
    assert_eq!(group[0].original_severity, Some(Severity::Critical));
    assert_eq!(group[0].finding.severity, Severity::Warning);
    let notice = "VERDICT CHANGED BY CONFIG: this run passes only because the [severity] table \
                  lowered one or more findings. Without those overrides it would have FAILED.";
    assert_eq!(report.override_verdict_notice().as_deref(), Some(notice));

    assert!(report.generate_summary_text(false).contains(notice));
    assert!(report
        .generate_summary_text(false)
        .contains("🟡 [SEVERITY critical → warning] Field 'a' removed.\n"));
    let markdown = report.generate_summary_markdown();
    assert!(markdown.contains(&format!("\n> ⚠️ **{notice}**\n\n")));
    assert!(markdown.contains("- 🟡 **[SEVERITY critical → warning]** Field 'a' removed.\n"));
    assert!(markdown.contains("| **Severity overridden** | 2 |\n"));
    let html = report.generate_summary_html();
    assert!(html.contains(&format!(
        "<p class=\"banner override-verdict\">⚠️ {notice}</p>\n"
    )));
    assert!(html.contains("<span class=\"badge badge-overridden\">severity critical → warning</span> "));
    let actions = report.generate_summary_github_actions(None);
    assert!(actions.ends_with(&format!("::warning::{notice}\n")));
    let junit = report.generate_summary_junit(None);
    assert!(junit.contains(&format!("    <system-out>{notice}</system-out>\n  </testsuite>\n")));
    assert!(report.to_json().verdict_changed_by_override);
}

#[test]
fn a_raised_severity_can_turn_the_verdict() {
    let found = DiffReport {
        findings: vec![finding(Severity::Warning, "Parameter Renamed", "m", None)],
    };
    let raised = config(vec![], &[("Parameter Renamed", Severity::Critical)]);
    let report =
        SafetyReport::with_suppressions(&found, &raised, false, false, &ResourcePolicy::default());
    assert!(!report.is_safe);
    assert!(report.verdict_changed_by_override);
    assert_eq!(
        report.override_verdict_notice().unwrap(),
        "VERDICT CHANGED BY CONFIG: this run fails only because the [severity] table \
         raised one or more findings. Without those overrides it would have PASSED."
    );
}

#[test]
fn a_severity_that_leaves_the_verdict_alone_is_marked_in_silence() {
    let changed = config(vec![], &[("Parameter Renamed", Severity::Info)]);
    let report = under(&changed, false);
    assert_eq!(report.severity_overridden_count, 1);
    assert!(!report.verdict_changed_by_override);
    assert_eq!(report.override_verdict_notice(), None);
    assert_eq!(report.info_count, 2);
    let same = config(vec![], &[("Parameter Renamed", Severity::Warning)]);
    assert_eq!(under(&same, false).severity_overridden_count, 0);
}

#[test]
fn severities_do_not_move_findings_out_from_under_a_rule() {
    let rules = vec![
        rule("struct_field_removed", Some("S.a"), None),
        rule("struct_field_removed", Some("S.b"), None),
    ];
    let both = config(rules, &[("struct_field_removed", Severity::Info)]);
    let report = under(&both, false);
    assert_eq!(report.suppressed_count, 2);
    assert_eq!(report.suppressed_critical_count, 0);
    let group = report.findings_by_category.get("Struct Field Removed").unwrap();
    let plain = SafetyReport::new(&sample());
    let other = plain.findings_by_category.get("Struct Field Removed").unwrap();
    assert_eq!(group[0].fingerprint, other[0].fingerprint);
    assert_ne!(group[0].fingerprint, group[1].fingerprint);
}

#[test]
fn a_fingerprint_is_a_digest_of_category_target_and_message() {
    let f = finding(Severity::Info, "Function Added", "Function 'g' added.", Some("g"));
    assert_eq!(
        compute_fingerprint(&f),
        hex::encode(<sha2::Sha256 as sha2::Digest>::digest(
            b"Function Added\ng\nFunction 'g' added."
        ))
    );
}

#[test]
fn guidance_is_given_where_it_is_asked_for() {
    let none = SuppressionConfig::default();
    let policy = ResourcePolicy::default();
    let report = SafetyReport::with_suppressions(&sample(), &none, true, false, &policy);
    let group = report.findings_by_category.get("Struct Field Removed").unwrap();
    let guidance = group[0].remediation.clone().unwrap();
    assert!(report
        .generate_summary_text(true)
        .contains(&format!("🔴 Field 'a' removed.\n    ↳ guidance: {guidance}\n")));
    assert!(!report.generate_summary_text(false).contains("guidance:"));
    assert!(report
        .generate_summary_markdown()
        .contains(&format!("- 🔴 Field 'a' removed.\n  - ↳ guidance: {guidance}\n")));
    assert!(report.generate_summary_html().contains(&format!(
        "<div class=\"sub guidance\">guidance: {}</div>",
        escape_html(&guidance)
    )));
    assert!(!SafetyReport::new(&sample())
        .generate_summary_html()
        .contains("guidance:"));
}

#[test]
fn a_filter_hides_categories() {
    let mut report = SafetyReport::new(&sample());
    report.apply_category_filter(&CategoryFilter {
        include_only: None,
        exclude: vec!["Struct Field Removed".to_string()],
    });
    assert_eq!(report.filtered_count, 2);
    assert_eq!(report.critical_count, 0);
    assert_eq!(report.warning_count, 1);
    assert_eq!(report.info_count, 1);
    assert_eq!(report.total_findings, 4);
    assert!(report.is_safe);
    assert!(report.findings_by_category.get("Struct Field Removed").is_none());
    let text = report.generate_summary_text(false);
    assert!(text.contains(
        "Filtered:   2\n  ↳ Findings were hidden by --include-category/--exclude-category.\n"
    ));

    let mut report = SafetyReport::new(&sample());
    report.apply_category_filter(&CategoryFilter {
        include_only: Some(vec!["Function Added".to_string(), "Enum Added".to_string()]),
        exclude: vec!["Enum Added".to_string()],
    });
    assert_eq!(report.filtered_count, 3);
    assert_eq!(report.findings_by_category.len(), 1);
    assert_eq!(report.info_count, 1);

    let mut report = SafetyReport::new(&sample());
    report.apply_category_filter(&CategoryFilter::default());
    assert_eq!(report.filtered_count, 0);
    assert_eq!(report.critical_count, 2);
    assert!(!report.is_safe);
}

#[test]
fn filtering_again_hides_nothing_more() {
    let filter = CategoryFilter {
        include_only: None,
        exclude: vec!["Parameter Renamed".to_string()],
    };
    let mut report = SafetyReport::new(&sample());
    report.apply_category_filter(&filter);
    assert_eq!(report.filtered_count, 1);
    let first = report.generate_summary_github_actions(None);
    report.apply_category_filter(&filter);
    assert_eq!(report.filtered_count, 1);
    assert_eq!(report.generate_summary_github_actions(None), first);
}

#[test]
fn hidden_findings_stay_counted() {
    let hide = |category: &str| CategoryFilter {
        include_only: None,
        exclude: vec![category.to_string()],
    };
    let found = DiffReport {
        findings: vec![
            finding(Severity::Info, "Environment", "e", None),
            finding(Severity::Critical, "Struct Removed", "s", None),
        ],
    };
    let mut report = SafetyReport::new(&found);
    report.apply_category_filter(&hide("Environment"));
    report.apply_category_filter(&hide("Environment"));
    assert_eq!(report.total_findings, 2);
    assert_eq!(report.findings_by_category.len(), 1);
    assert_eq!(report.filtered_count, 1);
    report.apply_category_filter(&hide("Struct Removed"));
    assert_eq!(report.findings_by_category.len(), 0);
    assert_eq!(report.filtered_count, 2);
    assert!(report.is_safe);
}

#[test]
fn more_findings_than_the_total_are_not_counted_as_filtered() {
    let mut report = SafetyReport::new(&sample());
    report.total_findings = 1;
    report.apply_category_filter(&CategoryFilter {
        include_only: None,
        exclude: vec!["Parameter Renamed".to_string()],
    });
    assert_eq!(report.filtered_count, 0);
}

#[test]
fn a_filter_can_take_back_the_claim_about_the_verdict() {
    let lowered = config(vec![], &[("struct_field_removed", Severity::Warning)]);
    let mut report = under(&lowered, false);
    assert!(report.verdict_changed_by_override);
    report.apply_category_filter(&CategoryFilter {
        include_only: Some(vec!["Parameter Renamed".to_string()]),
        exclude: vec![],
    });
    assert!(report.is_safe);
    assert!(!report.verdict_changed_by_override);
    assert_eq!(report.severity_overridden_count, 0);
}

#[test]
fn type_details_leave_the_other_formats_alone() {
    let found = DiffReport {
        findings: vec![finding(
            Severity::Critical,
            "Return Type Changed",
            "Type changed from `u32` to `u64`.",
            None,
        )],
    };
    let plain = SafetyReport::new(&found);
    let mut detailed = SafetyReport::new(&found);
    detailed.diff_types = true;
    detailed.use_color = true;
    assert_eq!(
        plain.generate_summary_markdown(),
        detailed.generate_summary_markdown()
    );
    assert_eq!(plain.generate_summary_html(), detailed.generate_summary_html());
    assert_eq!(
        plain.generate_summary_junit(None),
        detailed.generate_summary_junit(None)
    );
    assert_ne!(
        plain.generate_summary_text(false),
        detailed.generate_summary_text(false)
    );
}

#[test]
fn an_exclusion_wins_over_an_inclusion() {
    let filter = CategoryFilter {
        include_only: Some(vec!["a".to_string(), "b".to_string()]),
        exclude: vec!["b".to_string()],
    };
    assert!(filter.should_include("a"));
    assert!(!filter.should_include("b"));
    assert!(!filter.should_include("c"));
    assert!(CategoryFilter::default().should_include("anything"));
}

#[test]
fn an_empty_inclusion_shows_everything() {
    let filter = CategoryFilter {
        include_only: Some(vec![]),
        exclude: vec!["b".to_string()],
    };
    assert!(filter.should_include("a"));
    assert!(!filter.should_include("b"));
}

#[test]
fn every_category_of_a_finding_is_known() {
    let labels: Vec<String> = RULE_LABELS.iter().map(|l| l.to_string()).collect();
    assert_eq!(validate_categories(&labels), Ok(()));
    for name in [
        "Spec Entry Conflict",
        "Spec Entry Duplicate",
        "Parameter Type Widened",
        "Union Case Type Signedness Changed",
    ] {
        assert_eq!(validate_categories(&[name.to_string()]), Ok(()));
    }
}

#[test]
fn unknown_categories_are_named() {
    for name in KNOWN_CATEGORIES {
        assert_eq!(validate_categories(&[name.to_string()]), Ok(()));
    }
    assert_eq!(KNOWN_CATEGORIES.len(), 56);
    assert_eq!(validate_categories(&[]), Ok(()));
    assert_eq!(
        validate_categories(&["x".to_string(), "Enum Added".to_string(), "y".to_string()]),
        Err(vec!["x".to_string(), "y".to_string()])
    );
}

const HEAD: &str = "\n========================================\n    SOROBAN UPGRADE SAFETY REPORT\n";

#[test]
fn the_text_of_a_failing_report() {
    colored::control::set_override(false);
    let report = SafetyReport::new(&sample());
    let expected = format!(
        "{HEAD}========================================\n\
         Status: ❌ FAILED (Exported-interface breaking changes detected)\n\
         Scope:  {SCOPE_SUMMARY_LINE}\n        \
         Storage layout: NOT analyzed — no storage schema supplied.\n\
         Critical: 2\nWarnings: 1\nInfo:     1\nRecommended Bump: major\n\
         ----------------------------------------\n\n\
         --- [STRUCT FIELD REMOVED] ---\n🔴 Field 'a' removed.\n🔴 Field 'b' removed.\n\n\
         --- [PARAMETER RENAMED] ---\n🟡 Parameter renamed.\n\n\
         --- [FUNCTION ADDED] ---\n🔵 Function 'g' added.\n\n\
         ⚠️  ACTION REQUIRED: The new contract version modifies existing storage layouts or function interfaces.\n\
         Deploying this upgrade will result in orphaned data, serialization panics, or broken integrations.\n"
    );
    assert_eq!(report.generate_summary_text(false), expected);
    assert_eq!(report.summary_spans(false).to_plain(), expected);
}

#[test]
fn the_text_of_an_empty_report() {
    colored::control::set_override(false);
    let mut report = empty_report();
    report.strict = true;
    report.baseline_source = Some("RPC".to_string());
    report.verified_code_hash = Some("ab".to_string());
    report.metrics = Some(BuildMetrics::new(1024, 2048, 3, 4, 0, 1, 0, 0, 0, 0, 2, 1));
    report.scope.old_spec_section_count = 2;
    report.scope.new_spec_section_count = 1;
    report.scope.old_duplicate_names = vec!["A".to_string()];
    report.scope.new_duplicate_names = vec!["B".to_string()];
    assert_eq!(
        report.generate_summary_text(false),
        format!(
            "{HEAD}    [STRICT MODE ACTIVE]\n========================================\n\
             Status: ✅ PASSED (No exported-interface breaking changes)\n\
             Scope:  {SCOPE_SUMMARY_LINE}\n        \
             Storage layout: NOT analyzed — no storage schema supplied.\n        \
             Spec sections: old=2, new=1 (multi-section WASMs detected)\n        \
             Duplicate entries detected: old:A, new:B\n\
             Critical: 0\nWarnings: 0\nInfo:     0\nRecommended Bump: patch\n\
             Baseline Source: RPC\nVerified Code Hash: ab\n\
             ----------------------------------------\n\n\
             No relevant changes detected. The exported interface is identical in its exports and types.\n\n\
             {STORAGE_NOT_VERIFIED_NOTE}\n\
             \n========================================\n📊 BUILD METRICS\n\
             ========================================\n\
             WASM size:  1.00 KB → 2.00 KB (+1.00 KB)\nFunctions:  3 → 4\nStructs:    0 → 1\n\
             Enums:      0 → 0\nUnions:     0 → 0\nError Enums:2 → 1\n"
        )
    );
}

#[test]
fn resolved_findings_are_listed_where_nothing_is_found_any_more() {
    colored::control::set_override(false);
    let mut report = empty_report();
    report.baseline_diff = Some(BaselineDiff {
        new_count: 0,
        persisting_count: 0,
        resolved: vec![ResolvedFinding {
            rule_id: "enum_added".to_string(),
            target: None,
            message: "Gone <now>.".to_string(),
        }],
        baseline_tool_version: "0.9".to_string(),
        fail_on_new_only: false,
    });
    assert!(report.generate_summary_text(false).ends_with(&format!(
        "{STORAGE_NOT_VERIFIED_NOTE}\n✅ RESOLVED SINCE BASELINE\nGone <now>.\n\n"
    )));
    assert!(report.generate_summary_markdown().ends_with(&format!(
        "> {STORAGE_NOT_VERIFIED_NOTE}\n### ✅ Resolved Since Baseline\n\n- Gone <now>.\n\n"
    )));
    let html = report.generate_summary_html();
    assert!(html.contains("Baseline: 0 new, 0 persisting, 1 resolved (vs. tool v0.9)</p>\n"));
    assert!(!html.contains("finding resolved"));
    assert!(!html.contains("Gone"));
}

#[test]
fn the_text_lists_acknowledged_and_resolved_findings() {
    colored::control::set_override(false);
    let mut first = rule("struct_field_removed", Some("S.a"), Some("planned"));
    first.author = Some("me".to_string());
    let second = rule("struct_field_removed", Some("S.b"), None);
    let mut report = under(&config(vec![first, second], &[]), false);
    report.baseline_diff = Some(BaselineDiff {
        new_count: 1,
        persisting_count: 2,
        resolved: vec![ResolvedFinding {
            rule_id: "enum_added".to_string(),
            target: None,
            message: "Gone.".to_string(),
        }],
        baseline_tool_version: "0.9".to_string(),
        fail_on_new_only: true,
    });
    let text = report.generate_summary_text(false);
    assert!(text.contains("Suppressed: 2\n"));
    assert!(text.contains(
        "Baseline: 1 new, 2 persisting, 1 resolved (vs. tool v0.9) — verdict reflects new findings only\n"
    ));
    assert!(text.contains(
        "🔕 [SUPPRESSED] Field 'a' removed.\n    ↳ reason: planned\n🔕 [SUPPRESSED] Field 'b' removed.\n\n"
    ));
    assert!(text.ends_with(
        "✅ RESOLVED SINCE BASELINE\nGone.\n\n\
         \n========================================\n🔕 APPLIED SUPPRESSIONS AUDIT LOG\n\
         ========================================\n \
         - Category:    Struct Field Removed\n   Target:      S.b\n\n \
         - Category:    Struct Field Removed\n   Target:      S.a\n   \
         Author:      me (expires never)\n   Reason:      planned\n\n"
    ));
    let markdown = report.generate_summary_markdown();
    assert!(markdown.contains(
        "**Baseline**: 1 new, 2 persisting, 1 resolved (vs. tool v0.9) — verdict reflects new findings only\n\n"
    ));
    assert!(markdown.contains("### ✅ Resolved Since Baseline\n\n- Gone.\n\n"));
    assert!(markdown.contains("| Struct Field Removed | `S.a` | `-` | me | - | planned |\n"));
    let html = report.generate_summary_html();
    assert!(html.contains("<li class=\"finding resolved\">Gone.</li>\n"));
    assert!(html.contains(
        "<tr><td>Struct Field Removed</td><td><code>S.a</code></td><td><code>-</code></td>\
         <td>me</td><td>-</td><td>planned</td></tr>\n"
    ));
    assert!(html.contains("Applied Suppressions Audit Log"));
    assert!(html.contains("<th>Expiry</th><th>Reason</th                          </tr></thead>\n<tbody>\n"));
    assert!(html.contains("<span class=\"badge badge-suppressed\">suppressed</span> "));
}

#[test]
fn type_changes_are_shown_where_asked_for() {
    colored::control::set_override(false);
    let found = DiffReport {
        findings: vec![finding(
            Severity::Critical,
            "Parameter Type Changed",
            "Type changed from `Vec<u32>` to `Vec<u64>`.",
            None,
        )],
    };
    let mut report = SafetyReport::new(&found);
    assert!(!report.generate_summary_text(false).contains("- Vec<[u32]>"));
    report.diff_types = true;
    assert!(report.generate_summary_text(false).contains(
        "🔴 Type changed from `Vec<u32>` to `Vec<u64>`.\n    - Vec<[u32]>\n    + Vec<[u64]>\n\n"
    ));
}

#[test]
fn new_findings_are_marked() {
    let mut report = empty_report();
    let mut found = SafetyReport::new(&sample())
        .findings_by_category
        .get("Parameter Renamed")
        .unwrap()[0]
        .clone();
    found.baseline_status = Some(BaselineStatus::New);
    report.total_findings = 1;
    report.findings_by_category.file("Parameter Renamed", found);
    assert!(report
        .generate_summary_text(false)
        .contains("🟡 [NEW] Parameter renamed.\n"));
    assert!(report
        .generate_summary_markdown()
        .contains("- 🟡 **[NEW]** Parameter renamed.\n"));
    assert!(report
        .generate_summary_html()
        .contains("<span class=\"badge badge-new\">new</span> "));
}

#[test]
fn the_markdown_of_a_failing_report() {
    assert_eq!(
        SafetyReport::new(&sample()).generate_summary_markdown(),
        format!(
            "# Soroban Upgrade Safety Report\n\n\
             ## Status: ❌ FAILED (Exported-interface breaking changes detected)\n\n\
             _{SCOPE_SUMMARY_LINE}_\n\n\
             **Scope:** Storage layout: NOT analyzed — no storage schema supplied.\n\n\
             ### Summary Table\n\n| Finding Severity | Count |\n| :--- | :--- |\n\
             | **Critical** | 2 |\n| **Warning** | 1 |\n| **Info** | 1 |\n\
             \n**Recommended SemVer Bump**: `major`\n\n---\n\n\
             ### Struct Field Removed\n\n- 🔴 Field 'a' removed.\n- 🔴 Field 'b' removed.\n\n\
             ### Parameter Renamed\n\n- 🟡 Parameter renamed.\n\n\
             ### Function Added\n\n- 🔵 Function 'g' added.\n\n\
             ### ⚠️ Action Required\n\n\
             - The new contract version modifies existing storage layouts or function interfaces.\n\
             - Deploying this upgrade will result in orphaned data, serialization panics, or broken integrations.\n"
        )
    );
}

#[test]
fn the_markdown_of_an_empty_report() {
    let mut report = empty_report();
    report.metrics = Some(BuildMetrics::new(2_097_152, 1_048_576, 3, 2, 1, 4, 0, 0, 0, 0, 0, 0));
    let markdown = report.generate_summary_markdown();
    assert!(markdown.ends_with(&format!(
        "---\n\nNo relevant changes detected. The exported interface is identical in its exports and types.\n\n\
         > {STORAGE_NOT_VERIFIED_NOTE}\n\
         ## 📊 Build Metrics\n\n| Metric | Old | New | Delta |\n| :--- | ---: | ---: | ---: |\n\
         | **WASM size** | 2.00 MB | 1.00 MB | -1.00 MB |\n| **Functions** | 3 | 2 | -1 |\n\
         | **Structs** | 1 | 4 | +3 |\n| **Enums** | 0 | 0 | +0 |\n| **Unions** | 0 | 0 | +0 |\n\
         | **Error Enums** | 0 | 0 | +0 |\n\n"
    )));
    assert!(markdown.contains("**Recommended SemVer Bump**: `patch`\n\n"));
}

#[test]
fn the_annotations_of_a_report() {
    let hidden = config(vec![rule("struct_field_removed", Some("S.a"), None)], &[]);
    assert_eq!(
        under(&hidden, false).generate_summary_github_actions(Some("pair")),
        "::group::pair\n\
         ::notice::[Function Added] Function 'g' added.\n\
         ::warning::[Parameter Renamed] Parameter renamed.\n\
         ::error::[Struct Field Removed] Field 'b' removed.\n\
         ::notice::[Struct Field Removed] Field 'a' removed.\n\
         \nSoroban Upgrade Safeguard: FAILED — 2 critical, 1 warning(s), 1 info (1 suppressed, 0 severity-overridden)\n\
         ::endgroup::\n"
    );
    assert_eq!(
        empty_report().generate_summary_github_actions(None),
        "\nSoroban Upgrade Safeguard: PASSED — 0 critical, 0 warning(s), 0 info (0 suppressed, 0 severity-overridden)\n"
    );
}

#[test]
fn the_test_suite_of_a_report() {
    let hidden = config(
        vec![rule("struct_field_removed", Some("S.a"), Some("known <ok>"))],
        &[("Function Added", Severity::Warning)],
    );
    let report = under(&hidden, false);
    let print = |category: &str, k: usize| {
        report.findings_by_category.get(category).unwrap()[k]
            .fingerprint
            .clone()
    };
    assert_eq!(
        report.generate_summary_junit(Some("a&b")),
        format!(
            "  <testsuite name=\"a&amp;b\" tests=\"4\" failures=\"1\" errors=\"0\" skipped=\"1\">\n    \
             <testcase classname=\"soroban-upgrade-safeguard.a&amp;b\" name=\"Function Added: g\">\n      \
             <system-out>[warning] Function &apos;g&apos; added.\nrule_id: function_added\nfingerprint: {}\nseverity overridden: info -&gt; warning</system-out>\n    </testcase>\n    \
             <testcase classname=\"soroban-upgrade-safeguard.a&amp;b\" name=\"Parameter Renamed\">\n      \
             <system-out>[warning] Parameter renamed.\nrule_id: parameter_renamed\nfingerprint: {}</system-out>\n    </testcase>\n    \
             <testcase classname=\"soroban-upgrade-safeguard.a&amp;b\" name=\"Struct Field Removed: S.b\">\n      \
             <failure type=\"critical\" message=\"Field &apos;b&apos; removed.\">[critical] Field &apos;b&apos; removed.\nrule_id: struct_field_removed\nfingerprint: {}</failure>\n    </testcase>\n    \
             <testcase classname=\"soroban-upgrade-safeguard.a&amp;b\" name=\"Struct Field Removed: S.a\">\n      \
             <skipped message=\"known &lt;ok&gt;\"/>\n    </testcase>\n  </testsuite>\n",
            print("Function Added", 0),
            print("Parameter Renamed", 0),
            print("Struct Field Removed", 0),
        )
    );
}

#[test]
fn strict_mode_never_has_fewer_failures() {
    let count = |xml: &str| xml.matches("<failure ").count();
    let none = SuppressionConfig::default();
    let lenient = under(&none, false).generate_summary_junit(None);
    let strict = under(&none, true).generate_summary_junit(None);
    assert_eq!(count(&lenient), 2);
    assert_eq!(count(&strict), 3);
    assert!(lenient.contains("failures=\"2\""));
    assert!(strict.contains("failures=\"3\""));
}

#[test]
fn a_test_suite_declares_the_verdict() {
    let declares = |report: &SafetyReport| {
        report
            .generate_summary_junit(Some("x failures=\"0\" y"))
            .contains(" failures=\"0\" ")
    };
    let none = SuppressionConfig::default();
    for strict in [false, true] {
        let mut report = under(&none, strict);
        assert!(!report.is_safe);
        assert!(!declares(&report));
        report.apply_category_filter(&CategoryFilter {
            include_only: None,
            exclude: vec!["Struct Field Removed".to_string()],
        });
        assert_eq!(report.is_safe, !strict);
        assert_eq!(declares(&report), report.is_safe);
        report.apply_category_filter(&CategoryFilter {
            include_only: Some(vec!["Function Added".to_string()]),
            exclude: vec![],
        });
        assert!(report.is_safe);
        assert!(declares(&report));
    }
    let mut tricky = sample();
    tricky.findings[1].message = "failures=\"0\" errors=\"0\"".to_string();
    assert!(!declares(&SafetyReport::new(&tricky)));
}

#[test]
fn a_test_suite_is_never_empty() {
    assert_eq!(
        empty_report().generate_summary_junit(None),
        "  <testsuite name=\"soroban-upgrade-safeguard\" tests=\"1\" failures=\"0\" errors=\"0\" skipped=\"0\">\n    \
         <testcase classname=\"soroban-upgrade-safeguard.soroban-upgrade-safeguard\" name=\"no breaking changes detected\"/>\n  \
         </testsuite>\n"
    );
    assert_eq!(
        junit_document("a<b", "x"),
        "<?xml version=\"1.0\" encoding=\"UTF-8\"?>\n<testsuites name=\"a&lt;b\">\nx</testsuites>\n"
    );
}

#[test]
fn the_page_of_a_report() {
    let mut report = under(&SuppressionConfig::default(), true);
    report.metrics = Some(BuildMetrics::new(10, 20, 1, 1, 1, 1, 1, 1, 1, 1, 2, 1));
    assert_eq!(
        report.html_section(Some("<pair>"), false),
        format!(
            "<section class=\"report\">\n<h2 class=\"pair-name\">&lt;pair&gt;</h2>\n\
             <p class=\"banner strict\">⚠️ STRICT MODE ACTIVE — warnings are treated as failures.</p>\n\
             <p class=\"banner fail\">❌ FAILED (Exported-interface breaking changes detected)</p>\n\
             <p class=\"scope\">{}</p>\n\
             <p class=\"scope gap\">Storage layout: NOT analyzed — no storage schema supplied.</p>\n\
             <ul class=\"stats\">\n\
             <li class=\"stat stat-critical\"><span class=\"stat-value\">2</span><span class=\"stat-label\">Critical</span></li>\n\
             <li class=\"stat stat-warning\"><span class=\"stat-value\">1</span><span class=\"stat-label\">Warning</span></li>\n\
             <li class=\"stat stat-info\"><span class=\"stat-value\">1</span><span class=\"stat-label\">Info</span></li>\n\
             </ul>\n<p class=\"meta\">Recommended SemVer bump: <code>major</code></p>\n\
             <details class=\"category\" open>\n<summary>Struct Field Removed <span class=\"count\">2</span></summary>\n<ul class=\"findings\">\n\
             <li class=\"finding sev-critical\"><span class=\"badge badge-critical\">critical</span> <span class=\"message\">Field &#39;a&#39; removed.</span> <code class=\"target\">S.a</code></li>\n\
             <li class=\"finding sev-critical\"><span class=\"badge badge-critical\">critical</span> <span class=\"message\">Field &#39;b&#39; removed.</span> <code class=\"target\">S.b</code></li>\n\
             </ul>\n</details>\n\
             <details class=\"category\" open>\n<summary>Parameter Renamed <span class=\"count\">1</span></summary>\n<ul class=\"findings\">\n\
             <li class=\"finding sev-warning\"><span class=\"badge badge-warning\">warning</span> <span class=\"message\">Parameter renamed.</span></li>\n\
             </ul>\n</details>\n\
             <details class=\"category\">\n<summary>Function Added <span class=\"count\">1</span></summary>\n<ul class=\"findings\">\n\
             <li class=\"finding sev-info\"><span class=\"badge badge-info\">info</span> <span class=\"message\">Function &#39;g&#39; added.</span> <code class=\"target\">g</code></li>\n\
             </ul>\n</details>\n\
             <p class=\"banner fail\">⚠️ ACTION REQUIRED: the new contract version modifies existing storage layouts or function interfaces. Deploying this upgrade will result in orphaned data, serialization panics, or broken integrations.</p>\n\
             <details class=\"category\">\n<summary>📊 Build Metrics</summary>\n\
             <div class=\"table-scroll\"><table>\n<thead><tr><th>Metric</th><th>Old</th><th>New</th><th>Delta</th></tr></thead>\n<tbody>\n\
             <tr><td>WASM size</td><td>10 B</td><td>20 B</td><td>+10 B</td></tr>\n\
             <tr><td>Functions</td><td>1</td><td>1</td><td>+0</td></tr>\n\
             <tr><td>Structs</td><td>1</td><td>1</td><td>+0</td></tr>\n\
             <tr><td>Enums</td><td>1</td><td>1</td><td>+0</td></tr>\n\
             <tr><td>Unions</td><td>1</td><td>1</td><td>+0</td></tr>\n\
             <tr><td>Error Enums</td><td>2</td><td>1</td><td>-1</td></tr>\n\
             </tbody>\n</table></div>\n</details>\n</section>\n",
            escape_html(SCOPE_SUMMARY_LINE)
        )
    );
}

#[test]
fn a_page_stands_alone() {
    let html = SafetyReport::new(&sample()).generate_summary_html();
    assert!(html.starts_with("<!DOCTYPE html>\n"));
    assert!(html.ends_with("</body>\n</html>\n"));
    assert!(html.contains("<title>Soroban Upgrade Safety Report</title>\n<style>"));
    assert!(html.contains("<h1 class=\"title\">Soroban Upgrade Safety Report</h1>\n"));
    assert!(html.contains("sev-toggle"));
    assert!(html.contains("body.hide-info li.sev-info { display: none; }"));
    for external in [
        "http://", "https://", "//cdn", "src=\"//", "@import", "url(", "<img", "<link",
    ] {
        assert!(!html.contains(external), "found '{external}'");
    }
    let page = html_document("<t>", "BODY");
    assert!(page.contains("<title>&lt;t&gt;</title>"));
    assert!(page.contains("</div>\nBODY\n</main>\n<script>\n"));
}

#[test]
fn the_page_of_an_empty_report() {
    let html = empty_report().html_section(None, true);
    assert!(html.ends_with(&format!(
        "<p class=\"empty\">No relevant changes detected. The exported interface is identical in its exports and types.</p>\n\
         <p class=\"note\">{}</p>\n</section>\n",
        escape_html(STORAGE_NOT_VERIFIED_NOTE)
    )));
    assert!(html.contains(
        "<p class=\"banner pass\">✅ PASSED (No exported-interface breaking changes)</p>\n"
    ));
}

#[test]
fn the_data_of_a_report() {
    let hidden = config(vec![rule("enum_removed", Some("E"), None)], &[]);
    let mut report = under(&hidden, true);
    report.baseline_source = Some("RPC".to_string());
    let json = report.to_json();
    assert!(!json.is_safe);
    assert!(json.strict);
    assert_eq!(json.certifies, SCOPE_SUMMARY_LINE);
    assert_eq!(json.counts.critical, 2);
    assert_eq!(json.counts.warning, 1);
    assert_eq!(json.counts.info, 1);
    assert_eq!(json.total_findings, 4);
    assert_eq!(json.recommended_bump, "major");
    assert_eq!(json.baseline_source, Some("RPC"));
    assert_eq!(json.verified_code_hash, None);
    let names: Vec<&str> = json.findings_by_category.iter().map(|(n, _)| *n).collect();
    assert_eq!(
        names,
        vec!["Function Added", "Parameter Renamed", "Struct Field Removed"]
    );
    assert_eq!(json.findings_by_category[2].1.len(), 2);
    assert_eq!(json.unmatched_suppressions.len(), 1);
    assert_eq!(json.unmatched_suppressions[0].category, "enum_removed");
    assert_eq!(json.unmatched_suppressions[0].target.as_deref(), Some("E"));
    assert_eq!(json.tool_version, "0.1.0");
    assert!(json.metrics.is_none());
    assert!(json.baseline_diff.is_none());
    assert!(json.scope.exported_interface_analyzed);
    assert!(!json.scope.env_metadata_analyzed);
    assert!(!json.scope.storage_layout_analyzed);
}

#[test]
fn a_verdict_claims_no_more_than_was_analysed() {
    let scope = AnalysisScope {
        env_metadata: true,
        storage_schema: StorageScopeState::Analyzed {
            key_types: 2,
            value_types: 3,
        },
        ..AnalysisScope::default()
    };
    assert!(scope.storage_analyzed());
    assert_eq!(
        scope.summary_line(),
        "Exported interface + environment metadata, plus a declared storage schema \
         (2 key type(s), 3 value type(s)). Storage coverage is limited to the declared types."
    );
    assert_eq!(
        scope.storage_status_line(),
        "Storage layout: analyzed against the declared schema (2 key type(s), 3 value type(s))."
    );
    let json = scope.to_json();
    assert_eq!(json.storage_key_types, Some(2));
    assert_eq!(json.storage_value_types, Some(3));
    assert!(json.storage_layout_analyzed);
    let report = empty_report().with_scope(scope);
    assert_eq!(
        report.passed_status_label(),
        "✅ PASSED (No exported-interface or declared-storage breaks)"
    );
    assert_eq!(
        report.failed_status_label(),
        "❌ FAILED (Breaking changes detected in the exported interface or declared storage)"
    );
    let narrow = AnalysisScope::default();
    assert!(!narrow.storage_analyzed());
    assert_eq!(narrow.summary_line(), SCOPE_SUMMARY_LINE);
    assert_eq!(narrow.to_json().storage_key_types, None);
}

#[test]
fn sizes_are_rounded_like_floating_point_numbers() {
    let written = |n: usize| {
        if n >= 1_048_576 {
            format!("{:.2} MB", n as f64 / 1_048_576.0)
        } else if n >= 1024 {
            format!("{:.2} KB", n as f64 / 1024.0)
        } else {
            format!("{} B", n)
        }
    };
    assert_eq!(BuildMetrics::format_bytes(0), "0 B");
    assert_eq!(BuildMetrics::format_bytes(1023), "1023 B");
    assert_eq!(BuildMetrics::format_bytes(1152), "1.12 KB");
    assert_eq!(BuildMetrics::format_bytes(1408), "1.38 KB");
    assert_eq!(BuildMetrics::format_bytes(1_048_575), "1024.00 KB");
    assert_eq!(BuildMetrics::format_delta(0), "+0 B");
    assert_eq!(BuildMetrics::format_delta(-1536), "-1.50 KB");
    let mut n: usize = 1;
    while n < 3_000_000 {
        assert_eq!(BuildMetrics::format_bytes(n), written(n));
        n += 97;
    }
    for n in [
        usize::MAX,
        usize::MAX - 1,
        usize::MAX / 2,
        usize::MAX / 3,
        (1 << 53) + 1,
        (1 << 53) - 1,
        (1 << 54) + 3,
        (1 << 60) + 12345,
        1_048_576,
        1_053_818,
    ] {
        assert_eq!(BuildMetrics::format_bytes(n), written(n));
    }
    assert_eq!(BuildMetrics::format_delta(i64::MIN), format!("-{}", written(1 << 63)));
}
