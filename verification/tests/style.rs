use soroban_upgrade_safeguard::diff::DiffReport;
use soroban_upgrade_safeguard::diff::Finding;
use soroban_upgrade_safeguard::diff::Severity;
use soroban_upgrade_safeguard::report::SafetyReport;
use soroban_upgrade_safeguard::style::paint;
use soroban_upgrade_safeguard::style::Color;
use soroban_upgrade_safeguard::style::Style;
use soroban_upgrade_safeguard::style::StyledText;
use soroban_upgrade_safeguard::style::Weight;

#[test]
fn texts_are_painted_where_colours_are_on() {
    colored::control::set_override(true);
    let bold = |c: Option<Color>| Style {
        color: c,
        weight: Weight::Bold,
    };
    let dim = |c: Option<Color>| Style {
        color: c,
        weight: Weight::Dimmed,
    };
    let normal = |c: Option<Color>| Style {
        color: c,
        weight: Weight::Normal,
    };
    assert_eq!(paint("t", normal(None)), "t");
    assert_eq!(paint("t", bold(None)), "\u{1b}[1mt\u{1b}[0m");
    assert_eq!(paint("t", dim(None)), "\u{1b}[2mt\u{1b}[0m");
    assert_eq!(paint("t", normal(Some(Color::Red))), "\u{1b}[31mt\u{1b}[0m");
    assert_eq!(paint("t", bold(Some(Color::Green))), "\u{1b}[1;32mt\u{1b}[0m");
    assert_eq!(paint("t", dim(Some(Color::Yellow))), "\u{1b}[2;33mt\u{1b}[0m");
    assert_eq!(paint("t", normal(Some(Color::Blue))), "\u{1b}[34mt\u{1b}[0m");
    assert_eq!(paint("t", normal(Some(Color::Magenta))), "\u{1b}[35mt\u{1b}[0m");
    assert_eq!(paint("t", normal(Some(Color::Cyan))), "\u{1b}[36mt\u{1b}[0m");

    let mut text = StyledText::new();
    text.plain("a");
    text.bold_color("b", Color::Red);
    let mut more = StyledText::new();
    more.dimmed("c");
    text.extend(more);
    assert_eq!(text.len(), 3);
    assert_eq!(text.to_plain(), "abc");
    assert_eq!(text.render(), "a\u{1b}[1;31mb\u{1b}[0m\u{1b}[2mc\u{1b}[0m");

    let report = SafetyReport::new(&DiffReport {
        findings: vec![Finding {
            severity: Severity::Critical,
            category: "Struct Removed".to_string(),
            message: "m".to_string(),
            subject_type: None,
            target: None,
            classification: None,
        }],
    });
    let out = report.generate_summary_text(false);
    assert!(out.contains("\u{1b}[31m🔴 m\u{1b}[0m\n"), "{out:?}");
    assert!(out.contains("\u{1b}[1;35m--- [STRUCT REMOVED] ---\n\u{1b}[0m"), "{out:?}");

    colored::control::set_override(false);
    assert_eq!(paint("t", bold(Some(Color::Red))), "t");
    assert_eq!(text.render(), "abc");
    assert_eq!(
        report.generate_summary_text(false),
        report.summary_spans(false).to_plain()
    );
}
