//! What the text report says, part by part.

use vstd::prelude::*;

use crate::report::findings::GroupView;
use crate::report::findings::ReportedView;
use crate::report::safety::ReportView;
use crate::report::scope;
use crate::report::status;
use crate::report::text_format;
use crate::style;
use crate::style::Color;
use crate::style::SpanView;
use crate::text;
use crate::type_diff;

verus! {

/// Whether the pieces of `part` stand in `spans` one behind the other.
pub open spec fn holds_at(spans: Seq<SpanView>, i: int, part: Seq<SpanView>) -> bool {
    0 <= i && i + part.len() <= spans.len() && spans.subrange(i, i + part.len()) == part
}

/// Whether `part` stands anywhere in `spans`, in one piece.
pub open spec fn holds(spans: Seq<SpanView>, part: Seq<SpanView>) -> bool {
    exists|i: int| holds_at(spans, i, part)
}

/// What stands in a part stands in the whole.
pub broadcast proof fn lemma_held_by_joined(a: Seq<SpanView>, b: Seq<SpanView>, part: Seq<SpanView>)
    ensures
        holds(a, part) || holds(b, part) ==> #[trigger] holds(a + b, part),
{
    if holds(a, part) {
        let i = choose|i: int| holds_at(a, i, part);
        assert((a + b).subrange(i, i + part.len()) =~= a.subrange(i, i + part.len()));
        assert(holds_at(a + b, i, part));
    } else if holds(b, part) {
        let i = choose|i: int| holds_at(b, i, part);
        let k = a.len() + i;
        assert((a + b).subrange(k, k + part.len()) =~= b.subrange(i, i + part.len()));
        assert(holds_at(a + b, k, part));
    }
}

pub proof fn lemma_held(spans: Seq<SpanView>, i: int, part: Seq<SpanView>)
    requires
        0 <= i && i + part.len() <= spans.len(),
        spans.subrange(i, i + part.len()) =~= part,
    ensures
        holds(spans, part),
{
    assert(holds_at(spans, i, part));
}

/// The text report tells the number of findings of each severity. The number of
/// critical ones is red where there are any and green where there are none.
pub proof fn the_text_tells_the_counts(r: ReportView, explain: bool)
    ensures
        holds(
            text_format::summary_text(r, explain),
            seq![
                style::plain("Critical: "@),
                if r.critical_count == 0 {
                    style::colored(text::decimal(0), Color::Green)
                } else {
                    style::bold_colored(text::decimal(r.critical_count), Color::Red)
                },
                style::plain("\n"@),
            ],
        ),
        holds(
            text_format::summary_text(r, explain),
            seq![
                style::plain("Warnings: "@),
                if r.warning_count == 0 {
                    style::plain(text::decimal(0))
                } else {
                    style::bold_colored(text::decimal(r.warning_count), Color::Yellow)
                },
                style::plain("\n"@),
            ],
        ),
        holds(
            text_format::summary_text(r, explain),
            seq![
                style::plain("Info:     "@),
                style::colored(text::decimal(r.info_count), Color::Blue),
                style::plain("\n"@),
            ],
        ),
{
    broadcast use lemma_held_by_joined;

    let counts = text_format::counts_text(r);
    let critical = seq![
        style::plain("Critical: "@),
        if r.critical_count == 0 {
            style::colored(text::decimal(0), Color::Green)
        } else {
            style::bold_colored(text::decimal(r.critical_count), Color::Red)
        },
        style::plain("\n"@),
    ];
    let warnings = seq![
        style::plain("Warnings: "@),
        if r.warning_count == 0 {
            style::plain(text::decimal(0))
        } else {
            style::bold_colored(text::decimal(r.warning_count), Color::Yellow)
        },
        style::plain("\n"@),
    ];
    let info = seq![
        style::plain("Info:     "@),
        style::colored(text::decimal(r.info_count), Color::Blue),
        style::plain("\n"@),
    ];
    lemma_held(counts, 0, critical);
    lemma_held(counts, 3, warnings);
    lemma_held(counts, 6, info);
    assert(holds(text_format::head_text(r), critical));
    assert(holds(text_format::head_text(r), warnings));
    assert(holds(text_format::head_text(r), info));
}

/// Where findings were acknowledged, hidden or given another severity, the text
/// report tells how many; where none were, it does not speak of it.
pub proof fn the_text_tells_what_was_changed(r: ReportView, explain: bool)
    ensures
        r.suppressed_count > 0 ==> holds(
            text_format::summary_text(r, explain),
            seq![
                style::plain("Suppressed: "@),
                style::bold_colored(text::decimal(r.suppressed_count), Color::Magenta),
            ],
        ),
        r.filtered_count > 0 ==> holds(
            text_format::summary_text(r, explain),
            seq![
                style::plain("Filtered:   "@),
                style::bold_colored(text::decimal(r.filtered_count), Color::Yellow),
            ],
        ),
        r.severity_overridden_count > 0 ==> holds(
            text_format::summary_text(r, explain),
            seq![
                style::plain("Overridden: "@),
                style::bold_colored(text::decimal(r.severity_overridden_count), Color::Magenta),
            ],
        ),
        text_format::suppressed_text(0).len() == 0,
        text_format::filtered_text(0).len() == 0,
        text_format::overridden_text(0).len() == 0,
{
    broadcast use lemma_held_by_joined;

    let head = text_format::head_text(r);
    if r.suppressed_count > 0 {
        let line = seq![
            style::plain("Suppressed: "@),
            style::bold_colored(text::decimal(r.suppressed_count), Color::Magenta),
        ];
        lemma_held(text_format::suppressed_text(r.suppressed_count), 0, line);
        assert(holds(head, line));
    }
    if r.filtered_count > 0 {
        let line = seq![
            style::plain("Filtered:   "@),
            style::bold_colored(text::decimal(r.filtered_count), Color::Yellow),
        ];
        lemma_held(text_format::filtered_text(r.filtered_count), 0, line);
        assert(holds(head, line));
    }
    if r.severity_overridden_count > 0 {
        let line = seq![
            style::plain("Overridden: "@),
            style::bold_colored(text::decimal(r.severity_overridden_count), Color::Magenta),
        ];
        lemma_held(text_format::overridden_text(r.severity_overridden_count), 0, line);
        assert(holds(head, line));
    }
}

/// The text report tells what was analysed, in yellow where the storage was left
/// out, and which version step it calls for, with the colour of the worst finding.
pub proof fn the_text_tells_its_scope(r: ReportView, explain: bool)
    ensures
        holds(
            text_format::summary_text(r, explain),
            seq![style::plain("Scope:  "@), style::dimmed(scope::claim(r.scope))],
        ),
        holds(
            text_format::summary_text(r, explain),
            seq![
                style::plain("        "@),
                if r.scope.storage_schema is NotAnalyzed {
                    style::colored(scope::storage_claim(r.scope), Color::Yellow)
                } else {
                    style::dimmed(scope::storage_claim(r.scope))
                },
            ],
        ),
        holds(
            text_format::summary_text(r, explain),
            seq![
                style::plain("Recommended Bump: "@),
                style::bold_colored(
                    status::bump(r),
                    if r.critical_count + r.warning_count + r.info_count == 0 {
                        Color::Green
                    } else if r.critical_count == 0 {
                        Color::Yellow
                    } else {
                        Color::Red
                    },
                ),
            ],
        ),
{
    broadcast use lemma_held_by_joined;

    let head = text_format::head_text(r);
    let claim = seq![style::plain("Scope:  "@), style::dimmed(scope::claim(r.scope))];
    let storage = seq![
        style::plain("        "@),
        if r.scope.storage_schema is NotAnalyzed {
            style::colored(scope::storage_claim(r.scope), Color::Yellow)
        } else {
            style::dimmed(scope::storage_claim(r.scope))
        },
    ];
    let bump = seq![
        style::plain("Recommended Bump: "@),
        style::bold_colored(
            status::bump(r),
            if r.critical_count + r.warning_count + r.info_count == 0 {
                Color::Green
            } else if r.critical_count == 0 {
                Color::Yellow
            } else {
                Color::Red
            },
        ),
    ];
    lemma_held(text_format::verdict_text(r), 3, claim);
    lemma_held(text_format::verdict_text(r), 6, storage);
    lemma_held(text_format::bump_text(r), 0, bump);
    assert(holds(head, claim));
    assert(holds(head, storage));
    assert(holds(head, bump));
}

/// The text report tells where the old build comes from, which digest its code was
/// found to have, and how the findings compare with an earlier report.
pub proof fn the_text_tells_its_origin(r: ReportView, explain: bool)
    ensures
        r.baseline_source matches Some(t) ==> holds(
            text_format::summary_text(r, explain),
            seq![style::plain("Baseline Source: "@ + t + "\n"@)],
        ),
        r.verified_code_hash matches Some(t) ==> holds(
            text_format::summary_text(r, explain),
            seq![style::plain("Verified Code Hash: "@), style::dimmed(t), style::plain("\n"@)],
        ),
        r.baseline_diff matches Some(d) ==> holds(
            text_format::summary_text(r, explain),
            seq![
                style::plain("Baseline: "@),
                style::bold(text::decimal(d.new_count as nat)),
                style::plain(
                    " new, "@ + text::decimal(d.persisting_count as nat) + " persisting, "@
                        + text::decimal(d.resolved.len()) + " resolved (vs. tool v"@
                        + d.baseline_tool_version + ")"@ + text_format::new_only_remark(d)
                        + "\n"@,
                ),
            ],
        ),
{
    match r.baseline_source {
        Some(t) => {
            let line = seq![style::plain("Baseline Source: "@ + t + "\n"@)];
            lemma_held(text_format::source_text(r.baseline_source), 0, line);
            lemma_held_from(r, explain, line);
        },
        None => {},
    }
    match r.verified_code_hash {
        Some(t) => {
            let line = seq![
                style::plain("Verified Code Hash: "@),
                style::dimmed(t),
                style::plain("\n"@),
            ];
            lemma_held(text_format::hash_text(r.verified_code_hash), 0, line);
            lemma_held_from(r, explain, line);
        },
        None => {},
    }
    match r.baseline_diff {
        Some(d) => {
            let line = seq![
                style::plain("Baseline: "@),
                style::bold(text::decimal(d.new_count as nat)),
                style::plain(
                    " new, "@ + text::decimal(d.persisting_count as nat) + " persisting, "@
                        + text::decimal(d.resolved.len()) + " resolved (vs. tool v"@
                        + d.baseline_tool_version + ")"@ + text_format::new_only_remark(d)
                        + "\n"@,
                ),
            ];
            lemma_held(text_format::baseline_text(r.baseline_diff), 0, line);
            lemma_held_from(r, explain, line);
        },
        None => {},
    }
}

/// What stands in the lines on the origin stands in the report.
proof fn lemma_held_from(r: ReportView, explain: bool, part: Seq<SpanView>)
    requires
        holds(text_format::source_text(r.baseline_source), part) || holds(
            text_format::hash_text(r.verified_code_hash),
            part,
        ) || holds(text_format::baseline_text(r.baseline_diff), part),
    ensures
        holds(text_format::summary_text(r, explain), part),
{
    broadcast use lemma_held_by_joined;

    assert(holds(text_format::head_text(r), part));
}

/// The text report calls for action exactly where the upgrade is not safe. It names
/// strict mode as the reason where no finding is critical.
pub proof fn the_text_calls_for_action(r: ReportView, explain: bool)
    ensures
        text_format::action_text(r).len() == 0 <==> r.is_safe,
        r.total_findings > 0 && !r.is_safe && r.strict && r.critical_count == 0 ==> holds(
            text_format::summary_text(r, explain),
            seq![
                style::bold_colored(
                    "⚠️  ACTION REQUIRED: Strict mode is active and warnings were detected.\n"@,
                    Color::Yellow,
                ),
            ],
        ),
        r.total_findings > 0 && !r.is_safe && (!r.strict || r.critical_count > 0) ==> holds(
            text_format::summary_text(r, explain),
            seq![
                style::bold_colored(
                    "⚠️  ACTION REQUIRED: The new contract version modifies existing storage layouts or function interfaces.\n"@,
                    Color::Red,
                ),
            ],
        ),
{
    broadcast use lemma_held_by_joined;

    let action = text_format::action_text(r);
    if !r.is_safe {
        lemma_held(action, 0, seq![action[0]]);
    }
}

/// Below the line on a finding the text report tells the reason of an
/// acknowledgement, the guidance where it is asked for and, of a finding that no rule
/// acknowledges, the types that changed.
pub proof fn the_text_tells_the_details(r: ReportView, f: ReportedView, explain: bool)
    ensures
        f.suppressed ==> (f.suppression_reason matches Some(t) ==> holds(
            text_format::finding_text(r, f, explain),
            seq![style::dimmed("    ↳ reason: "@ + t + "\n"@)],
        )),
        explain && f.suppressed ==> (f.remediation matches Some(t) ==> holds(
            text_format::finding_text(r, f, explain),
            seq![style::dimmed("    ↳ guidance: "@ + t + "\n"@)],
        )),
        explain && !f.suppressed ==> (f.remediation matches Some(t) ==> holds(
            text_format::finding_text(r, f, explain),
            seq![style::colored("    ↳ guidance: "@ + t + "\n"@, Color::Green)],
        )),
        !f.suppressed ==> holds(
            text_format::finding_text(r, f, explain),
            text_format::types_text(r, f),
        ),
{
    broadcast use lemma_held_by_joined;

    lemma_held(text_format::types_text(r, f), 0, text_format::types_text(r, f));
    match f.suppression_reason {
        Some(t) => {
            let line = text_format::reason_text(f.suppression_reason);
            assert(line =~= seq![style::dimmed("    ↳ reason: "@ + t + "\n"@)]);
            lemma_held(line, 0, line);
        },
        None => {},
    }
    match f.remediation {
        Some(t) => {
            if explain {
                let line = text_format::guidance_text(explain, f.remediation, f.suppressed);
                lemma_held(line, 0, line);
                if f.suppressed {
                    assert(line =~= seq![style::dimmed("    ↳ guidance: "@ + t + "\n"@)]);
                } else {
                    assert(line =~= seq![
                        style::colored("    ↳ guidance: "@ + t + "\n"@, Color::Green),
                    ]);
                }
            }
        },
        None => {},
    }
}

/// The heading of a group is its category, with the letters from a to z in capitals
/// and every other character as it is.
pub proof fn a_group_is_headed_by_its_category(r: ReportView, g: GroupView, explain: bool)
    ensures
        ({
            let name = text::ascii_upper_text(g.category);
            &&& text_format::group_text(r, g, explain)[0] == style::bold_colored(
                "--- ["@ + name + "] ---\n"@,
                Color::Magenta,
            )
            &&& name.len() == g.category.len()
            &&& forall|i: int|
                0 <= i < name.len() ==> if 'a' <= g.category[i] <= 'z' {
                    #[trigger] name[i] as int == g.category[i] as int + 'A' as int - 'a' as int
                } else {
                    name[i] == g.category[i]
                }
        }),
{
}

/// The log of suppressions of the text report tells category and target of each
/// acknowledged finding, and fingerprint, author, end and reason of its rule, where
/// the rule has them.
pub proof fn a_log_entry_tells_its_rule(f: ReportedView)
    ensures
        text::begins_with(
            text_format::audit_entry(f),
            " - Category:    "@ + f.finding.category + "\n   Target:      "@,
        ),
        f.finding.target matches Some(t) ==> text::begins_with(
            text_format::audit_entry(f),
            " - Category:    "@ + f.finding.category + "\n   Target:      "@ + t + "\n"@,
        ),
        f.suppression_fingerprint matches Some(t) ==> text::has_sub(
            text_format::audit_entry(f),
            "   Fingerprint: "@ + t + "\n"@,
        ),
        f.suppression_author matches Some(t) ==> text::has_sub(
            text_format::audit_entry(f),
            "   Author:      "@ + t + " (expires "@ + (match f.suppression_expiry {
                Some(e) => e,
                None => "never"@,
            }) + ")\n"@,
        ),
        f.suppression_reason matches Some(t) ==> text::has_sub(
            text_format::audit_entry(f),
            "   Reason:      "@ + t + "\n"@,
        ),
{
    broadcast use text::lemma_sub_of_joined, text::lemma_begins_with_joined;

    let front = " - Category:    "@ + f.finding.category + "\n   Target:      "@;
    assert(front.take(front.len() as int) =~= front);
    assert(text::begins_with(front, front));
    match f.finding.target {
        Some(t) => {
            let line = front + t + "\n"@;
            assert(line.take(line.len() as int) =~= line);
            assert(text::begins_with(line, line));
        },
        None => {},
    }
    text::lemma_sub_of_itself(
        text_format::optional_line("   Fingerprint: "@, f.suppression_fingerprint),
    );
    text::lemma_sub_of_itself(text_format::author_line(f));
    text::lemma_sub_of_itself(
        text_format::optional_line("   Reason:      "@, f.suppression_reason),
    );
}

/// The types of a finding are shown exactly where type changes are to be shown, its
/// category is one of type changes and its message names an old and a new type; then
/// both are shown as they stand in the message, in colour where that is asked for.
pub proof fn types_are_shown_where_they_changed(r: ReportView, f: ReportedView)
    ensures
        ({
            let shown = text_format::types_text(r, f);
            let pair = type_diff::type_pair(f.finding.message);
            &&& shown.len() > 0 <==> r.diff_types && type_diff::is_type_change(
                f.finding.category,
            ) && pair is Some
            &&& shown.len() > 0 ==> (pair matches Some((old_ty, new_ty)) && shown
                == type_diff::diff_spans(old_ty, new_ty, r.use_color))
        }),
{
}

} // verus!
