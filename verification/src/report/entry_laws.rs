//! What each format says of one finding.

use vstd::prelude::*;

use crate::baseline::BaselineStatus;
use crate::diff;
use crate::diff::Severity;
use crate::report::actions;
use crate::report::escape;
use crate::report::findings::ReportedView;
use crate::report::html;
use crate::report::junit;
use crate::report::markdown;
use crate::report::safety::ReportView;
use crate::report::status;
use crate::report::text_format;
use crate::style;
use crate::style::Color;
use crate::text;

verus! {

proof fn lemma_starts(a: Seq<char>, b: Seq<char>)
    ensures
        text::begins_with(a + b, a),
{
    assert((a + b).take(a.len() as int) =~= a);
}

/// Where a severity was changed, the marks tell from which one to which; where it
/// was not, there is no mark.
pub proof fn a_changed_severity_is_told(f: ReportedView)
    ensures
        f.original_severity is None ==> status::severity_mark(f).len() == 0
            && markdown::severity_mark_md(f).len() == 0 && html::override_badge(f).len() == 0
            && junit::override_line(f).len() == 0,
        f.original_severity matches Some(o) ==> {
            let from = diff::severity_label(o);
            let to = diff::severity_label(f.finding.severity);
            &&& status::severity_mark(f) == "[SEVERITY "@ + from + " → "@ + to + "] "@
            &&& text::has_sub(markdown::severity_mark_md(f), "[SEVERITY "@ + from + " → "@ + to)
            &&& text::has_sub(html::override_badge(f), "severity "@ + from + " → "@ + to)
            &&& text::has_sub(junit::override_line(f), from + " -> "@ + to)
        },
{
    broadcast use text::lemma_sub_of_joined;

    reveal_strlit("");
    match f.original_severity {
        Some(o) => {
            let from = diff::severity_label(o);
            let to = diff::severity_label(f.finding.severity);
            let mark = "[SEVERITY "@ + from + " → "@ + to;
            let badge = "severity "@ + from + " → "@ + to;
            let line = from + " -> "@ + to;
            text::lemma_sub_of_itself(mark);
            text::lemma_sub_of_itself(badge);
            text::lemma_sub_of_itself(line);
            reveal_strlit("**[SEVERITY ");
            reveal_strlit("[SEVERITY ");
            reveal_strlit("**");
            assert("**"@ + "[SEVERITY "@ =~= "**[SEVERITY "@);
            assert(markdown::severity_mark_md(f) =~= "**"@ + mark + "]** "@);
            reveal_strlit("<span class=\"badge badge-overridden\">severity ");
            reveal_strlit("<span class=\"badge badge-overridden\">");
            reveal_strlit("severity ");
            assert("<span class=\"badge badge-overridden\">"@ + "severity "@
                =~= "<span class=\"badge badge-overridden\">severity "@);
            assert(html::override_badge(f) =~= "<span class=\"badge badge-overridden\">"@ + badge
                + "</span> "@);
            assert(junit::override_line(f) =~= "\nseverity overridden: "@ + line);
        },
        None => {},
    }
}

/// An annotation is an error exactly where its finding is critical and no rule
/// acknowledges it, a warning exactly where it is an unacknowledged warning, and a
/// notice otherwise. It tells the category and, at its end, the message.
pub proof fn an_annotation_has_the_level_of_its_finding(f: ReportedView)
    ensures
        text::begins_with(actions::annotation(f), "::error::["@ + f.finding.category + "] "@) <==> (
        !f.suppressed && f.finding.severity == Severity::Critical),
        text::begins_with(actions::annotation(f), "::warning::["@ + f.finding.category + "] "@)
            <==> (!f.suppressed && f.finding.severity == Severity::Warning),
        text::begins_with(actions::annotation(f), "::notice::["@ + f.finding.category + "] "@)
            <==> (f.suppressed || f.finding.severity == Severity::Info),
        text::has_sub(
            actions::annotation(f),
            "] "@ + status::severity_mark(f) + f.finding.message + "\n"@,
        ),
{
    broadcast use text::lemma_sub_of_joined;

    reveal_strlit("::");
    reveal_strlit("::[");
    reveal_strlit("error");
    reveal_strlit("warning");
    reveal_strlit("notice");
    reveal_strlit("::error::[");
    reveal_strlit("::warning::[");
    reveal_strlit("::notice::[");
    assert("::"@ + "error"@ + "::["@ =~= "::error::["@);
    assert("::"@ + "warning"@ + "::["@ =~= "::warning::["@);
    assert("::"@ + "notice"@ + "::["@ =~= "::notice::["@);
    let error = "::error::["@ + f.finding.category + "] "@;
    let warning = "::warning::["@ + f.finding.category + "] "@;
    let notice = "::notice::["@ + f.finding.category + "] "@;
    let rest = status::severity_mark(f) + f.finding.message + "\n"@;
    let out = actions::annotation(f);
    let front = if f.suppressed || f.finding.severity == Severity::Info {
        notice
    } else if f.finding.severity == Severity::Critical {
        error
    } else {
        warning
    };
    assert(out =~= front + rest);
    lemma_starts(front, rest);
    if front == notice {
        text::lemma_begins_with_one(out, notice, error, 2);
        text::lemma_begins_with_one(out, notice, warning, 2);
    } else if front == error {
        text::lemma_begins_with_one(out, error, notice, 2);
        text::lemma_begins_with_one(out, error, warning, 2);
    } else {
        text::lemma_begins_with_one(out, warning, notice, 2);
        text::lemma_begins_with_one(out, warning, error, 2);
    }
    let end = "] "@ + status::severity_mark(f) + f.finding.message + "\n"@;
    text::lemma_sub_of_itself(end);
    assert(out =~= "::"@ + actions::level(f) + "::["@ + f.finding.category + end);
}

/// The signs that an entry of the Markdown report may begin with.
proof fn lemma_signs_differ()
    ensures
        "- 🔕 **[SUPPRESSED]** "@.len() > 2 && "- 🔴 "@.len() > 2 && "- 🟡 "@.len() > 2
            && "- 🔵 "@.len() > 2,
        "- 🔕 **[SUPPRESSED]** "@[2] == '🔕' && "- 🔴 "@[2] == '🔴' && "- 🟡 "@[2] == '🟡'
            && "- 🔵 "@[2] == '🔵',
        "- "@ + "🔴"@ + " "@ == "- 🔴 "@,
        "- "@ + "🟡"@ + " "@ == "- 🟡 "@,
        "- "@ + "🔵"@ + " "@ == "- 🔵 "@,
{
    reveal_strlit("- 🔕 **[SUPPRESSED]** ");
    reveal_strlit("- 🔴 ");
    reveal_strlit("- 🟡 ");
    reveal_strlit("- 🔵 ");
    reveal_strlit("- ");
    reveal_strlit(" ");
    reveal_strlit("🔴");
    reveal_strlit("🟡");
    reveal_strlit("🔵");
    assert("- "@ + "🔴"@ + " "@ =~= "- 🔴 "@);
    assert("- "@ + "🟡"@ + " "@ =~= "- 🟡 "@);
    assert("- "@ + "🔵"@ + " "@ =~= "- 🔵 "@);
}

/// An entry of the Markdown report begins with the mark of an acknowledged finding
/// exactly where a rule acknowledges the finding, and otherwise with the sign of its
/// severity.
pub proof fn a_markdown_entry_begins_with_its_sign(f: ReportedView, explain: bool)
    ensures
        ({
            let entry = markdown::finding_md(f, explain);
            &&& text::begins_with(entry, "- 🔕 **[SUPPRESSED]** "@) <==> f.suppressed
            &&& text::begins_with(entry, "- 🔴 "@) <==> !f.suppressed && f.finding.severity
                == Severity::Critical
            &&& text::begins_with(entry, "- 🟡 "@) <==> !f.suppressed && f.finding.severity
                == Severity::Warning
            &&& text::begins_with(entry, "- 🔵 "@) <==> !f.suppressed && f.finding.severity
                == Severity::Info
        }),
{
    broadcast use text::lemma_begins_with_joined;

    lemma_signs_differ();
    let entry = markdown::finding_md(f, explain);
    let s = "- 🔕 **[SUPPRESSED]** "@;
    let c = "- 🔴 "@;
    let w = "- 🟡 "@;
    let i = "- 🔵 "@;
    assert(text::begins_with(s, s)) by {
        assert(s.take(s.len() as int) =~= s);
    }
    assert(text::begins_with(c, c)) by {
        assert(c.take(c.len() as int) =~= c);
    }
    assert(text::begins_with(w, w)) by {
        assert(w.take(w.len() as int) =~= w);
    }
    assert(text::begins_with(i, i)) by {
        assert(i.take(i.len() as int) =~= i);
    }
    if f.suppressed {
        assert(text::begins_with(entry, s));
        text::lemma_begins_with_one(entry, s, c, 2);
        text::lemma_begins_with_one(entry, s, w, 2);
        text::lemma_begins_with_one(entry, s, i, 2);
    } else if f.finding.severity == Severity::Critical {
        assert(text::begins_with(entry, c));
        text::lemma_begins_with_one(entry, c, s, 2);
        text::lemma_begins_with_one(entry, c, w, 2);
        text::lemma_begins_with_one(entry, c, i, 2);
    } else if f.finding.severity == Severity::Warning {
        assert(text::begins_with(entry, w));
        text::lemma_begins_with_one(entry, w, s, 2);
        text::lemma_begins_with_one(entry, w, c, 2);
        text::lemma_begins_with_one(entry, w, i, 2);
    } else {
        assert(text::begins_with(entry, i));
        text::lemma_begins_with_one(entry, i, s, 2);
        text::lemma_begins_with_one(entry, i, c, 2);
        text::lemma_begins_with_one(entry, i, w, 2);
    }
}

/// An entry of the Markdown report tells the message behind the mark of a changed
/// severity, the reason of an acknowledgement, the guidance exactly where it is
/// asked for, and of an unacknowledged finding whether it is new.
pub proof fn a_markdown_entry_tells_its_finding(f: ReportedView, explain: bool)
    ensures
        ({
            let entry = markdown::finding_md(f, explain);
            &&& text::has_sub(entry, markdown::severity_mark_md(f) + f.finding.message + "\n"@)
            &&& f.suppressed ==> (f.suppression_reason matches Some(t) ==> text::has_sub(
                entry,
                "↳ reason: "@ + t + "\n"@,
            ))
            &&& explain ==> (f.remediation matches Some(t) ==> text::has_sub(
                entry,
                "↳ guidance: "@ + t + "\n"@,
            ))
            &&& !f.suppressed && f.baseline_status == Some(BaselineStatus::New) ==> text::has_sub(
                entry,
                "**[NEW]** "@ + markdown::severity_mark_md(f) + f.finding.message,
            )
        }),
        markdown::finding_md(f, false) == markdown::finding_md(
            (ReportedView { remediation: None, ..f }),
            true,
        ),
        f.suppressed || f.baseline_status != Some(BaselineStatus::New) ==> markdown::finding_md(
            f,
            explain,
        ) == markdown::finding_md((ReportedView { baseline_status: None, ..f }), explain),
{
    broadcast use text::lemma_sub_of_joined;

    let entry = markdown::finding_md(f, explain);
    let said = markdown::severity_mark_md(f) + f.finding.message + "\n"@;
    text::lemma_sub_of_itself(said);
    reveal_strlit("  - ↳ reason: ");
    reveal_strlit("  - ↳ guidance: ");
    reveal_strlit("↳ reason: ");
    reveal_strlit("↳ guidance: ");
    reveal_strlit("  - ");
    assert("  - "@ + "↳ reason: "@ =~= "  - ↳ reason: "@);
    assert("  - "@ + "↳ guidance: "@ =~= "  - ↳ guidance: "@);
    let guidance = markdown::guidance_md(explain, f.remediation);
    match f.remediation {
        Some(t) => {
            let line = "↳ guidance: "@ + t + "\n"@;
            text::lemma_sub_of_itself(line);
            if explain {
                assert(guidance =~= "  - "@ + line);
                assert(text::has_sub(guidance, line));
            }
        },
        None => {},
    }
    if f.suppressed {
        let reason = markdown::optional_md("  - ↳ reason: "@, f.suppression_reason, "\n"@);
        match f.suppression_reason {
            Some(t) => {
                let line = "↳ reason: "@ + t + "\n"@;
                text::lemma_sub_of_itself(line);
                assert(reason =~= "  - "@ + line);
                assert(text::has_sub(reason, line));
            },
            None => {},
        }
        assert(entry =~= "- 🔕 **[SUPPRESSED]** "@ + said + reason + guidance);
    } else {
        let new = markdown::new_mark_md(f) + markdown::severity_mark_md(f) + f.finding.message;
        text::lemma_sub_of_itself(new);
        let sign = "- "@ + markdown::severity_sign(f.finding.severity) + " "@;
        assert(entry =~= sign + markdown::new_mark_md(f) + said + guidance);
        assert(entry =~= sign + new + "\n"@ + guidance);
    }
}

/// The line of the text report on a finding is dimmed and begins with the mark of an
/// acknowledged finding exactly where a rule acknowledges the finding; otherwise it
/// has the sign and the colour of its severity. The line tells the message.
pub proof fn a_text_entry_begins_with_its_sign(r: ReportView, f: ReportedView, explain: bool)
    ensures
        ({
            let line = text_format::finding_text(r, f, explain)[0];
            let body = text_format::new_mark(f) + status::severity_mark(f) + f.finding.message;
            &&& f.suppressed ==> line == style::dimmed(
                "🔕 [SUPPRESSED] "@ + status::severity_mark(f) + f.finding.message,
            )
            &&& !f.suppressed && f.finding.severity == Severity::Critical ==> line
                == style::colored("🔴 "@ + body, Color::Red)
            &&& !f.suppressed && f.finding.severity == Severity::Warning ==> line
                == style::colored("🟡 "@ + body, Color::Yellow)
            &&& !f.suppressed && f.finding.severity == Severity::Info ==> line == style::colored(
                "🔵 "@ + body,
                Color::Cyan,
            )
        }),
        f.baseline_status == Some(BaselineStatus::New) <==> text_format::new_mark(f).len() > 0,
        !explain ==> text_format::finding_text(r, f, explain) == text_format::finding_text(
            r,
            (ReportedView { remediation: None, ..f }),
            true,
        ),
        !r.diff_types ==> text_format::types_text(r, f).len() == 0,
{
    reveal_strlit("[NEW] ");
    reveal_strlit("");
}

/// An entry of the page has the class and the badge of its severity, and the class
/// of an acknowledged finding exactly where a rule acknowledges it.
pub proof fn a_page_entry_has_its_class(f: ReportedView)
    ensures
        ({
            let sev = diff::severity_label(f.finding.severity);
            let badge = "<span class=\"badge badge-"@ + sev + "\">"@ + sev + "</span> "@;
            &&& text::begins_with(
                html::finding_html(f),
                "<li class=\"finding sev-"@ + sev + " suppressed\">"@ + badge
                    + "<span class=\"badge badge-suppressed\">suppressed</span> "@,
            ) <==> f.suppressed
            &&& text::begins_with(
                html::finding_html(f),
                "<li class=\"finding sev-"@ + sev + "\">"@ + badge,
            ) <==> !f.suppressed
        }),
{
    broadcast use text::lemma_begins_with_joined;

    let sev = diff::severity_label(f.finding.severity);
    let badge = "<span class=\"badge badge-"@ + sev + "\">"@ + sev + "</span> "@;
    let mark = "<span class=\"badge badge-suppressed\">suppressed</span> "@;
    let open = "<li class=\"finding sev-"@ + sev;
    let quiet = open + " suppressed\">"@ + badge + mark;
    let loud = open + "\">"@ + badge;
    reveal_strlit("");
    reveal_strlit(" suppressed");
    reveal_strlit("\">");
    reveal_strlit(" suppressed\">");
    assert(" suppressed"@ + "\">"@ =~= " suppressed\">"@);
    let out = html::finding_html(f);
    if f.suppressed {
        lemma_quiet_badges(f);
        let badges = html::badges_html(f);
        text::lemma_begins_with_after(open + " suppressed\">"@, badges, badge + mark);
        assert(open + " suppressed\">"@ + (badge + mark) =~= quiet);
        assert(open + " suppressed"@ + "\">"@ + badges =~= open + " suppressed\">"@ + badges);
        assert(text::begins_with(out, quiet));
        text::lemma_begins_with_one(out, quiet, loud, open.len() as int);
    } else {
        lemma_quiet_badges(f);
        let badges = html::badges_html(f);
        text::lemma_begins_with_after(open + "\">"@, badges, badge);
        assert(open + "\">"@ + badge =~= loud);
        assert(open + ""@ + "\">"@ + badges =~= open + "\">"@ + badges);
        assert(text::begins_with(out, loud));
        text::lemma_begins_with_one(out, loud, quiet, open.len() as int);
    }
}

/// The badges of a finding begin with that of its severity, which that of an
/// acknowledged finding follows.
proof fn lemma_quiet_badges(f: ReportedView)
    ensures
        ({
            let sev = diff::severity_label(f.finding.severity);
            let badge = "<span class=\"badge badge-"@ + sev + "\">"@ + sev + "</span> "@;
            &&& text::begins_with(html::badges_html(f), badge)
            &&& f.suppressed ==> text::begins_with(
                html::badges_html(f),
                badge + "<span class=\"badge badge-suppressed\">suppressed</span> "@,
            )
        }),
{
    broadcast use text::lemma_begins_with_joined;

    let sev = diff::severity_label(f.finding.severity);
    let badge = "<span class=\"badge badge-"@ + sev + "\">"@ + sev + "</span> "@;
    let mark = "<span class=\"badge badge-suppressed\">suppressed</span> "@;
    assert(badge.take(badge.len() as int) =~= badge);
    assert((badge + mark).take((badge + mark).len() as int) =~= badge + mark);
    assert(text::begins_with(badge, badge));
    assert(text::begins_with(badge + mark, badge + mark));
}

/// A finding that a comparison found to be new has the badge that says so.
pub proof fn a_new_finding_has_its_badge(f: ReportedView)
    ensures
        f.baseline_status == Some(BaselineStatus::New) ==> text::has_sub(
            html::finding_html(f),
            "<span class=\"badge badge-new\">new</span> "@,
        ),
        f.baseline_status != Some(BaselineStatus::New) ==> html::finding_html(f)
            == html::finding_html((ReportedView { baseline_status: None, ..f })),
{
    broadcast use text::lemma_sub_of_joined;

    text::lemma_sub_of_itself("<span class=\"badge badge-new\">new</span> "@);
}

/// An entry of the page tells the message, the target, the reason and the guidance
/// of its finding, where it has them.
pub proof fn a_page_entry_tells_its_finding(f: ReportedView)
    ensures
        ({
            let out = html::finding_html(f);
            &&& text::has_sub(
                out,
                "<span class=\"message\">"@ + escape::html_text(f.finding.message) + "</span>"@,
            )
            &&& f.finding.target matches Some(t) ==> text::has_sub(
                out,
                "<code class=\"target\">"@ + escape::html_text(t) + "</code>"@,
            )
            &&& f.suppression_reason matches Some(t) ==> text::has_sub(
                out,
                "<div class=\"sub\">reason: "@ + escape::html_text(t) + "</div>"@,
            )
            &&& f.remediation matches Some(t) ==> text::has_sub(
                out,
                "<div class=\"sub guidance\">guidance: "@ + escape::html_text(t) + "</div>"@,
            )
        }),
{
    broadcast use text::lemma_sub_of_joined;

    let head = "<li class=\"finding sev-"@ + diff::severity_label(f.finding.severity) + (
    if f.suppressed {
        " suppressed"@
    } else {
        ""@
    }) + "\">"@ + html::badges_html(f);
    let message = "<span class=\"message\">"@ + escape::html_text(f.finding.message) + "</span>"@;
    let target = html::optional_html(" <code class=\"target\">"@, f.finding.target, "</code>"@);
    let reason = html::optional_html("<div class=\"sub\">reason: "@, f.suppression_reason, "</div>"@);
    let guidance = html::optional_html(
        "<div class=\"sub guidance\">guidance: "@,
        f.remediation,
        "</div>"@,
    );
    text::lemma_sub_of_itself(message);
    assert(html::finding_html(f) =~= head + message + target + reason + guidance + "</li>\n"@);
    match f.finding.target {
        Some(t) => {
            let inner = "<code class=\"target\">"@ + escape::html_text(t) + "</code>"@;
            text::lemma_sub_of_itself(inner);
            reveal_strlit(" <code class=\"target\">");
            reveal_strlit("<code class=\"target\">");
            reveal_strlit(" ");
            assert(" "@ + "<code class=\"target\">"@ =~= " <code class=\"target\">"@);
            assert(target =~= " "@ + inner);
            assert(text::has_sub(target, inner));
        },
        None => {},
    }
    match f.suppression_reason {
        Some(t) => {
            text::lemma_sub_of_itself(reason);
            assert(text::has_sub(
                reason,
                "<div class=\"sub\">reason: "@ + escape::html_text(t) + "</div>"@,
            ));
        },
        None => {},
    }
    match f.remediation {
        Some(t) => {
            text::lemma_sub_of_itself(guidance);
            assert(text::has_sub(
                guidance,
                "<div class=\"sub guidance\">guidance: "@ + escape::html_text(t) + "</div>"@,
            ));
        },
        None => {},
    }
}

/// What a test case begins with, down to the end of its opening tag: its class, and
/// its name, which is the category, with the target where there is one.
pub open spec fn case_front(f: ReportedView, class: Seq<char>) -> Seq<char> {
    let name = if f.finding.target is None || f.finding.target->0.len() == 0 {
        f.finding.category
    } else {
        f.finding.category + ": "@ + f.finding.target->0
    };
    "    <testcase classname=\""@ + escape::xml_text(class) + "\" name=\""@ + escape::xml_text(name)
        + "\">\n      "@
}

/// A test case fails exactly where its finding is critical, or a warning in strict
/// mode, and no rule acknowledges it; it is skipped, with the reason of the rule,
/// exactly where one does; and otherwise it passes.
pub proof fn a_case_fails_where_its_finding_does(f: ReportedView, class: Seq<char>, strict: bool)
    ensures
        ({
            let out = junit::test_case(f, class, strict);
            let front = case_front(f, class);
            let fails = !f.suppressed && (f.finding.severity == Severity::Critical || strict
                && f.finding.severity == Severity::Warning);
            &&& text::begins_with(out, front + "<failure "@) <==> fails
            &&& text::begins_with(out, front + "<skipped "@) <==> f.suppressed
            &&& text::begins_with(out, front + "<system-out>"@) <==> !fails && !f.suppressed
        }),
{
    let out = junit::test_case(f, class, strict);
    let front = case_front(f, class);
    reveal_strlit("\"");
    reveal_strlit("\">\n      ");
    reveal_strlit("<failure ");
    reveal_strlit("<skipped ");
    reveal_strlit("<system-out>");
    reveal_strlit(">\n      <skipped message=\"");
    reveal_strlit(">\n      <failure type=\"");
    reveal_strlit(">\n      <system-out>");
    let start = "    <testcase classname=\""@ + escape::xml_text(class) + "\" name=\""@
        + escape::xml_text(junit::case_name(f));
    let outcome = junit::case_outcome(f, strict);
    assert(front == start + "\">\n      "@);
    assert(out == start + "\""@ + outcome);
    let fails = !f.suppressed && (f.finding.severity == Severity::Critical || strict
        && f.finding.severity == Severity::Warning);
    let word = if f.suppressed {
        "<skipped "@
    } else if fails {
        "<failure "@
    } else {
        "<system-out>"@
    };
    let rest = outcome.skip(8 + word.len() as int);
    lemma_outcome_begins(f, strict);
    assert(outcome =~= outcome.take(8 + word.len() as int) + rest);
    assert(out =~= (front + word) + rest);
    lemma_starts(front + word, rest);
    let f1 = front + "<failure "@;
    let f2 = front + "<skipped "@;
    let f3 = front + "<system-out>"@;
    let at = front.len() as int + 2;
    if f.suppressed {
        text::lemma_begins_with_one(out, f2, f1, at);
        text::lemma_begins_with_one(out, f2, f3, at);
    } else if fails {
        text::lemma_begins_with_one(out, f1, f2, at);
        text::lemma_begins_with_one(out, f1, f3, at);
    } else {
        text::lemma_begins_with_one(out, f3, f1, at);
        text::lemma_begins_with_one(out, f3, f2, at);
    }
}

proof fn lemma_outcome_begins(f: ReportedView, strict: bool)
    ensures
        ({
            let fails = !f.suppressed && (f.finding.severity == Severity::Critical || strict
                && f.finding.severity == Severity::Warning);
            let word = if f.suppressed {
                "<skipped "@
            } else if fails {
                "<failure "@
            } else {
                "<system-out>"@
            };
            let outcome = junit::case_outcome(f, strict);
            &&& outcome.len() >= 8 + word.len()
            &&& "\""@ + outcome.take(8 + word.len() as int) == "\">\n      "@ + word
        }),
{
    broadcast use text::lemma_begins_with_joined;

    reveal_strlit("\"");
    reveal_strlit("\">\n      ");
    reveal_strlit("<failure ");
    reveal_strlit("<skipped ");
    reveal_strlit("<system-out>");
    reveal_strlit(">\n      <skipped message=\"");
    reveal_strlit(">\n      <failure type=\"");
    reveal_strlit(">\n      <system-out>");
    let outcome = junit::case_outcome(f, strict);
    let fails = !f.suppressed && (f.finding.severity == Severity::Critical || strict
        && f.finding.severity == Severity::Warning);
    let open = if f.suppressed {
        ">\n      <skipped message=\""@
    } else if fails {
        ">\n      <failure type=\""@
    } else {
        ">\n      <system-out>"@
    };
    let word = if f.suppressed {
        "<skipped "@
    } else if fails {
        "<failure "@
    } else {
        "<system-out>"@
    };
    assert(open.take(open.len() as int) =~= open);
    assert(text::begins_with(open, open));
    assert(text::begins_with(outcome, open));
    assert(outcome.take(8 + word.len() as int) =~= outcome.take(open.len() as int).take(
        8 + word.len() as int,
    ));
    assert("\""@ + open.take(8 + word.len() as int) =~= "\">\n      "@ + word);
}

/// A test case tells its finding: a skipped one the reason, a failing one severity
/// and message, and every one that is not skipped the message with the id of the
/// rule and the fingerprint.
pub proof fn a_case_tells_its_finding(f: ReportedView, class: Seq<char>, strict: bool)
    ensures
        ({
            let out = junit::test_case(f, class, strict);
            let body = junit::case_body(f);
            &&& f.suppressed ==> (f.suppression_reason matches Some(t) ==> text::has_sub(
                out,
                "<skipped message=\""@ + escape::xml_text(t) + "\"/>"@,
            ))
            &&& !f.suppressed ==> text::has_sub(out, escape::xml_text(body))
            &&& text::begins_with(
                body,
                "["@ + diff::severity_label(f.finding.severity) + "] "@ + f.finding.message
                    + "\nrule_id: "@ + f.rule_id + "\nfingerprint: "@ + f.fingerprint,
            )
            &&& text::has_sub(body, junit::override_line(f))
            &&& f.remediation matches Some(t) ==> text::has_sub(body, "\nremediation: "@ + t)
        }),
{
    broadcast use text::lemma_sub_of_joined;

    let out = junit::test_case(f, class, strict);
    let outcome = junit::case_outcome(f, strict);
    let body = junit::case_body(f);
    let facts = "["@ + diff::severity_label(f.finding.severity) + "] "@ + f.finding.message
        + "\nrule_id: "@ + f.rule_id + "\nfingerprint: "@ + f.fingerprint;
    let more = junit::override_line(f) + junit::remediation_line(f);
    assert(body =~= facts + more);
    lemma_starts(facts, more);
    text::lemma_sub_of_itself(escape::xml_text(body));
    text::lemma_sub_of_itself(junit::override_line(f));
    text::lemma_sub_of_itself(junit::remediation_line(f));
    if f.suppressed {
        match f.suppression_reason {
            Some(t) => {
                let tag = "<skipped message=\""@ + escape::xml_text(t) + "\"/>"@;
                text::lemma_sub_of_itself(tag);
                reveal_strlit(">\n      <skipped message=\"");
                reveal_strlit("<skipped message=\"");
                reveal_strlit(">\n      ");
                reveal_strlit("\"/>\n    </testcase>\n");
                reveal_strlit("\"/>");
                reveal_strlit("\n    </testcase>\n");
                assert(">\n      "@ + "<skipped message=\""@ =~= ">\n      <skipped message=\""@);
                assert("\"/>"@ + "\n    </testcase>\n"@ =~= "\"/>\n    </testcase>\n"@);
                assert(outcome =~= ">\n      "@ + tag + "\n    </testcase>\n"@);
                assert(text::has_sub(outcome, tag));
            },
            None => {},
        }
    } else {
        assert(text::has_sub(outcome, escape::xml_text(body)));
    }
}

} // verus!
