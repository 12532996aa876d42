//! The verdict that heads a report is that of the report.

use vstd::prelude::*;

use crate::report::actions;
use crate::report::escape;
use crate::report::findings;
use crate::report::html;
use crate::report::html_page;
use crate::report::markdown;
use crate::report::safety::ReportView;
use crate::report::status;
use crate::report::text_format;
use crate::style;
use crate::style::Color;
use crate::style::SpanView;
use crate::text;

verus! {

/// The status is a passing one exactly where the report is safe, and a failing one
/// exactly where it is not. It speaks of warnings exactly where strict mode refuses
/// the upgrade and nothing is critical, and otherwise of declared storage exactly
/// where a storage schema was analysed.
pub proof fn the_status_is_the_verdict(r: ReportView)
    ensures
        text::begins_with(status::status_label(r), "✅ PASSED ("@) <==> r.is_safe,
        text::begins_with(status::status_label(r), "❌ FAILED ("@) <==> !r.is_safe,
        status::status_label(r) == "❌ FAILED (Warnings detected in strict mode)"@ <==> !r.is_safe
            && r.strict && r.critical_count == 0,
        status::status_label(r) == "✅ PASSED (No exported-interface or declared-storage breaks)"@
            <==> r.is_safe && !(r.scope.storage_schema is NotAnalyzed),
        status::status_label(r) == "✅ PASSED (No exported-interface breaking changes)"@
            <==> r.is_safe && r.scope.storage_schema is NotAnalyzed,
        status::status_label(r)
            == "❌ FAILED (Breaking changes detected in the exported interface or declared storage)"@
            <==> !r.is_safe && !(r.strict && r.critical_count == 0)
            && !(r.scope.storage_schema is NotAnalyzed),
        status::status_label(r) == "❌ FAILED (Exported-interface breaking changes detected)"@
            <==> !r.is_safe && !(r.strict && r.critical_count == 0)
            && r.scope.storage_schema is NotAnalyzed,
{
    lemma_labels_differ();
    let label = status::status_label(r);
    let passed = "✅ PASSED ("@;
    let failed = "❌ FAILED ("@;
    if r.is_safe {
        text::lemma_begins_with_one(label, passed, failed, 0);
    } else {
        text::lemma_begins_with_one(label, failed, passed, 0);
    }
}

/// The labels of the status begin with the verdict and have lengths of their own.
proof fn lemma_labels_differ()
    ensures
        "✅ PASSED ("@.len() > 0 && "✅ PASSED ("@[0] == '✅',
        "❌ FAILED ("@.len() > 0 && "❌ FAILED ("@[0] == '❌',
        "✅ PASSED (No exported-interface or declared-storage breaks)"@.len() == 59,
        text::begins_with(
            "✅ PASSED (No exported-interface or declared-storage breaks)"@,
            "✅ PASSED ("@,
        ),
        "✅ PASSED (No exported-interface breaking changes)"@.len() == 49,
        text::begins_with(
            "✅ PASSED (No exported-interface breaking changes)"@,
            "✅ PASSED ("@,
        ),
        "❌ FAILED (Breaking changes detected in the exported interface or declared storage)"@.len()
            == 82,
        text::begins_with(
            "❌ FAILED (Breaking changes detected in the exported interface or declared storage)"@,
            "❌ FAILED ("@,
        ),
        "❌ FAILED (Exported-interface breaking changes detected)"@.len() == 55,
        text::begins_with(
            "❌ FAILED (Exported-interface breaking changes detected)"@,
            "❌ FAILED ("@,
        ),
        "❌ FAILED (Warnings detected in strict mode)"@.len() == 43,
        text::begins_with(
            "❌ FAILED (Warnings detected in strict mode)"@,
            "❌ FAILED ("@,
        ),
{
    reveal_strlit("✅ PASSED (");
    reveal_strlit("❌ FAILED (");
    reveal_strlit("✅ PASSED (No exported-interface or declared-storage breaks)");
    reveal_strlit("✅ PASSED (No exported-interface breaking changes)");
    reveal_strlit(
        "❌ FAILED (Breaking changes detected in the exported interface or declared storage)",
    );
    reveal_strlit("❌ FAILED (Exported-interface breaking changes detected)");
    reveal_strlit("❌ FAILED (Warnings detected in strict mode)");
    assert("✅ PASSED (No exported-interface or declared-storage breaks)"@.take(10)
        =~= "✅ PASSED ("@);
    assert("✅ PASSED (No exported-interface breaking changes)"@.take(10)
        =~= "✅ PASSED ("@);
    assert("❌ FAILED (Breaking changes detected in the exported interface or declared storage)"@.take(10)
        =~= "❌ FAILED ("@);
    assert("❌ FAILED (Exported-interface breaking changes detected)"@.take(10)
        =~= "❌ FAILED ("@);
    assert("❌ FAILED (Warnings detected in strict mode)"@.take(10)
        =~= "❌ FAILED ("@);
}

/// What the Markdown report begins with, down to the word that the status follows.
pub open spec fn markdown_front(strict: bool) -> Seq<char> {
    "# Soroban Upgrade Safety Report\n\n"@ + (if strict {
        "> ⚠️ **[STRICT MODE ACTIVE]** — Warnings are treated as failures.\n\n"@
    } else {
        ""@
    }) + "## Status: "@
}

/// The Markdown report is headed by a passing status exactly where the report is
/// safe, and by a failing one exactly where it is not.
pub proof fn the_markdown_is_headed_by_the_verdict(r: ReportView)
    ensures
        text::begins_with(
            markdown::summary_md(r),
            markdown_front(r.strict) + status::status_label(r) + "\n\n"@,
        ),
        text::begins_with(markdown::summary_md(r), markdown_front(r.strict) + "✅ PASSED ("@)
            <==> r.is_safe,
        text::begins_with(markdown::summary_md(r), markdown_front(r.strict) + "❌ FAILED ("@)
            <==> !r.is_safe,
{
    broadcast use text::lemma_begins_with_joined;

    the_status_is_the_verdict(r);
    let front = markdown_front(r.strict);
    let label = status::status_label(r);
    let s = markdown::summary_md(r);
    let head = front + label + "\n\n"@;
    assert(head.take(head.len() as int) =~= head);
    assert(text::begins_with(head, head));
    assert(text::begins_with(markdown::head_md(r), head));
    assert(text::begins_with(s, head));
    lemma_verdict_behind(s, front, label, "\n\n"@, r.is_safe);
}

proof fn lemma_verdict_behind(
    s: Seq<char>,
    front: Seq<char>,
    label: Seq<char>,
    back: Seq<char>,
    is_safe: bool,
)
    requires
        text::begins_with(s, front + label + back),
        is_safe ==> text::begins_with(label, "✅ PASSED ("@),
        !is_safe ==> text::begins_with(label, "❌ FAILED ("@),
    ensures
        text::begins_with(s, front + "✅ PASSED ("@) <==> is_safe,
        text::begins_with(s, front + "❌ FAILED ("@) <==> !is_safe,
{
    reveal_strlit("✅ PASSED (");
    reveal_strlit("❌ FAILED (");
    let passed = front + "✅ PASSED ("@;
    let failed = front + "❌ FAILED ("@;
    let whole = front + label + back;
    text::lemma_begins_with_after(front, label, "✅ PASSED ("@);
    text::lemma_begins_with_after(front, label, "❌ FAILED ("@);
    if is_safe {
        text::lemma_begins_with_joined(front + label, back, passed);
        assert(s.take(passed.len() as int) =~= s.take(whole.len() as int).take(
            passed.len() as int,
        ));
        text::lemma_begins_with_one(s, passed, failed, front.len() as int);
    } else {
        text::lemma_begins_with_joined(front + label, back, failed);
        assert(s.take(failed.len() as int) =~= s.take(whole.len() as int).take(
            failed.len() as int,
        ));
        text::lemma_begins_with_one(s, failed, passed, front.len() as int);
    }
}

/// What a section of a page begins with, down to the banner with the verdict.
pub open spec fn section_front(strict: bool, heading: Option<&str>, top_level: bool) -> Seq<char> {
    "<section class=\"report\">\n"@ + html::name_html(heading, top_level) + html::title_html(
        heading,
        top_level,
    ) + (if strict {
        "<p class=\"banner strict\">⚠️ STRICT MODE ACTIVE — warnings are treated as failures.</p>\n"@
    } else {
        ""@
    })
}

/// The first banner of a section, below that of strict mode, is a passing one
/// exactly where the report is safe, and a failing one exactly where it is not.
pub proof fn the_page_is_headed_by_the_verdict(
    r: ReportView,
    heading: Option<&str>,
    top_level: bool,
)
    ensures
        text::begins_with(
            html::section(r, heading, top_level),
            section_front(r.strict, heading, top_level) + "<p class=\"banner pass\">✅ PASSED ("@,
        ) <==> r.is_safe,
        text::begins_with(
            html::section(r, heading, top_level),
            section_front(r.strict, heading, top_level) + "<p class=\"banner fail\">❌ FAILED ("@,
        ) <==> !r.is_safe,
        text::has_sub(
            html_page::document("Soroban Upgrade Safety Report"@, html::section(r, None, true)),
            html::section(r, None, true),
        ),
        html::page(r) == html_page::document(
            "Soroban Upgrade Safety Report"@,
            html::section(r, None, true),
        ),
{
    let front = section_front(r.strict, heading, top_level);
    let s = html::section(r, heading, top_level);
    let pass = "<p class=\"banner pass\">✅ PASSED ("@;
    let fail = "<p class=\"banner fail\">❌ FAILED ("@;
    lemma_banner(r);
    let banner = if r.is_safe {
        pass
    } else {
        fail
    };
    let verdict = html::verdict_html(r);
    text::lemma_begins_with_after(front, verdict, banner);
    lemma_section_begins(r, heading, top_level, front + banner);
    lemma_banners_differ();
    if r.is_safe {
        text::lemma_begins_with_one(s, front + pass, front + fail, front.len() as int + 17);
    } else {
        text::lemma_begins_with_one(s, front + fail, front + pass, front.len() as int + 17);
    }
    html_page::a_page_holds_its_title_and_contents(
        "Soroban Upgrade Safety Report"@,
        html::section(r, None, true),
    );
}

proof fn lemma_banners_differ()
    ensures
        "<p class=\"banner pass\">✅ PASSED ("@.len() > 17,
        "<p class=\"banner fail\">❌ FAILED ("@.len() > 17,
        "<p class=\"banner pass\">✅ PASSED ("@[17] != "<p class=\"banner fail\">❌ FAILED ("@[17],
{
    reveal_strlit("<p class=\"banner pass\">✅ PASSED (");
    reveal_strlit("<p class=\"banner fail\">❌ FAILED (");
}

proof fn lemma_section_begins(
    r: ReportView,
    heading: Option<&str>,
    top_level: bool,
    start: Seq<char>,
)
    requires
        text::begins_with(
            section_front(r.strict, heading, top_level) + html::verdict_html(r),
            start,
        ),
    ensures
        text::begins_with(html::section(r, heading, top_level), start),
{
    broadcast use text::lemma_begins_with_joined;

    let front = section_front(r.strict, heading, top_level) + html::verdict_html(r);
    assert(text::begins_with(html::head_html(r, heading, top_level), start));
}

proof fn lemma_banner(r: ReportView)
    ensures
        text::begins_with(
            html::verdict_html(r),
            if r.is_safe {
                "<p class=\"banner pass\">✅ PASSED ("@
            } else {
                "<p class=\"banner fail\">❌ FAILED ("@
            },
        ),
{
    let label = status::status_label(r);
    let word = if r.is_safe {
        "✅ PASSED ("@
    } else {
        "❌ FAILED ("@
    };
    let open = "<p class=\"banner "@ + (if r.is_safe {
        "pass"@
    } else {
        "fail"@
    }) + "\">"@;
    let banner = if r.is_safe {
        "<p class=\"banner pass\">✅ PASSED ("@
    } else {
        "<p class=\"banner fail\">❌ FAILED ("@
    };
    the_status_is_the_verdict(r);
    let rest = label.skip(word.len() as int);
    assert(label =~= label.take(word.len() as int) + rest);
    escape::escaping_goes_part_by_part(word, rest);
    reveal_strlit("✅ PASSED (");
    reveal_strlit("❌ FAILED (");
    escape::text_without_markup_stays(word);
    assert(open + word =~= banner) by {
        reveal_strlit("<p class=\"banner ");
        reveal_strlit("pass");
        reveal_strlit("fail");
        reveal_strlit("\">");
        reveal_strlit("<p class=\"banner pass\">✅ PASSED (");
        reveal_strlit("<p class=\"banner fail\">❌ FAILED (");
    }
    let back = escape::html_text(rest) + "</p>\n"@;
    assert(html::verdict_html(r) =~= (open + word) + back);
    assert(banner.take(banner.len() as int) =~= banner);
    text::lemma_begins_with_joined(banner, back, banner);
}

/// The place of the status among the spans of the text report.
pub open spec fn status_place(strict: bool) -> int {
    if strict {
        5
    } else {
        4
    }
}

/// The text report is headed by the status: behind the title and the word that
/// announces it, in green exactly where the report is safe, and otherwise in red.
pub proof fn the_text_is_headed_by_the_verdict(r: ReportView, explain: bool)
    ensures
        ({
            let spans = text_format::summary_text(r, explain);
            let at = status_place(r.strict);
            &&& spans.len() > at
            &&& spans[at - 1] == style::plain("Status: "@)
            &&& forall|i: int|
                0 <= i < at - 1 ==> (#[trigger] spans[i]).text != "Status: "@
            &&& text::begins_with(spans[at].text, "✅ PASSED ("@) <==> r.is_safe
            &&& text::begins_with(spans[at].text, "❌ FAILED ("@) <==> !r.is_safe
            &&& spans[at] == style::bold_colored(spans[at].text, Color::Green) <==> r.is_safe
            &&& spans[at] == style::bold_colored(spans[at].text, Color::Red) <==> !r.is_safe
        }),
{
    the_status_is_the_verdict(r);
    reveal_strlit("Status: ");
    reveal_strlit("\n========================================\n");
    reveal_strlit("    SOROBAN UPGRADE SAFETY REPORT\n");
    reveal_strlit("    [STRICT MODE ACTIVE]\n");
    reveal_strlit("========================================\n");
    let spans = text_format::summary_text(r, explain);
    let at = status_place(r.strict);
    let title = text_format::title_text(r.strict);
    let verdict = text_format::verdict_text(r);
    assert(title.len() == at - 1);
    lemma_spans_begin(r, explain);
    assert((title + verdict)[at - 1] == verdict[0]);
    assert((title + verdict)[at] == verdict[1]);
    assert forall|i: int| 0 <= i < at - 1 implies (#[trigger] spans[i]).text != "Status: "@ by {
        assert(spans[i] == (title + verdict)[i]);
        assert((title + verdict)[i] == title[i]);
        assert(title[0].text == "\n========================================\n"@);
        assert(title[1].text == "    SOROBAN UPGRADE SAFETY REPORT\n"@);
        assert(title[at - 2].text == "========================================\n"@);
        assert(r.strict ==> title[2].text == "    [STRICT MODE ACTIVE]\n"@);
        assert(title[i].text[0] != 'S');
    }
    assert(spans[at - 1] == verdict[0]);
    assert(spans[at] == verdict[1]);
}

/// Whether a list of spans begins with another.
spec fn begin(spans: Seq<SpanView>, start: Seq<SpanView>) -> bool {
    start.len() <= spans.len() && forall|i: int|
        0 <= i < start.len() ==> #[trigger] spans[i] == start[i]
}

broadcast proof fn lemma_begin_joined(a: Seq<SpanView>, b: Seq<SpanView>, start: Seq<SpanView>)
    requires
        begin(a, start),
    ensures
        #[trigger] begin(a + b, start),
{
}

proof fn lemma_spans_begin(r: ReportView, explain: bool)
    ensures
        begin(
            text_format::summary_text(r, explain),
            text_format::title_text(r.strict) + text_format::verdict_text(r),
        ),
{
    broadcast use lemma_begin_joined;

    let start = text_format::title_text(r.strict) + text_format::verdict_text(r);
    assert(begin(start, start));
    assert(begin(text_format::head_text(r), start));
}

/// The summary line of the workflow commands says that the run passed exactly
/// where the report is safe, and that it failed exactly where it is not; the line
/// stands behind the annotations, and it tells the counts of the report.
pub proof fn the_workflow_commands_tell_the_verdict(r: ReportView, title: Option<&str>)
    ensures
        ({
            let front = actions::group_start(title) + actions::group_annotations(
                r,
                findings::name_order(r.groups),
                r.groups.len() as int,
            );
            let out = actions::summary_actions(r, title);
            let counts = " — "@ + text::decimal(r.critical_count) + " critical, "@ + text::decimal(
                r.warning_count,
            ) + " warning(s), "@ + text::decimal(r.info_count) + " info ("@ + text::decimal(
                r.suppressed_count,
            ) + " suppressed, "@ + text::decimal(r.severity_overridden_count)
                + " severity-overridden)\n"@;
            &&& text::begins_with(
                out,
                front + ("\nSoroban Upgrade Safeguard: PASSED"@ + counts),
            ) <==> r.is_safe
            &&& text::begins_with(
                out,
                front + ("\nSoroban Upgrade Safeguard: FAILED"@ + counts),
            ) <==> !r.is_safe
        }),
{
    broadcast use text::lemma_begins_with_joined;

    let front = actions::group_start(title) + actions::group_annotations(
        r,
        findings::name_order(r.groups),
        r.groups.len() as int,
    );
    let out = actions::summary_actions(r, title);
    let line = actions::summary_line(r);
    let counts = " — "@ + text::decimal(r.critical_count) + " critical, "@ + text::decimal(
        r.warning_count,
    ) + " warning(s), "@ + text::decimal(r.info_count) + " info ("@ + text::decimal(
        r.suppressed_count,
    ) + " suppressed, "@ + text::decimal(r.severity_overridden_count)
        + " severity-overridden)\n"@;
    reveal_strlit("\nSoroban Upgrade Safeguard: ");
    reveal_strlit("PASSED");
    reveal_strlit("FAILED");
    reveal_strlit("\nSoroban Upgrade Safeguard: PASSED");
    reveal_strlit("\nSoroban Upgrade Safeguard: FAILED");
    let passed = "\nSoroban Upgrade Safeguard: PASSED"@;
    let failed = "\nSoroban Upgrade Safeguard: FAILED"@;
    assert("\nSoroban Upgrade Safeguard: "@ + "PASSED"@ =~= passed);
    assert("\nSoroban Upgrade Safeguard: "@ + "FAILED"@ =~= failed);
    let word = if r.is_safe {
        passed
    } else {
        failed
    };
    assert(line =~= word + counts);
    assert(line.take(line.len() as int) =~= line);
    text::lemma_begins_with_after(front, line, line);
    assert(text::begins_with(front + line, front + line));
    assert(text::begins_with(out, front + line));
    if r.is_safe {
        text::lemma_begins_with_one(
            out,
            front + (passed + counts),
            front + (failed + counts),
            front.len() as int + 28,
        );
    } else {
        text::lemma_begins_with_one(
            out,
            front + (failed + counts),
            front + (passed + counts),
            front.len() as int + 28,
        );
    }
}

/// The version step is `major` exactly where a finding is critical, `minor`
/// exactly where there are findings but none is critical, and `patch` exactly
/// where there is no finding.
pub proof fn the_version_step_follows_the_counts(r: ReportView)
    ensures
        status::bump(r) == "major"@ <==> r.critical_count > 0,
        status::bump(r) == "minor"@ <==> r.critical_count == 0 && r.warning_count + r.info_count
            > 0,
        status::bump(r) == "patch"@ <==> r.critical_count == 0 && r.warning_count + r.info_count
            == 0,
{
    reveal_strlit("major");
    reveal_strlit("minor");
    reveal_strlit("patch");
    assert("major"@[1] == 'a' && "minor"@[1] == 'i' && "patch"@[0] == 'p' && "major"@[0] == 'm');
}

/// The notice that a configuration turned the verdict speaks of a run that passes
/// exactly where the report is safe.
pub proof fn the_notice_tells_which_way_the_verdict_turned(r: ReportView)
    ensures
        status::verdict_notice(r) is Some <==> r.verdict_changed_by_override,
        status::verdict_notice(r) matches Some(t) ==> {
            &&& text::begins_with(t, "VERDICT CHANGED BY CONFIG: this run passes"@) <==> r.is_safe
            &&& text::begins_with(t, "VERDICT CHANGED BY CONFIG: this run fails"@) <==> !r.is_safe
        },
{
    let passes =
        "VERDICT CHANGED BY CONFIG: this run passes only because the [severity] table lowered one or more findings. Without those overrides it would have FAILED."@;
    let fails =
        "VERDICT CHANGED BY CONFIG: this run fails only because the [severity] table raised one or more findings. Without those overrides it would have PASSED."@;
    reveal_strlit(
        "VERDICT CHANGED BY CONFIG: this run passes only because the [severity] table lowered one or more findings. Without those overrides it would have FAILED.",
    );
    reveal_strlit(
        "VERDICT CHANGED BY CONFIG: this run fails only because the [severity] table raised one or more findings. Without those overrides it would have PASSED.",
    );
    reveal_strlit("VERDICT CHANGED BY CONFIG: this run passes");
    reveal_strlit("VERDICT CHANGED BY CONFIG: this run fails");
    let p = "VERDICT CHANGED BY CONFIG: this run passes"@;
    let f = "VERDICT CHANGED BY CONFIG: this run fails"@;
    assert(passes.take(p.len() as int) =~= p);
    assert(fails.take(f.len() as int) =~= f);
    text::lemma_begins_with_one(passes, p, f, 36);
    text::lemma_begins_with_one(fails, f, p, 36);
}

} // verus!
