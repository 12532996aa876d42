//! What the parts of a report below its head say: warnings on the builds, groups,
//! calls for action, the log of suppressions and the metrics.

use vstd::prelude::*;

use crate::diff::Severity;
use crate::report::actions;
use crate::report::count_laws;
use crate::report::escape;
use crate::report::findings;
use crate::report::findings::GroupView;
use crate::report::findings::ReportedView;
use crate::report::html;
use crate::report::junit;
use crate::report::markdown;
use crate::report::metrics;
use crate::report::parts;
use crate::report::safety;
use crate::report::safety::ReportView;
use crate::report::scope::ScopeView;
use crate::report::text_format;
use crate::text;

verus! {

proof fn lemma_starts(a: Seq<char>, b: Seq<char>)
    ensures
        text::begins_with(a + b, a),
{
    assert((a + b).take(a.len() as int) =~= a);
}

/// A warning that a build has several spec sections is given exactly where one of
/// the two builds has more than one. It tells both numbers.
pub proof fn several_sections_are_told(s: ScopeView)
    ensures
        ({
            let many = s.old_spec_section_count >= 2 || s.new_spec_section_count >= 2;
            let numbers = "old has "@ + text::decimal(s.old_spec_section_count as nat)
                + " contractspecv0 section(s), new has "@ + text::decimal(
                s.new_spec_section_count as nat,
            ) + "."@;
            &&& many <==> markdown::sections_md(s).len() > 0
            &&& many <==> html::sections_html(s).len() > 0
            &&& many <==> text_format::sections_text(s).len() > 0
            &&& many ==> text::has_sub(markdown::sections_md(s), numbers)
            &&& many ==> text::has_sub(html::sections_html(s), numbers)
            &&& many ==> text::has_sub(
                text_format::sections_text(s)[0].text,
                "old="@ + text::decimal(s.old_spec_section_count as nat) + ", new="@
                    + text::decimal(s.new_spec_section_count as nat),
            )
        }),
{
    broadcast use text::lemma_sub_of_joined;

    reveal_strlit("");
    let old = text::decimal(s.old_spec_section_count as nat);
    let new = text::decimal(s.new_spec_section_count as nat);
    let middle = " contractspecv0 section(s), new has "@;
    let numbers = "old has "@ + old + middle + new + "."@;
    text::lemma_sub_of_itself(numbers);
    if parts::has_many_sections(s) {
        lemma_section_words();
        assert(markdown::sections_md(s) =~= "> ⚠️ Multi-section WASM detected: "@ + numbers
            + "\n\n"@);
        assert(html::sections_html(s)
            =~= "<p class=\"banner warn\">⚠️ Multi-section WASM detected: "@ + numbers
            + "</p>\n"@);
        let line = "old="@ + old + ", new="@ + new;
        text::lemma_sub_of_itself(line);
        assert(text_format::sections_text(s)[0].text =~= "        Spec sections: "@ + line
            + " (multi-section WASMs detected)\n"@);
    }
}

proof fn lemma_section_words()
    ensures
        "> ⚠️ Multi-section WASM detected: old has "@
            == "> ⚠️ Multi-section WASM detected: "@ + "old has "@,
        "<p class=\"banner warn\">⚠️ Multi-section WASM detected: old has "@
            == "<p class=\"banner warn\">⚠️ Multi-section WASM detected: "@ + "old has "@,
        "        Spec sections: old="@ == "        Spec sections: "@ + "old="@,
        ".\n\n"@ == "."@ + "\n\n"@,
        ".</p>\n"@ == "."@ + "</p>\n"@,
        "."@.len() == 1,
{
    reveal_strlit("> ⚠️ Multi-section WASM detected: old has ");
    reveal_strlit("> ⚠️ Multi-section WASM detected: ");
    reveal_strlit("old has ");
    reveal_strlit("<p class=\"banner warn\">⚠️ Multi-section WASM detected: old has ");
    reveal_strlit("<p class=\"banner warn\">⚠️ Multi-section WASM detected: ");
    reveal_strlit("        Spec sections: old=");
    reveal_strlit("        Spec sections: ");
    reveal_strlit("old=");
    reveal_strlit(".\n\n");
    reveal_strlit(".");
    reveal_strlit("\n\n");
    reveal_strlit(".</p>\n");
    reveal_strlit("</p>\n");
    assert("> ⚠️ Multi-section WASM detected: old has "@
        =~= "> ⚠️ Multi-section WASM detected: "@ + "old has "@);
    assert("<p class=\"banner warn\">⚠️ Multi-section WASM detected: old has "@
        =~= "<p class=\"banner warn\">⚠️ Multi-section WASM detected: "@ + "old has "@);
    assert("        Spec sections: old="@ =~= "        Spec sections: "@ + "old="@);
    assert(".\n\n"@ =~= "."@ + "\n\n"@);
    assert(".</p>\n"@ =~= "."@ + "</p>\n"@);
}

/// A warning that a build declares names twice is given exactly where one of the
/// builds does. It tells every such name, with the build that it stands in.
pub proof fn duplicates_are_told(s: ScopeView)
    ensures
        ({
            let any = s.old_duplicate_names.len() + s.new_duplicate_names.len() > 0;
            &&& any <==> markdown::duplicates_md(s).len() > 0
            &&& any <==> html::duplicates_html(s).len() > 0
            &&& any <==> text_format::duplicates_text(s).len() > 0
        }),
{
    reveal_strlit("");
    reveal_strlit("> ❌ Duplicate spec entries detected: ");
    reveal_strlit("<p class=\"banner fail\">❌ Duplicate spec entries detected: ");
}

/// Every name that the old build declares twice is told as one of the old build.
pub proof fn an_old_duplicate_is_told(s: ScopeView, k: int)
    requires
        0 <= k < s.old_duplicate_names.len(),
    ensures
        text::has_sub(
            markdown::duplicates_md(s),
            "`old:"@ + s.old_duplicate_names[k] + "`"@,
        ),
        text::has_sub(
            text_format::duplicates_text(s)[0].text,
            "old:"@ + s.old_duplicate_names[k],
        ),
{
    broadcast use text::lemma_sub_of_joined;

    reveal_strlit("");
    let ticked = parts::duplicates(s, "`old:"@, "`new:"@, "`"@);
    let plain = parts::duplicates(s, "old:"@, "new:"@, ""@);
    text::lemma_sub_of_list(ticked, ", "@, k);
    text::lemma_sub_of_list(plain, ", "@, k);
    assert(ticked[k] == "`old:"@ + s.old_duplicate_names[k] + "`"@);
    assert(plain[k] =~= "old:"@ + s.old_duplicate_names[k]);
}

/// Every name that the new build declares twice is told as one of the new build.
pub proof fn a_new_duplicate_is_told(s: ScopeView, k: int)
    requires
        0 <= k < s.new_duplicate_names.len(),
    ensures
        text::has_sub(
            markdown::duplicates_md(s),
            "`new:"@ + s.new_duplicate_names[k] + "`"@,
        ),
        text::has_sub(
            text_format::duplicates_text(s)[0].text,
            "new:"@ + s.new_duplicate_names[k],
        ),
{
    broadcast use text::lemma_sub_of_joined;

    reveal_strlit("");
    let ticked = parts::duplicates(s, "`old:"@, "`new:"@, "`"@);
    let plain = parts::duplicates(s, "old:"@, "new:"@, ""@);
    let i = s.old_duplicate_names.len() + k;
    text::lemma_sub_of_list(ticked, ", "@, i);
    text::lemma_sub_of_list(plain, ", "@, i);
    assert(ticked[i] == "`new:"@ + s.new_duplicate_names[k] + "`"@);
    assert(plain[i] =~= "new:"@ + s.new_duplicate_names[k]);
}

/// The page tells every name that a build declares twice as the text report does.
pub proof fn the_page_tells_the_duplicates(s: ScopeView)
    requires
        s.old_duplicate_names.len() + s.new_duplicate_names.len() > 0,
    ensures
        html::duplicates_html(s)
            == "<p class=\"banner fail\">❌ Duplicate spec entries detected: "@
            + escape::html_text(text::joined(parts::duplicates(s, "old:"@, "new:"@, ""@), ", "@))
            + "</p>\n"@,
        text_format::duplicates_text(s)[0].text == "        Duplicate entries detected: "@
            + text::joined(parts::duplicates(s, "old:"@, "new:"@, ""@), ", "@) + "\n"@,
{
}

/// Markdown and page call for action exactly where the upgrade is not safe.
pub proof fn action_is_called_for_where_unsafe(is_safe: bool)
    ensures
        markdown::action_md(is_safe).len() > 0 <==> !is_safe,
        html::action_html(is_safe).len() > 0 <==> !is_safe,
{
    reveal_strlit("");
    reveal_strlit(
        "### ⚠️ Action Required\n\n- The new contract version modifies existing storage layouts or function interfaces.\n- Deploying this upgrade will result in orphaned data, serialization panics, or broken integrations.\n",
    );
    reveal_strlit(
        "<p class=\"banner fail\">⚠️ ACTION REQUIRED: the new contract version modifies existing storage layouts or function interfaces. Deploying this upgrade will result in orphaned data, serialization panics, or broken integrations.</p>\n",
    );
}

/// The banner on strict mode stands in a report exactly where the mode is on.
pub proof fn strict_mode_is_told(strict: bool)
    ensures
        markdown::strict_md(strict).len() > 0 <==> strict,
        html::strict_html(strict).len() > 0 <==> strict,
        text_format::strict_text(strict).len() > 0 <==> strict,
{
    reveal_strlit("");
    reveal_strlit("> ⚠️ **[STRICT MODE ACTIVE]** — Warnings are treated as failures.\n\n");
    reveal_strlit(
        "<p class=\"banner strict\">⚠️ STRICT MODE ACTIVE — warnings are treated as failures.</p>\n",
    );
}

/// On the page a group is headed by its category and the number of its findings. It
/// is folded exactly where every finding is acknowledged or for information.
pub proof fn a_group_is_open_where_it_matters(g: GroupView)
    ensures
        ({
            let head = escape::html_text(g.category) + " <span class=\"count\">"@ + text::decimal(
                g.findings.len(),
            ) + "</span></summary>\n"@;
            let matters = exists|k: int|
                0 <= k < g.findings.len() && !(#[trigger] g.findings[k]).suppressed && (
                g.findings[k].finding.severity == Severity::Critical
                    || g.findings[k].finding.severity == Severity::Warning);
            &&& text::begins_with(
                html::group_html(g),
                "<details class=\"category\" open>\n<summary>"@ + head,
            ) <==> matters
            &&& text::begins_with(
                html::group_html(g),
                "<details class=\"category\">\n<summary>"@ + head,
            ) <==> !matters
        }),
{
    broadcast use text::lemma_begins_with_joined;

    let head = escape::html_text(g.category) + " <span class=\"count\">"@ + text::decimal(
        g.findings.len(),
    ) + "</span></summary>\n"@;
    let matters = exists|k: int|
        0 <= k < g.findings.len() && !(#[trigger] g.findings[k]).suppressed && (
        g.findings[k].finding.severity == Severity::Critical || g.findings[k].finding.severity
            == Severity::Warning);
    assert(matters <==> !html::is_quiet(g.findings)) by {
        if !html::is_quiet(g.findings) {
            let k = choose|k: int|
                0 <= k < g.findings.len() && !((#[trigger] g.findings[k]).finding.severity
                    == Severity::Info || g.findings[k].suppressed);
            assert(!g.findings[k].suppressed);
        }
    }
    let open = "<details class=\"category\" open>\n<summary>"@ + head;
    let shut = "<details class=\"category\">\n<summary>"@ + head;
    lemma_group_words();
    let out = html::group_html(g);
    if matters {
        let front = "<details class=\"category\""@ + " open"@ + ">\n<summary>"@ + escape::html_text(
            g.category,
        ) + " <span class=\"count\">"@ + text::decimal(g.findings.len())
            + "</span></summary>\n<ul class=\"findings\">\n"@;
        assert(front =~= open + "<ul class=\"findings\">\n"@);
        lemma_starts(open, "<ul class=\"findings\">\n"@);
        assert(text::begins_with(out, open));
        text::lemma_begins_with_one(out, open, shut, 26);
    } else {
        let front = "<details class=\"category\""@ + ""@ + ">\n<summary>"@ + escape::html_text(
            g.category,
        ) + " <span class=\"count\">"@ + text::decimal(g.findings.len())
            + "</span></summary>\n<ul class=\"findings\">\n"@;
        assert(front =~= shut + "<ul class=\"findings\">\n"@);
        lemma_starts(shut, "<ul class=\"findings\">\n"@);
        assert(text::begins_with(out, shut));
        text::lemma_begins_with_one(out, shut, open, 26);
    }
}

proof fn lemma_group_words()
    ensures
        "<details class=\"category\""@ + " open"@ + ">\n<summary>"@
            == "<details class=\"category\" open>\n<summary>"@,
        "<details class=\"category\""@ + ""@ + ">\n<summary>"@
            == "<details class=\"category\">\n<summary>"@,
        "</span></summary>\n<ul class=\"findings\">\n"@ == "</span></summary>\n"@
            + "<ul class=\"findings\">\n"@,
        "<details class=\"category\" open>\n<summary>"@.len() > 26,
        "<details class=\"category\">\n<summary>"@.len() > 26,
        "<details class=\"category\" open>\n<summary>"@[26] == 'o',
        "<details class=\"category\">\n<summary>"@[26] == '\n',
{
    reveal_strlit("<details class=\"category\"");
    reveal_strlit(" open");
    reveal_strlit("");
    reveal_strlit(">\n<summary>");
    reveal_strlit("<details class=\"category\" open>\n<summary>");
    reveal_strlit("<details class=\"category\">\n<summary>");
    reveal_strlit("</span></summary>\n<ul class=\"findings\">\n");
    reveal_strlit("</span></summary>\n");
    reveal_strlit("<ul class=\"findings\">\n");
    assert("<details class=\"category\""@ + " open"@ + ">\n<summary>"@
        =~= "<details class=\"category\" open>\n<summary>"@);
    assert("<details class=\"category\""@ + ""@ + ">\n<summary>"@
        =~= "<details class=\"category\">\n<summary>"@);
    assert("</span></summary>\n<ul class=\"findings\">\n"@ =~= "</span></summary>\n"@
        + "<ul class=\"findings\">\n"@);
}

/// A group of the Markdown report is headed by its category.
pub proof fn a_markdown_group_is_headed_by_its_category(g: GroupView, explain: bool)
    ensures
        text::begins_with(markdown::group_md(g, explain), "### "@ + g.category + "\n\n"@),
{
    broadcast use text::lemma_begins_with_joined;

    let head = "### "@ + g.category + "\n\n"@;
    assert(head.take(head.len() as int) =~= head);
    assert(text::begins_with(head, head));
}

/// A row of the log of suppressions tells category and target of the finding and
/// fingerprint, author, end and reason of the rule, in this order, with a dash for
/// what there is not.
pub proof fn a_log_row_tells_its_rule(f: ReportedView)
    ensures
        ({
            let cell = |t: Option<Seq<char>>|
                if t is Some {
                    t->0
                } else {
                    "-"@
                };
            &&& markdown::audit_row(f) == "| "@ + f.finding.category + " | `"@ + cell(
                f.finding.target,
            ) + "` | `"@ + cell(f.suppression_fingerprint) + "` | "@ + cell(f.suppression_author)
                + " | "@ + cell(f.suppression_expiry) + " | "@ + cell(f.suppression_reason)
                + " |\n"@
            &&& html::audit_row(f) == "<tr><td>"@ + escape::html_text(f.finding.category)
                + "</td><td><code>"@ + escape::html_text(cell(f.finding.target))
                + "</code></td><td><code>"@ + escape::html_text(cell(f.suppression_fingerprint))
                + "</code></td><td>"@ + escape::html_text(cell(f.suppression_author))
                + "</td><td>"@ + escape::html_text(cell(f.suppression_expiry)) + "</td><td>"@
                + escape::html_text(cell(f.suppression_reason)) + "</td></tr>\n"@
        }),
{
}

/// A row on a count tells the number of the old build, that of the new one, and the
/// difference with its sign.
pub proof fn a_count_row_tells_the_change(label: Seq<char>, old: usize, new: usize)
    requires
        old <= i64::MAX,
        new <= i64::MAX,
    ensures
        metrics::signed_delta(old, new) == new - old,
        markdown::count_row(label, old, new) == label + text::decimal(old as nat) + " | "@
            + text::decimal(new as nat) + " | "@ + text::signed_decimal(new - old) + " |\n"@,
        html::count_row(label, old, new) == "<tr><td>"@ + label + "</td><td>"@ + text::decimal(
            old as nat,
        ) + "</td><td>"@ + text::decimal(new as nat) + "</td><td>"@ + text::signed_decimal(
            new - old,
        ) + "</td></tr>\n"@,
        text_format::count_line(label, old, new) == label + text::decimal(old as nat) + " → "@
            + text::decimal(new as nat) + "\n"@,
{
}

/// The summary of the workflow commands tells the numbers of the report.
pub proof fn the_summary_line_tells_the_counts(r: ReportView)
    ensures
        text::has_sub(
            actions::summary_line(r),
            " — "@ + text::decimal(r.critical_count) + " critical, "@ + text::decimal(
                r.warning_count,
            ) + " warning(s), "@ + text::decimal(r.info_count) + " info ("@ + text::decimal(
                r.suppressed_count,
            ) + " suppressed, "@ + text::decimal(r.severity_overridden_count)
                + " severity-overridden)\n"@,
        ),
{
    let tail = " — "@ + text::decimal(r.critical_count) + " critical, "@ + text::decimal(
        r.warning_count,
    ) + " warning(s), "@ + text::decimal(r.info_count) + " info ("@ + text::decimal(
        r.suppressed_count,
    ) + " suppressed, "@ + text::decimal(r.severity_overridden_count) + " severity-overridden)\n"@;
    let front = "\nSoroban Upgrade Safeguard: "@ + (if r.is_safe {
        "PASSED"@
    } else {
        "FAILED"@
    });
    assert(actions::summary_line(r) =~= front + tail);
    text::lemma_sub_of_itself(tail);
    text::lemma_sub_of_joined(front, tail, tail);
}

/// The workflow commands fold a report exactly where it has a title: they begin with
/// the fold of that title, and then end it.
pub proof fn a_titled_report_is_folded(r: ReportView, title: Option<&str>)
    ensures
        title matches Some(t) ==> text::begins_with(
            actions::summary_actions(r, title),
            "::group::"@ + t@ + "\n"@,
        ),
        title is None ==> actions::group_start(title).len() == 0,
        actions::group_end(title).len() > 0 <==> title is Some,
{
    broadcast use text::lemma_begins_with_joined;

    reveal_strlit("");
    reveal_strlit("::endgroup::\n");
    let head = actions::group_start(title);
    assert(head.take(head.len() as int) =~= head);
    assert(text::begins_with(head, head));
}

/// A section of a page is headed by its name where it has one, and otherwise by the
/// title of the report; the heading has the level of the section.
pub proof fn a_section_is_headed_by_its_name(
    r: ReportView,
    heading: Option<&str>,
    top_level: bool,
)
    ensures
        ({
            let out = html::section(r, heading, top_level);
            let open = "<section class=\"report\">\n"@;
            &&& heading is None && top_level ==> text::begins_with(
                out,
                open + "<h1 class=\"title\">Soroban Upgrade Safety Report</h1>\n"@,
            )
            &&& heading is None && !top_level ==> text::begins_with(
                out,
                open + "<h2 class=\"title\">Soroban Upgrade Safety Report</h2>\n"@,
            )
            &&& heading matches Some(name) ==> (top_level ==> text::begins_with(
                out,
                open + ("<h1 class=\"pair-name\">"@ + escape::html_text(name@) + "</h1>\n"@),
            ))
            &&& heading matches Some(name) ==> (!top_level ==> text::begins_with(
                out,
                open + ("<h2 class=\"pair-name\">"@ + escape::html_text(name@) + "</h2>\n"@),
            ))
        }),
{
    broadcast use text::lemma_begins_with_joined;

    let open = "<section class=\"report\">\n"@;
    lemma_heading_words();
    reveal_strlit("");
    let front = open + html::name_html(heading, top_level) + html::title_html(heading, top_level);
    assert(front.take(front.len() as int) =~= front);
    assert(text::begins_with(front, front));
    assert(text::begins_with(html::head_html(r, heading, top_level), front));
    match heading {
        Some(name) => {
            let h = escape::html_text(name@);
            if top_level {
                assert(front =~= open + ("<h1 class=\"pair-name\">"@ + h + "</h1>\n"@));
            } else {
                assert(front =~= open + ("<h2 class=\"pair-name\">"@ + h + "</h2>\n"@));
            }
        },
        None => {
            if top_level {
                assert(front =~= open
                    + "<h1 class=\"title\">Soroban Upgrade Safety Report</h1>\n"@);
            } else {
                assert(front =~= open
                    + "<h2 class=\"title\">Soroban Upgrade Safety Report</h2>\n"@);
            }
        },
    }
}

proof fn lemma_heading_words()
    ensures
        "<h1 class=\""@ + "pair-name\">"@ == "<h1 class=\"pair-name\">"@,
        "<h2 class=\""@ + "pair-name\">"@ == "<h2 class=\"pair-name\">"@,
        "<h1 class=\""@ + "title\">Soroban Upgrade Safety Report"@ + "</h1>\n"@
            == "<h1 class=\"title\">Soroban Upgrade Safety Report</h1>\n"@,
        "<h2 class=\""@ + "title\">Soroban Upgrade Safety Report"@ + "</h2>\n"@
            == "<h2 class=\"title\">Soroban Upgrade Safety Report</h2>\n"@,
{
    reveal_strlit("<h1 class=\"");
    reveal_strlit("<h2 class=\"");
    reveal_strlit("pair-name\">");
    reveal_strlit("<h1 class=\"pair-name\">");
    reveal_strlit("<h2 class=\"pair-name\">");
    reveal_strlit("title\">Soroban Upgrade Safety Report");
    reveal_strlit("</h1>\n");
    reveal_strlit("</h2>\n");
    reveal_strlit("<h1 class=\"title\">Soroban Upgrade Safety Report</h1>\n");
    reveal_strlit("<h2 class=\"title\">Soroban Upgrade Safety Report</h2>\n");
    assert("<h1 class=\""@ + "pair-name\">"@ =~= "<h1 class=\"pair-name\">"@);
    assert("<h2 class=\""@ + "pair-name\">"@ =~= "<h2 class=\"pair-name\">"@);
    assert("<h1 class=\""@ + "title\">Soroban Upgrade Safety Report"@ + "</h1>\n"@
        =~= "<h1 class=\"title\">Soroban Upgrade Safety Report</h1>\n"@);
    assert("<h2 class=\""@ + "title\">Soroban Upgrade Safety Report"@ + "</h2>\n"@
        =~= "<h2 class=\"title\">Soroban Upgrade Safety Report</h2>\n"@);
}

/// A test suite has the name that it is given, or that of the tool. Its cases are of
/// the class with that name below the tool.
pub proof fn a_suite_has_its_name(r: ReportView, name: Option<&str>)
    ensures
        name matches Some(n) ==> text::begins_with(
            junit::summary_junit(r, name),
            "  <testsuite name=\""@ + escape::xml_text(n@) + "\" tests=\""@,
        ),
        name is None ==> text::begins_with(
            junit::summary_junit(r, name),
            "  <testsuite name=\""@ + escape::xml_text("soroban-upgrade-safeguard"@)
                + "\" tests=\""@,
        ),
        name matches Some(n) ==> junit::suite_class(name) == "soroban-upgrade-safeguard."@ + n@,
        name is None ==> junit::suite_class(name) == "soroban-upgrade-safeguard."@
            + "soroban-upgrade-safeguard"@,
{
    broadcast use text::lemma_begins_with_joined;

    let front = "  <testsuite name=\""@ + escape::xml_text(junit::suite_title(name))
        + "\" tests=\""@;
    assert(front.take(front.len() as int) =~= front);
    assert(text::begins_with(front, front));
}

proof fn lemma_all_counted(groups: Seq<GroupView>, n: int)
    requires
        0 <= n <= groups.len(),
    ensures
        findings::findings_in(groups, n) == count_laws::all_of(groups.take(n)).len(),
    decreases n,
{
    if n > 0 {
        lemma_all_counted(groups, n - 1);
        assert(groups.take(n).drop_last() =~= groups.take(n - 1));
        assert(groups.take(n).last() == groups[n - 1]);
    }
}

/// A test suite declares one case for each finding, and a single one where there is
/// none; as many failures as findings that are critical, or warnings in strict mode,
/// and not acknowledged; no errors; and as many skipped cases as acknowledged findings.
pub proof fn a_suite_declares_its_numbers(r: ReportView, name: Option<&str>)
    ensures
        ({
            let all = count_laws::all_of(r.groups);
            let fails = |f: ReportedView|
                !f.suppressed && (f.finding.severity == Severity::Critical || r.strict
                    && f.finding.severity == Severity::Warning);
            let tests = if all.len() == 0 {
                1
            } else {
                all.len()
            };
            text::has_sub(
                junit::summary_junit(r, name),
                "\" tests=\""@ + text::decimal(tests) + "\" failures=\""@ + text::decimal(
                    all.filter(fails).len(),
                ) + "\" errors=\"0\" skipped=\""@ + text::decimal(
                    all.filter(|f: ReportedView| f.suppressed).len(),
                ) + "\">\n"@,
            )
        }),
        count_laws::all_of(r.groups).len() == 0 ==> text::has_sub(
            junit::summary_junit(r, name),
            "\" name=\"no breaking changes detected\"/>\n"@,
        ),
{
    broadcast use text::lemma_sub_of_joined;

    let n = r.groups.len() as int;
    assert(r.groups.take(n) =~= r.groups);
    lemma_all_counted(r.groups, n);
    let all = count_laws::all_of(r.groups);
    let fails = |f: ReportedView|
        !f.suppressed && (f.finding.severity == Severity::Critical || r.strict
            && f.finding.severity == Severity::Warning);
    let skips = |f: ReportedView| f.suppressed;
    count_laws::lemma_filter_of_groups(r.groups, fails, n);
    count_laws::lemma_filter_of_groups(r.groups, skips, n);
    assert(junit::failing_cases(r.strict) =~= fails);
    assert(safety::acknowledged() =~= skips);
    let front = "  <testsuite name=\""@ + escape::xml_text(junit::suite_title(name));
    let numbers = "\" tests=\""@ + text::decimal(junit::suite_tests(r)) + "\" failures=\""@
        + text::decimal(all.filter(fails).len()) + "\" errors=\"0\" skipped=\""@ + text::decimal(
        all.filter(skips).len(),
    ) + "\">\n"@;
    text::lemma_sub_of_itself(numbers);
    let rest = junit::suite_cases(r, junit::suite_class(name));
    lemma_numbers_in_a_row(
        front,
        "\" tests=\""@,
        text::decimal(junit::suite_tests(r)),
        "\" failures=\""@,
        text::decimal(all.filter(fails).len()),
        "\" errors=\"0\" skipped=\""@,
        text::decimal(all.filter(skips).len()),
        "\">\n"@,
    );
    if all.len() == 0 {
        let case = "\" name=\"no breaking changes detected\"/>\n"@;
        text::lemma_sub_of_itself(case);
        assert(text::has_sub(junit::empty_case(junit::suite_class(name)), case));
        assert(text::has_sub(rest, case));
    }
}

proof fn lemma_numbers_in_a_row(
    p: Seq<char>,
    a: Seq<char>,
    b: Seq<char>,
    c: Seq<char>,
    d: Seq<char>,
    e: Seq<char>,
    f: Seq<char>,
    g: Seq<char>,
)
    ensures
        text::has_sub(p + a + b + c + d + e + f + g, a + b + c + d + e + f + g),
{
    let row = a + b + c + d + e + f + g;
    text::lemma_sub_of_itself(row);
    text::lemma_sub_of_joined(p, row, row);
    assert(p + a + b + c + d + e + f + g =~= p + row);
}

/// A document of test suites is headed by its name and holds the suites as they are.
pub proof fn a_document_holds_its_suites(name: Seq<char>, suites: Seq<char>)
    ensures
        text::has_sub(
            junit::document(name, suites),
            "<testsuites name=\""@ + escape::xml_text(name) + "\">\n"@ + suites
                + "</testsuites>\n"@,
        ),
{
    broadcast use text::lemma_sub_of_joined;

    let body = "<testsuites name=\""@ + escape::xml_text(name) + "\">\n"@ + suites
        + "</testsuites>\n"@;
    text::lemma_sub_of_itself(body);
    reveal_strlit("<?xml version=\"1.0\" encoding=\"UTF-8\"?>\n<testsuites name=\"");
    reveal_strlit("<?xml version=\"1.0\" encoding=\"UTF-8\"?>\n");
    reveal_strlit("<testsuites name=\"");
    assert("<?xml version=\"1.0\" encoding=\"UTF-8\"?>\n"@ + "<testsuites name=\""@
        =~= "<?xml version=\"1.0\" encoding=\"UTF-8\"?>\n<testsuites name=\""@);
    assert(junit::document(name, suites)
        =~= "<?xml version=\"1.0\" encoding=\"UTF-8\"?>\n"@ + body);
}

} // verus!
