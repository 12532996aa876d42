//! What markup a page of a report holds: its own, and none from the builds that
//! it reports on.

use vstd::prelude::*;

use crate::baseline::BaselineView;
use crate::baseline::ResolvedView;
use crate::diff;
use crate::diff::Severity;
use crate::report::escape;
use crate::report::findings;
use crate::report::findings::GroupView;
use crate::report::findings::ReportedView;
use crate::report::html;
use crate::report::metrics;
use crate::report::metrics::BuildMetrics;
use crate::report::safety::ReportView;
use crate::report::scope::ScopeView;
use crate::report::status;
use crate::report::tags;
use crate::report::text_format;
use crate::text;

verus! {

/// Whether the angle bracket at `i` opens or closes one of the page's own
/// elements: a section, heading, paragraph, list, span, summary, code, details,
/// division or table.
pub open spec fn own_tag_at(s: Seq<char>, i: int) -> bool {
    &&& i + 3 < s.len()
    &&& {
        let (a, b, c) = (s[i + 1], s[i + 2], s[i + 3]);
        ||| a == '/'
        ||| a == 'p' && b == ' '
        ||| a == 'h' && (b == '1' || b == '2')
        ||| a == 'u' && b == 'l'
        ||| a == 'l' && b == 'i' && c == ' '
        ||| a == 's' && (b == 'e' || b == 'p' || b == 'u')
        ||| a == 'c' && b == 'o'
        ||| a == 'd' && (b == 'e' || b == 'i')
        ||| a == 't' && (b == 'a' || b == 'b' || b == 'd' || b == 'h' || b == 'r')
    }
}

/// Whether a text holds no markup but the page's own.
pub open spec fn own_markup(s: Seq<char>) -> bool {
    forall|i: int| 0 <= i < s.len() && #[trigger] s[i] == '<' ==> own_tag_at(s, i)
}

broadcast proof fn lemma_own_joined(a: Seq<char>, b: Seq<char>)
    requires
        own_markup(a),
        own_markup(b),
    ensures
        #[trigger] own_markup(a + b),
{
    let s = a + b;
    assert forall|i: int| 0 <= i < s.len() && #[trigger] s[i] == '<' implies own_tag_at(s, i) by {
        if i < a.len() {
            assert(a[i] == '<');
            assert(own_tag_at(a, i));
        } else {
            assert(b[i - a.len()] == '<');
            assert(own_tag_at(b, i - a.len()));
        }
    }
}

broadcast proof fn lemma_escaped_is_own(s: Seq<char>)
    ensures
        #[trigger] own_markup(escape::html_text(s)),
{
    escape::html_text_holds_no_markup(s);
}

broadcast proof fn lemma_number_is_own(n: nat)
    ensures
        #[trigger] own_markup(text::decimal(n)),
{
    tags::lemma_digits(n);
}

broadcast group group_own_markup {
    lemma_own_joined,
    lemma_escaped_is_own,
    lemma_number_is_own,
}

proof fn lemma_name_html_is_own(heading: Option<&str>, top_level: bool)
    ensures
        own_markup(html::name_html(heading, top_level)),
{
    broadcast use group_own_markup;

    reveal_strlit("pair-name\">");
    reveal_strlit("");
    reveal_strlit("<h1 class=\"");
    reveal_strlit("<h2 class=\"");
    reveal_strlit("</h1>\n");
    reveal_strlit("</h2>\n");
    assert(own_markup("pair-name\">"@));
    assert(own_markup(""@));
    assert(own_markup("<h1 class=\""@));
    assert(own_markup("<h2 class=\""@));
    assert(own_markup("</h1>\n"@));
    assert(own_markup("</h2>\n"@));
}

proof fn lemma_title_html_is_own(heading: Option<&str>, top_level: bool)
    ensures
        own_markup(html::title_html(heading, top_level)),
{
    broadcast use group_own_markup;

    reveal_strlit("title\">Soroban Upgrade Safety Report");
    reveal_strlit("");
    reveal_strlit("<h1 class=\"");
    reveal_strlit("<h2 class=\"");
    reveal_strlit("</h1>\n");
    reveal_strlit("</h2>\n");
    assert(own_markup("title\">Soroban Upgrade Safety Report"@));
    assert(own_markup(""@));
    assert(own_markup("<h1 class=\""@));
    assert(own_markup("<h2 class=\""@));
    assert(own_markup("</h1>\n"@));
    assert(own_markup("</h2>\n"@));
}

proof fn lemma_strict_html_is_own(strict: bool)
    ensures
        own_markup(html::strict_html(strict)),
{
    broadcast use group_own_markup;

    reveal_strlit("<p class=\"banner strict\">⚠️ STRICT MODE ACTIVE — warnings are treated as failures.</p>\n");
    reveal_strlit("");
    assert(own_markup("<p class=\"banner strict\">⚠️ STRICT MODE ACTIVE — warnings are treated as failures.</p>\n"@));
    assert(own_markup(""@));
}

proof fn lemma_verdict_html_is_own(r: ReportView)
    ensures
        own_markup(html::verdict_html(r)),
{
    broadcast use group_own_markup;

    reveal_strlit("<p class=\"banner ");
    reveal_strlit("pass");
    reveal_strlit("fail");
    reveal_strlit("\">");
    reveal_strlit("</p>\n");
    assert(own_markup("<p class=\"banner "@));
    assert(own_markup("pass"@));
    assert(own_markup("fail"@));
    assert(own_markup("\">"@));
    assert(own_markup("</p>\n"@));
}

proof fn lemma_notice_html_is_own(r: ReportView)
    ensures
        own_markup(html::notice_html(r)),
{
    broadcast use group_own_markup;

    reveal_strlit("<p class=\"banner override-verdict\">⚠️ ");
    reveal_strlit("</p>\n");
    reveal_strlit("");
    assert(own_markup("<p class=\"banner override-verdict\">⚠️ "@));
    assert(own_markup("</p>\n"@));
    assert(own_markup(""@));
}

proof fn lemma_scope_html_is_own(s: ScopeView)
    ensures
        own_markup(html::scope_html(s)),
{
    broadcast use group_own_markup;

    reveal_strlit("<p class=\"scope\">");
    reveal_strlit("</p>\n<p class=\"");
    reveal_strlit("scope");
    reveal_strlit("scope gap");
    reveal_strlit("\">");
    reveal_strlit("</p>\n");
    reveal_strlit("<p class=\"banner warn\">⚠️ Multi-section WASM detected: old has ");
    reveal_strlit(" contractspecv0 section(s), new has ");
    reveal_strlit(".</p>\n");
    reveal_strlit("");
    reveal_strlit("<p class=\"banner fail\">❌ Duplicate spec entries detected: ");
    assert(own_markup("<p class=\"scope\">"@));
    assert(own_markup("</p>\n<p class=\""@));
    assert(own_markup("scope"@));
    assert(own_markup("scope gap"@));
    assert(own_markup("\">"@));
    assert(own_markup("</p>\n"@));
    assert(own_markup("<p class=\"banner warn\">⚠️ Multi-section WASM detected: old has "@));
    assert(own_markup(" contractspecv0 section(s), new has "@));
    assert(own_markup(".</p>\n"@));
    assert(own_markup(""@));
    assert(own_markup("<p class=\"banner fail\">❌ Duplicate spec entries detected: "@));
    assert(own_markup(html::sections_html(s)));
    assert(own_markup(html::duplicates_html(s)));
}

proof fn lemma_tile_is_own(label: Seq<char>, value: nat, class: Seq<char>)
    requires
        own_markup(class),
    ensures
        own_markup(html::tile(label, value, class)),
        own_markup(html::optional_tile(label, value, class)),
{
    broadcast use group_own_markup;

    reveal_strlit("<li class=\"stat stat-");
    reveal_strlit("\"><span class=\"stat-value\">");
    reveal_strlit("</span><span class=\"stat-label\">");
    reveal_strlit("</span></li>\n");
    reveal_strlit("");
    assert(own_markup("<li class=\"stat stat-"@));
    assert(own_markup("\"><span class=\"stat-value\">"@));
    assert(own_markup("</span><span class=\"stat-label\">"@));
    assert(own_markup("</span></li>\n"@));
    assert(own_markup(""@));
}

proof fn lemma_counts_html_is_own(r: ReportView)
    ensures
        own_markup(html::counts_html(r)),
{
    broadcast use group_own_markup;

    reveal_strlit("<ul class=\"stats\">\n");
    reveal_strlit("</ul>\n");
    reveal_strlit("critical");
    reveal_strlit("warning");
    reveal_strlit("info");
    reveal_strlit("suppressed");
    reveal_strlit("filtered");
    reveal_strlit("overridden");
    assert(own_markup("<ul class=\"stats\">\n"@));
    assert(own_markup("</ul>\n"@));
    assert(own_markup("critical"@));
    assert(own_markup("warning"@));
    assert(own_markup("info"@));
    assert(own_markup("suppressed"@));
    assert(own_markup("filtered"@));
    assert(own_markup("overridden"@));
    lemma_tile_is_own("Critical"@, r.critical_count, "critical"@);
    lemma_tile_is_own("Warning"@, r.warning_count, "warning"@);
    lemma_tile_is_own("Info"@, r.info_count, "info"@);
    lemma_tile_is_own("Suppressed"@, r.suppressed_count, "suppressed"@);
    lemma_tile_is_own("Filtered"@, r.filtered_count, "filtered"@);
    lemma_tile_is_own("Severity overridden"@, r.severity_overridden_count, "overridden"@);
}

proof fn lemma_optional_is_own(open: Seq<char>, t: Option<Seq<char>>, close: Seq<char>)
    requires
        own_markup(open),
        own_markup(close),
    ensures
        own_markup(html::optional_html(open, t, close)),
{
    broadcast use group_own_markup;

    reveal_strlit("");
}

proof fn lemma_baseline_html_is_own(b: Option<BaselineView>)
    ensures
        own_markup(html::baseline_html(b)),
{
    broadcast use group_own_markup;

    reveal_strlit("<p class=\"meta\">Baseline: ");
    reveal_strlit(" new, ");
    reveal_strlit(" persisting, ");
    reveal_strlit(" resolved (vs. tool v");
    reveal_strlit(")");
    reveal_strlit("</p>\n");
    reveal_strlit("");
    reveal_strlit(" — verdict reflects new findings only");
    assert(own_markup("<p class=\"meta\">Baseline: "@));
    assert(own_markup(" new, "@));
    assert(own_markup(" persisting, "@));
    assert(own_markup(" resolved (vs. tool v"@));
    assert(own_markup(")"@));
    assert(own_markup("</p>\n"@));
    assert(own_markup(""@));
    assert(own_markup(" — verdict reflects new findings only"@));
    match b {
        Some(d) => {
            assert(own_markup(text_format::new_only_remark(d)));
        },
        None => {},
    }
}

proof fn lemma_meta_html_is_own(r: ReportView)
    ensures
        own_markup(html::meta_html(r)),
{
    broadcast use group_own_markup;

    reveal_strlit("<p class=\"meta\">Recommended SemVer bump: <code>");
    reveal_strlit("</code></p>\n");
    reveal_strlit("<p class=\"meta\">Baseline source: <code>");
    reveal_strlit("<p class=\"meta\">Verified code hash: <code>");
    reveal_strlit("<p class=\"note\">Findings were hidden by --include-category/--exclude-category. The verdict reflects the remaining visible findings only.</p>\n");
    reveal_strlit("");
    reveal_strlit("major");
    reveal_strlit("minor");
    reveal_strlit("patch");
    assert(own_markup("<p class=\"meta\">Recommended SemVer bump: <code>"@));
    assert(own_markup("</code></p>\n"@));
    assert(own_markup("<p class=\"meta\">Baseline source: <code>"@));
    assert(own_markup("<p class=\"meta\">Verified code hash: <code>"@));
    assert(own_markup("<p class=\"note\">Findings were hidden by --include-category/--exclude-category. The verdict reflects the remaining visible findings only.</p>\n"@));
    assert(own_markup(""@));
    assert(own_markup("major"@));
    assert(own_markup("minor"@));
    assert(own_markup("patch"@));
    lemma_optional_is_own(
        "<p class=\"meta\">Baseline source: <code>"@,
        r.baseline_source,
        "</code></p>\n"@,
    );
    lemma_optional_is_own(
        "<p class=\"meta\">Verified code hash: <code>"@,
        r.verified_code_hash,
        "</code></p>\n"@,
    );
    lemma_baseline_html_is_own(r.baseline_diff);
    assert(own_markup(status::bump(r)));
    assert(own_markup(html::filtered_html(r.filtered_count)));
}

proof fn lemma_head_html_is_own(r: ReportView, heading: Option<&str>, top_level: bool)
    ensures
        own_markup(html::head_html(r, heading, top_level)),
{
    broadcast use group_own_markup;

    reveal_strlit("<section class=\"report\">\n");
    assert(own_markup("<section class=\"report\">\n"@));
    lemma_name_html_is_own(heading, top_level);
    lemma_title_html_is_own(heading, top_level);
    lemma_strict_html_is_own(r.strict);
    lemma_verdict_html_is_own(r);
    lemma_notice_html_is_own(r);
    lemma_scope_html_is_own(r.scope);
    lemma_counts_html_is_own(r);
    lemma_meta_html_is_own(r);
}

proof fn lemma_label_is_own(s: Severity)
    ensures
        own_markup(diff::severity_label(s)),
{
    reveal_strlit("critical");
    reveal_strlit("warning");
    reveal_strlit("info");
}

proof fn lemma_badges_html_is_own(f: ReportedView)
    ensures
        own_markup(html::badges_html(f)),
{
    broadcast use group_own_markup;

    reveal_strlit("<span class=\"badge badge-");
    reveal_strlit("\">");
    reveal_strlit("</span> ");
    reveal_strlit("<span class=\"badge badge-suppressed\">suppressed</span> ");
    reveal_strlit("");
    reveal_strlit("<span class=\"badge badge-new\">new</span> ");
    reveal_strlit("<span class=\"badge badge-overridden\">severity ");
    reveal_strlit(" → ");
    assert(own_markup("<span class=\"badge badge-"@));
    assert(own_markup("\">"@));
    assert(own_markup("</span> "@));
    assert(own_markup("<span class=\"badge badge-suppressed\">suppressed</span> "@));
    assert(own_markup(""@));
    assert(own_markup("<span class=\"badge badge-new\">new</span> "@));
    assert(own_markup("<span class=\"badge badge-overridden\">severity "@));
    assert(own_markup(" → "@));
    lemma_label_is_own(f.finding.severity);
    match f.original_severity {
        Some(original) => {
            lemma_label_is_own(original);
        },
        None => {},
    }
    assert(own_markup(html::override_badge(f)));
}

proof fn lemma_finding_html_is_own(f: ReportedView)
    ensures
        own_markup(html::finding_html(f)),
{
    broadcast use group_own_markup;

    reveal_strlit("<li class=\"finding sev-");
    reveal_strlit(" suppressed");
    reveal_strlit("");
    reveal_strlit("\">");
    reveal_strlit("<span class=\"message\">");
    reveal_strlit("</span>");
    reveal_strlit(" <code class=\"target\">");
    reveal_strlit("</code>");
    reveal_strlit("<div class=\"sub\">reason: ");
    reveal_strlit("</div>");
    reveal_strlit("<div class=\"sub guidance\">guidance: ");
    reveal_strlit("</li>\n");
    assert(own_markup("<li class=\"finding sev-"@));
    assert(own_markup(" suppressed"@));
    assert(own_markup(""@));
    assert(own_markup("\">"@));
    assert(own_markup("<span class=\"message\">"@));
    assert(own_markup("</span>"@));
    assert(own_markup(" <code class=\"target\">"@));
    assert(own_markup("</code>"@));
    assert(own_markup("<div class=\"sub\">reason: "@));
    assert(own_markup("</div>"@));
    assert(own_markup("<div class=\"sub guidance\">guidance: "@));
    assert(own_markup("</li>\n"@));
    lemma_label_is_own(f.finding.severity);
    lemma_badges_html_is_own(f);
    lemma_optional_is_own(" <code class=\"target\">"@, f.finding.target, "</code>"@);
    lemma_optional_is_own("<div class=\"sub\">reason: "@, f.suppression_reason, "</div>"@);
    lemma_optional_is_own("<div class=\"sub guidance\">guidance: "@, f.remediation, "</div>"@);
}

proof fn lemma_findings_html_is_own(list: Seq<ReportedView>, order: Seq<int>, n: int)
    ensures
        own_markup(html::findings_html(list, order, n)),
    decreases n,
{
    broadcast use group_own_markup;

    reveal_strlit("");
    if n > 0 {
        lemma_findings_html_is_own(list, order, n - 1);
        lemma_finding_html_is_own(list[order[n - 1]]);
    }
}

proof fn lemma_group_html_is_own(g: GroupView)
    ensures
        own_markup(html::group_html(g)),
{
    broadcast use group_own_markup;

    reveal_strlit("<details class=\"category\"");
    reveal_strlit("");
    reveal_strlit(" open");
    reveal_strlit(">\n<summary>");
    reveal_strlit(" <span class=\"count\">");
    reveal_strlit("</span></summary>\n<ul class=\"findings\">\n");
    reveal_strlit("</ul>\n</details>\n");
    assert(own_markup("<details class=\"category\""@));
    assert(own_markup(""@));
    assert(own_markup(" open"@));
    assert(own_markup(">\n<summary>"@));
    assert(own_markup(" <span class=\"count\">"@));
    assert(own_markup("</span></summary>\n<ul class=\"findings\">\n"@));
    assert(own_markup("</ul>\n</details>\n"@));
    lemma_findings_html_is_own(
        g.findings,
        findings::message_order(g.findings),
        g.findings.len() as int,
    );
}

proof fn lemma_groups_html_is_own(groups: Seq<GroupView>, order: Seq<int>, n: int)
    ensures
        own_markup(html::groups_html(groups, order, n)),
    decreases n,
{
    broadcast use group_own_markup;

    reveal_strlit("");
    if n > 0 {
        lemma_groups_html_is_own(groups, order, n - 1);
        lemma_group_html_is_own(groups[order[n - 1]]);
    }
}

proof fn lemma_resolved_items_is_own(resolved: Seq<ResolvedView>, n: int)
    ensures
        own_markup(html::resolved_items(resolved, n)),
    decreases n,
{
    broadcast use group_own_markup;

    reveal_strlit("");
    reveal_strlit("<li class=\"finding resolved\">");
    reveal_strlit("</li>\n");
    assert(own_markup("<li class=\"finding resolved\">"@));
    assert(own_markup("</li>\n"@));
    if n > 0 {
        lemma_resolved_items_is_own(resolved, n - 1);
    }
}

proof fn lemma_resolved_html_is_own(b: Option<BaselineView>)
    ensures
        own_markup(html::resolved_html(b)),
{
    broadcast use group_own_markup;

    reveal_strlit("<details class=\"category\">\n<summary>✅ Resolved Since Baseline <span class=\"count\">");
    reveal_strlit("</span></summary>\n<ul class=\"findings\">\n");
    reveal_strlit("</ul>\n</details>\n");
    reveal_strlit("");
    assert(own_markup("<details class=\"category\">\n<summary>✅ Resolved Since Baseline <span class=\"count\">"@));
    assert(own_markup("</span></summary>\n<ul class=\"findings\">\n"@));
    assert(own_markup("</ul>\n</details>\n"@));
    assert(own_markup(""@));
    match b {
        Some(d) => {
            lemma_resolved_items_is_own(d.resolved, d.resolved.len() as int);
        },
        None => {},
    }
}

proof fn lemma_action_html_is_own(is_safe: bool)
    ensures
        own_markup(html::action_html(is_safe)),
{
    broadcast use group_own_markup;

    reveal_strlit("");
    reveal_strlit("<p class=\"banner fail\">⚠️ ACTION REQUIRED: the new contract version modifies existing storage layouts or function interfaces. Deploying this upgrade will result in orphaned data, serialization panics, or broken integrations.</p>\n");
    assert(own_markup(""@));
    assert(own_markup("<p class=\"banner fail\">⚠️ ACTION REQUIRED: the new contract version modifies existing storage layouts or function interfaces. Deploying this upgrade will result in orphaned data, serialization panics, or broken integrations.</p>\n"@));
}

proof fn lemma_audit_row_is_own(f: ReportedView)
    ensures
        own_markup(html::audit_row(f)),
{
    broadcast use group_own_markup;

    reveal_strlit("<tr><td>");
    reveal_strlit("</td><td><code>");
    reveal_strlit("</code></td><td><code>");
    reveal_strlit("</code></td><td>");
    reveal_strlit("</td><td>");
    reveal_strlit("</td></tr>\n");
    assert(own_markup("<tr><td>"@));
    assert(own_markup("</td><td><code>"@));
    assert(own_markup("</code></td><td><code>"@));
    assert(own_markup("</code></td><td>"@));
    assert(own_markup("</td><td>"@));
    assert(own_markup("</td></tr>\n"@));
}

proof fn lemma_audit_rows_is_own(list: Seq<ReportedView>, order: Seq<int>, n: int)
    ensures
        own_markup(html::audit_rows(list, order, n)),
    decreases n,
{
    broadcast use group_own_markup;

    reveal_strlit("");
    if n > 0 {
        lemma_audit_rows_is_own(list, order, n - 1);
        lemma_audit_row_is_own(list[order[n - 1]]);
    }
}

proof fn lemma_audit_html_is_own(r: ReportView)
    ensures
        own_markup(html::audit_html(r)),
{
    broadcast use group_own_markup;

    reveal_strlit("<details class=\"category\" open>\n<summary>🔕 Applied Suppressions Audit Log <span class=\"count\">");
    reveal_strlit("</span></summary>\n<div class=\"table-scroll\"><table>\n<thead><tr><th>Category</th><th>Target</th><th>Fingerprint</th><th>Author</th><th>Expiry</th><th>Reason</th                          </tr></thead>\n<tbody>\n");
    reveal_strlit("</tbody>\n</table></div>\n</details>\n");
    reveal_strlit("");
    assert(own_markup("<details class=\"category\" open>\n<summary>🔕 Applied Suppressions Audit Log <span class=\"count\">"@));
    assert(own_markup("</span></summary>\n<div class=\"table-scroll\"><table>\n<thead><tr><th>Category</th><th>Target</th><th>Fingerprint</th><th>Author</th><th>Expiry</th><th>Reason</th                          </tr></thead>\n<tbody>\n"@));
    assert(own_markup("</tbody>\n</table></div>\n</details>\n"@));
    assert(own_markup(""@));
    let list = findings::suppressed_findings(r.groups);
    lemma_audit_rows_is_own(list, findings::audit_order(list), list.len() as int);
}

proof fn lemma_bytes_text_is_own(n: nat)
    ensures
        own_markup(metrics::bytes_text(n)),
{
    broadcast use group_own_markup;

    reveal_strlit(".");
    reveal_strlit(" MB");
    reveal_strlit(" KB");
    reveal_strlit(" B");
    assert(own_markup("."@) && own_markup(" MB"@) && own_markup(" KB"@) && own_markup(" B"@));
}

proof fn lemma_delta_text_is_own(d: i64)
    ensures
        own_markup(metrics::delta_text(d)),
{
    broadcast use group_own_markup;

    reveal_strlit("+");
    reveal_strlit("-");
    assert(own_markup("+"@) && own_markup("-"@));
    lemma_bytes_text_is_own(
        #[verifier::truncate] (metrics::magnitude_of(d) as u64 as usize) as nat,
    );
}

proof fn lemma_count_row_is_own(label: Seq<char>, old_count: usize, new_count: usize)
    requires
        own_markup(label),
    ensures
        own_markup(html::count_row(label, old_count, new_count)),
{
    broadcast use group_own_markup;

    reveal_strlit("<tr><td>");
    reveal_strlit("</td><td>");
    reveal_strlit("</td></tr>\n");
    reveal_strlit("+");
    reveal_strlit("-");
    assert(own_markup("<tr><td>"@));
    assert(own_markup("</td><td>"@));
    assert(own_markup("</td></tr>\n"@));
    assert(own_markup("+"@) && own_markup("-"@));
    assert(own_markup(text::signed_decimal(metrics::signed_delta(old_count, new_count))));
}

proof fn lemma_metrics_html_is_own(metrics: Option<BuildMetrics>)
    ensures
        own_markup(html::metrics_html(metrics)),
{
    broadcast use group_own_markup;

    reveal_strlit("<details class=\"category\">\n<summary>📊 Build Metrics</summary>\n<div class=\"table-scroll\"><table>\n<thead><tr><th>Metric</th><th>Old</th><th>New</th><th>Delta</th></tr></thead>\n<tbody>\n<tr><td>WASM size</td><td>");
    reveal_strlit("</td><td>");
    reveal_strlit("</td></tr>\n");
    reveal_strlit("Functions");
    reveal_strlit("Structs");
    reveal_strlit("Enums");
    reveal_strlit("Unions");
    reveal_strlit("Error Enums");
    reveal_strlit("</tbody>\n</table></div>\n</details>\n");
    reveal_strlit("");
    assert(own_markup("<details class=\"category\">\n<summary>📊 Build Metrics</summary>\n<div class=\"table-scroll\"><table>\n<thead><tr><th>Metric</th><th>Old</th><th>New</th><th>Delta</th></tr></thead>\n<tbody>\n<tr><td>WASM size</td><td>"@));
    assert(own_markup("</td><td>"@));
    assert(own_markup("</td></tr>\n"@));
    assert(own_markup("Functions"@));
    assert(own_markup("Structs"@));
    assert(own_markup("Enums"@));
    assert(own_markup("Unions"@));
    assert(own_markup("Error Enums"@));
    assert(own_markup("</tbody>\n</table></div>\n</details>\n"@));
    assert(own_markup(""@));
    match metrics {
        Some(m) => {
            lemma_bytes_text_is_own(m.old_size_bytes as nat);
            lemma_bytes_text_is_own(m.new_size_bytes as nat);
            lemma_delta_text_is_own(m.size_delta_bytes);
            lemma_count_row_is_own("Functions"@, m.old_function_count, m.new_function_count);
            lemma_count_row_is_own("Structs"@, m.old_struct_count, m.new_struct_count);
            lemma_count_row_is_own("Enums"@, m.old_enum_count, m.new_enum_count);
            lemma_count_row_is_own("Unions"@, m.old_union_count, m.new_union_count);
            lemma_count_row_is_own("Error Enums"@, m.old_error_enum_count, m.new_error_enum_count);
        },
        None => {},
    }
}

/// Nothing that a build or a configuration says can add an element to the page:
/// every angle bracket in a section opens or closes one of the page's own
/// elements.
pub proof fn a_section_holds_no_markup_but_its_own(
    r: ReportView,
    heading: Option<&str>,
    top_level: bool,
)
    ensures
        own_markup(html::section(r, heading, top_level)),
{
    broadcast use group_own_markup;

    reveal_strlit("<p class=\"empty\">No relevant changes detected. The exported interface is identical in its exports and types.</p>\n<p class=\"note\">");
    reveal_strlit("</p>\n");
    reveal_strlit("</section>\n");
    assert(own_markup("<p class=\"empty\">No relevant changes detected. The exported interface is identical in its exports and types.</p>\n<p class=\"note\">"@));
    assert(own_markup("</p>\n"@));
    assert(own_markup("</section>\n"@));
    lemma_head_html_is_own(r, heading, top_level);
    lemma_groups_html_is_own(
        r.groups,
        findings::severity_order(r.groups),
        r.groups.len() as int,
    );
    lemma_resolved_html_is_own(r.baseline_diff);
    lemma_action_html_is_own(r.is_safe);
    lemma_audit_html_is_own(r);
    lemma_metrics_html_is_own(r.metrics);
}

/// In particular, no script, image or link can come onto the page.
pub proof fn a_section_holds_no_script(r: ReportView, heading: Option<&str>, top_level: bool)
    ensures
        !text::has_sub(html::section(r, heading, top_level), "<script"@),
        !text::has_sub(html::section(r, heading, top_level), "<img"@),
        !text::has_sub(html::section(r, heading, top_level), "<link"@),
{
    a_section_holds_no_markup_but_its_own(r, heading, top_level);
    let s = html::section(r, heading, top_level);
    reveal_strlit("<script");
    reveal_strlit("<img");
    reveal_strlit("<link");
    lemma_no_foreign_tag(s, "<script"@);
    lemma_no_foreign_tag(s, "<img"@);
    lemma_no_foreign_tag(s, "<link"@);
}

proof fn lemma_no_foreign_tag(s: Seq<char>, tag: Seq<char>)
    requires
        own_markup(s),
        tag.len() >= 4,
        tag[0] == '<',
        !own_tag_at(tag, 0),
    ensures
        !text::has_sub(s, tag),
{
    text::lemma_first_at(s, 0, tag);
    match text::first_at(s, 0, tag) {
        Some(i) => {
            let part = s.subrange(i, i + tag.len());
            assert(part == tag);
            assert(part[0] == s[i] && part[1] == s[i + 1] && part[2] == s[i + 2] && part[3] == s[i
                + 3]);
            assert(own_tag_at(s, i));
        },
        None => {},
    }
}

} // verus!
