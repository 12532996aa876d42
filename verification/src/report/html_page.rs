//! The page that a report is put into.
//!
//! The page stands on its own: its styles and its script are part of it, and it
//! asks for nothing over the network.

use vstd::prelude::*;

use crate::report::escape;
use crate::text;

verus! {

/// The page up to its title.
pub const PAGE_START: &'static str = r##"<!DOCTYPE html>
<html lang="en">
<head>
<meta charset="utf-8">
<meta name="viewport" content="width=device-width, initial-scale=1">
<title>"##;

/// The page from its title to its contents.
pub const PAGE_HEAD: &'static str = r##"</title>
<style>
:root {
  --bg: #ffffff; --fg: #1b1f24; --muted: #57606a; --line: #d8dee4; --panel: #f6f8fa;
  --critical: #cf222e; --warning: #9a6700; --info: #0969da; --pass: #1a7f37;
  --overridden: #8250df;
}
@media (prefers-color-scheme: dark) {
  :root {
    --bg: #0d1117; --fg: #e6edf3; --muted: #9198a1; --line: #30363d; --panel: #161b22;
    --critical: #ff7b72; --warning: #d29922; --info: #79c0ff; --pass: #3fb950;
    --overridden: #d2a8ff;
  }
}
* { box-sizing: border-box; }
body {
  margin: 0; padding: 2rem 1rem; background: var(--bg); color: var(--fg);
  font: 15px/1.6 -apple-system, BlinkMacSystemFont, "Segoe UI", Helvetica, Arial, sans-serif;
}
main { max-width: 60rem; margin: 0 auto; }
h1, h2 { line-height: 1.25; }
h1 { font-size: 1.6rem; }
h2 { font-size: 1.25rem; margin-top: 2rem; }
code {
  font-family: ui-monospace, SFMono-Regular, Menlo, Consolas, monospace;
  font-size: 0.875em; background: var(--panel); padding: 0.1em 0.35em;
  border-radius: 4px; overflow-wrap: anywhere;
}
.banner {
  padding: 0.7rem 0.9rem; border-radius: 6px; border: 1px solid var(--line);
  font-weight: 600; background: var(--panel);
}
.banner.pass { color: var(--pass); border-color: var(--pass); }
.banner.fail { color: var(--critical); border-color: var(--critical); }
.banner.warn, .banner.strict { color: var(--warning); border-color: var(--warning); }
.banner.override-verdict { color: var(--overridden); border-color: var(--overridden); }
.scope { color: var(--muted); font-size: 0.9rem; margin: 0.4rem 0; }
.scope.gap { color: var(--warning); }
.note, .meta { color: var(--muted); font-size: 0.9rem; }
.empty { color: var(--pass); font-weight: 600; }
.stats { display: flex; flex-wrap: wrap; gap: 0.6rem; list-style: none; padding: 0; }
.stat {
  flex: 1 1 7rem; padding: 0.6rem 0.8rem; border: 1px solid var(--line);
  border-radius: 6px; background: var(--panel);
}
.stat-value { display: block; font-size: 1.5rem; font-weight: 700; }
.stat-label { display: block; font-size: 0.78rem; color: var(--muted); text-transform: uppercase; letter-spacing: 0.04em; }
.stat-critical .stat-value { color: var(--critical); }
.stat-warning .stat-value { color: var(--warning); }
.stat-info .stat-value { color: var(--info); }
.stat-overridden .stat-value { color: var(--overridden); }
.controls {
  position: sticky; top: 0; z-index: 1; display: flex; flex-wrap: wrap; gap: 1rem;
  padding: 0.7rem 0.9rem; margin-bottom: 1.5rem; background: var(--panel);
  border: 1px solid var(--line); border-radius: 6px; font-size: 0.9rem;
}
.controls label { cursor: pointer; user-select: none; }
details.category {
  border: 1px solid var(--line); border-radius: 6px; margin: 0.6rem 0; background: var(--panel);
}
details.category > summary {
  cursor: pointer; padding: 0.6rem 0.9rem; font-weight: 600; list-style-position: inside;
}
.count {
  display: inline-block; min-width: 1.5rem; padding: 0 0.4rem; margin-left: 0.4rem;
  border-radius: 999px; background: var(--bg); border: 1px solid var(--line);
  font-size: 0.8rem; text-align: center; color: var(--muted);
}
ul.findings { list-style: none; margin: 0; padding: 0 0.9rem 0.8rem; }
li.finding {
  padding: 0.5rem 0; border-top: 1px solid var(--line); overflow-wrap: anywhere;
}
li.finding.suppressed { opacity: 0.65; }
.badge {
  display: inline-block; padding: 0.05em 0.5em; border-radius: 999px;
  font-size: 0.72rem; font-weight: 700; text-transform: uppercase;
  letter-spacing: 0.03em; border: 1px solid currentColor; vertical-align: middle;
}
.badge-critical { color: var(--critical); }
.badge-warning { color: var(--warning); }
.badge-info { color: var(--info); }
.badge-suppressed, .badge-new { color: var(--muted); }
.badge-overridden { color: var(--overridden); }
.sub { color: var(--muted); font-size: 0.86rem; margin-top: 0.25rem; }
.sub.guidance { color: var(--pass); }
.table-scroll { overflow-x: auto; padding: 0 0.9rem 0.9rem; }
table { border-collapse: collapse; width: 100%; font-size: 0.88rem; }
th, td { border: 1px solid var(--line); padding: 0.4rem 0.6rem; text-align: left; }
th { background: var(--bg); }
section.report { margin-bottom: 2.5rem; }
body.hide-critical li.sev-critical,
body.hide-warning li.sev-warning,
body.hide-info li.sev-info { display: none; }
</style>
</head>
<body>
<main>
<div class="controls" role="group" aria-label="Filter findings by severity">
  <span>Show:</span>
  <label><input type="checkbox" class="sev-toggle" data-sev="critical" checked> Critical</label>
  <label><input type="checkbox" class="sev-toggle" data-sev="warning" checked> Warning</label>
  <label><input type="checkbox" class="sev-toggle" data-sev="info" checked> Info</label>
</div>
"##;

/// The page from its contents on.
pub const PAGE_END: &'static str = r##"
</main>
<script>
document.addEventListener('change', function (event) {
  var box = event.target;
  if (!box.classList || !box.classList.contains('sev-toggle')) return;
  document.body.classList.toggle('hide-' + box.dataset.sev, !box.checked);
});
</script>
</body>
</html>
"##;

/// A page with a title and contents.
pub open spec fn document(title: Seq<char>, body: Seq<char>) -> Seq<char> {
    PAGE_START@ + escape::html_text(title) + PAGE_HEAD@ + body + PAGE_END@
}

/// A page with a title and contents. The contents are taken as they are.
pub fn html_document(title: &str, body: &str) -> (r: String)
    ensures
        r@ == document(title@, body@),
{
    let mut out = PAGE_START.to_string();
    out.append(escape::escape_html(title).as_str());
    out.append(PAGE_HEAD);
    out.append(body);
    out.append(PAGE_END);
    out
}

/// A page holds its contents as they were given, and its title with nothing in it
/// that a browser would take for markup.
pub proof fn a_page_holds_its_title_and_contents(title: Seq<char>, body: Seq<char>)
    ensures
        text::has_sub(document(title, body), body),
        text::has_sub(document(title, body), escape::html_text(title)),
        text::begins_with(document(title, body), PAGE_START@ + escape::html_text(title)),
{
    broadcast use {text::lemma_sub_of_joined, text::lemma_begins_with_joined};

    text::lemma_sub_of_itself(body);
    text::lemma_sub_of_itself(escape::html_text(title));
    let front = PAGE_START@ + escape::html_text(title);
    assert(front.take(front.len() as int) =~= front);
    assert(text::begins_with(front, front));
}

} // verus!
