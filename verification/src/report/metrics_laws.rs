//! What the metrics of two builds say.

use vstd::prelude::*;

use crate::report::html;
use crate::report::markdown;
use crate::report::metrics;
use crate::report::metrics::BuildMetrics;
use crate::report::text_format;
use crate::style;
use crate::text;

verus! {

/// A number of hundredths, written with two decimals.
pub open spec fn hundredths(h: nat) -> Seq<char> {
    text::decimal(h / 100) + "."@ + text::decimal(h / 10 % 10) + text::decimal(h % 10)
}

/// Whether `q` is the integer nearest to `a / b`, and the even one of two that are
/// equally near.
pub open spec fn is_nearest(q: nat, a: nat, b: nat) -> bool {
    &&& 2 * a <= 2 * (b * q) + b
    &&& 2 * (b * q) <= 2 * a + b
    &&& 2 * a == 2 * (b * q) + b || 2 * (b * q) == 2 * a + b ==> q % 2 == 0
}

/// Quotients are rounded to the nearest integer, and halfway between two to the even
/// one.
pub proof fn quotients_are_rounded_to_the_nearest(a: nat, b: nat)
    requires
        b > 0,
    ensures
        is_nearest(metrics::rounded_quotient(a, b), a, b),
{
    let q = a / b;
    let r = a % b;
    vstd::arithmetic::div_mod::lemma_fundamental_div_mod(a as int, b as int);
    assert(b * (q + 1) == b * q + b) by (nonlinear_arith);
}

/// A size below a kibibyte is written in bytes, one below a mebibyte in kibibytes,
/// and any other in mebibytes, with two decimals, rounded to the nearest.
pub proof fn sizes_are_written_in_the_unit_that_suits(n: nat)
    requires
        n < 0x20_0000_0000_0000,
    ensures
        n < 1024 ==> metrics::bytes_text(n) == text::decimal(n) + " B"@,
        1024 <= n < 1024 * 1024 ==> exists|h: nat|
            is_nearest(h, 100 * n, 1024) && metrics::bytes_text(n) == #[trigger] hundredths(h)
                + " KB"@,
        1024 * 1024 <= n ==> exists|h: nat|
            is_nearest(h, 100 * n, 1024 * 1024) && metrics::bytes_text(n) == #[trigger] hundredths(
                h,
            ) + " MB"@,
{
    quotients_are_rounded_to_the_nearest(n, 1);
    let step = metrics::double_step(n);
    assert(step == 1);
    let q = metrics::rounded_quotient(n, step);
    assert(q == n);
    assert(q * step == n) by (nonlinear_arith)
        requires
            step == 1,
            q == n,
    ;
    assert(metrics::nearest_double(n) == n);
    if 1024 <= n {
        let unit: nat = if n < 1024 * 1024 {
            1024
        } else {
            1024 * 1024
        };
        let h = metrics::rounded_quotient(metrics::nearest_double(n) * 100, unit);
        quotients_are_rounded_to_the_nearest(100 * n, unit);
        assert(h % 100 / 10 == h / 10 % 10);
        assert(metrics::two_decimals(n, unit) == hundredths(h));
    }
}

/// A difference of sizes is written as its sign and the size of its magnitude.
pub proof fn size_differences_have_their_sign(d: i64)
    requires
        -(usize::MAX as int) <= d <= usize::MAX,
    ensures
        d >= 0 ==> metrics::delta_text(d) == "+"@ + metrics::bytes_text(d as nat),
        d < 0 ==> metrics::delta_text(d) == "-"@ + metrics::bytes_text((-d) as nat),
{
}

/// The table of metrics has a row for each kind of declaration, with the counts of
/// the two builds.
pub proof fn the_markdown_tells_the_metrics(m: BuildMetrics)
    ensures
        ({
            let out = markdown::metrics_md(Some(m));
            &&& text::has_sub(
                out,
                markdown::count_row(
                    "| **Functions** | "@,
                    m.old_function_count,
                    m.new_function_count,
                ),
            )
            &&& text::has_sub(
                out,
                markdown::count_row("| **Structs** | "@, m.old_struct_count, m.new_struct_count),
            )
            &&& text::has_sub(
                out,
                markdown::count_row("| **Enums** | "@, m.old_enum_count, m.new_enum_count),
            )
            &&& text::has_sub(
                out,
                markdown::count_row("| **Unions** | "@, m.old_union_count, m.new_union_count),
            )
            &&& text::has_sub(
                out,
                markdown::count_row(
                    "| **Error Enums** | "@,
                    m.old_error_enum_count,
                    m.new_error_enum_count,
                ),
            )
        }),
        markdown::metrics_md(None).len() == 0,
{
    broadcast use text::lemma_sub_of_joined;

    reveal_strlit("");
    text::lemma_sub_of_itself(
        markdown::count_row("| **Functions** | "@, m.old_function_count, m.new_function_count),
    );
    text::lemma_sub_of_itself(
        markdown::count_row("| **Structs** | "@, m.old_struct_count, m.new_struct_count),
    );
    text::lemma_sub_of_itself(
        markdown::count_row("| **Enums** | "@, m.old_enum_count, m.new_enum_count),
    );
    text::lemma_sub_of_itself(
        markdown::count_row("| **Unions** | "@, m.old_union_count, m.new_union_count),
    );
    text::lemma_sub_of_itself(
        markdown::count_row("| **Error Enums** | "@, m.old_error_enum_count, m.new_error_enum_count),
    );
}

/// The table on the page has the same rows.
pub proof fn the_page_tells_the_metrics(m: BuildMetrics)
    ensures
        ({
            let out = html::metrics_html(Some(m));
            &&& text::has_sub(
                out,
                html::count_row("Functions"@, m.old_function_count, m.new_function_count),
            )
            &&& text::has_sub(
                out,
                html::count_row("Structs"@, m.old_struct_count, m.new_struct_count),
            )
            &&& text::has_sub(out, html::count_row("Enums"@, m.old_enum_count, m.new_enum_count))
            &&& text::has_sub(
                out,
                html::count_row("Unions"@, m.old_union_count, m.new_union_count),
            )
            &&& text::has_sub(
                out,
                html::count_row("Error Enums"@, m.old_error_enum_count, m.new_error_enum_count),
            )
        }),
        html::metrics_html(None).len() == 0,
{
    broadcast use text::lemma_sub_of_joined;

    reveal_strlit("");
    text::lemma_sub_of_itself(
        html::count_row("Functions"@, m.old_function_count, m.new_function_count),
    );
    text::lemma_sub_of_itself(
        html::count_row("Structs"@, m.old_struct_count, m.new_struct_count),
    );
    text::lemma_sub_of_itself(html::count_row("Enums"@, m.old_enum_count, m.new_enum_count));
    text::lemma_sub_of_itself(html::count_row("Unions"@, m.old_union_count, m.new_union_count));
    text::lemma_sub_of_itself(
        html::count_row("Error Enums"@, m.old_error_enum_count, m.new_error_enum_count),
    );
}

/// The sizes of the two builds and their difference stand in every table of metrics,
/// the old one first.
pub proof fn the_sizes_are_told(m: BuildMetrics)
    ensures
        ({
            let old = metrics::bytes_text(m.old_size_bytes as nat);
            let new = metrics::bytes_text(m.new_size_bytes as nat);
            let delta = metrics::delta_text(m.size_delta_bytes);
            &&& text::has_sub(
                markdown::metrics_md(Some(m)),
                old + " | "@ + new + " | "@ + delta + " |\n"@,
            )
            &&& text::has_sub(
                html::metrics_html(Some(m)),
                old + "</td><td>"@ + new + "</td><td>"@ + delta + "</td></tr>\n"@,
            )
            &&& text_format::metrics_text(Some(m))[3] == style::plain(
                "WASM size:  "@ + old + " → "@ + new + " ("@ + delta + ")\n"@,
            )
        }),
        text_format::metrics_text(None).len() == 0,
{
    broadcast use text::lemma_sub_of_joined;

    let old = metrics::bytes_text(m.old_size_bytes as nat);
    let new = metrics::bytes_text(m.new_size_bytes as nat);
    let delta = metrics::delta_text(m.size_delta_bytes);
    lemma_five_in_a_row(
        "## 📊 Build Metrics\n\n| Metric | Old | New | Delta |\n| :--- | ---: | ---: | ---: |\n| **WASM size** | "@,
        old,
        " | "@,
        new,
        " | "@,
        delta,
        " |\n"@,
    );
    lemma_five_in_a_row(
        "<details class=\"category\">\n<summary>📊 Build Metrics</summary>\n<div class=\"table-scroll\"><table>\n<thead><tr><th>Metric</th><th>Old</th><th>New</th><th>Delta</th></tr></thead>\n<tbody>\n<tr><td>WASM size</td><td>"@,
        old,
        "</td><td>"@,
        new,
        "</td><td>"@,
        delta,
        "</td></tr>\n"@,
    );
}

proof fn lemma_five_in_a_row(
    p: Seq<char>,
    a: Seq<char>,
    b: Seq<char>,
    c: Seq<char>,
    d: Seq<char>,
    e: Seq<char>,
    f: Seq<char>,
)
    ensures
        text::has_sub(p + a + b + c + d + e + f, a + b + c + d + e + f),
{
    let row = a + b + c + d + e + f;
    text::lemma_sub_of_itself(row);
    text::lemma_sub_of_joined(p, row, row);
    assert(p + a + b + c + d + e + f =~= p + row);
}

/// The text report tells the counts of the two builds, a line for each kind of
/// declaration.
pub proof fn the_text_tells_the_metrics(m: BuildMetrics)
    ensures
        ({
            let out = text_format::metrics_text(Some(m));
            &&& out.len() == 9
            &&& out[4] == style::plain(
                text_format::count_line("Functions:  "@, m.old_function_count, m.new_function_count),
            )
            &&& out[5] == style::plain(
                text_format::count_line("Structs:    "@, m.old_struct_count, m.new_struct_count),
            )
            &&& out[6] == style::plain(
                text_format::count_line("Enums:      "@, m.old_enum_count, m.new_enum_count),
            )
            &&& out[7] == style::plain(
                text_format::count_line("Unions:     "@, m.old_union_count, m.new_union_count),
            )
            &&& out[8] == style::plain(
                text_format::count_line(
                    "Error Enums:"@,
                    m.old_error_enum_count,
                    m.new_error_enum_count,
                ),
            )
        }),
{
}

} // verus!
