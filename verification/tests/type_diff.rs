use soroban_upgrade_safeguard::type_diff::common_span;
use soroban_upgrade_safeguard::type_diff::extract_type_pair;
use soroban_upgrade_safeguard::type_diff::is_type_change_category;
use soroban_upgrade_safeguard::type_diff::render_type_diff;

#[test]
fn extracts_simple_types() {
    let msg = "Function 'f': parameter 0 ('x') type changed from `u32` to `u64`.";
    let pair = extract_type_pair(msg).expect("should extract");
    assert_eq!(pair.0, "u32");
    assert_eq!(pair.1, "u64");
}

#[test]
fn extracts_generic_types() {
    let msg = "Struct 'S': field 'v' type changed from `Map<String, u32>` to `Map<String, u64>`.";
    let pair = extract_type_pair(msg).expect("should extract");
    assert_eq!(pair.0, "Map<String, u32>");
    assert_eq!(pair.1, "Map<String, u64>");
}

#[test]
fn extracts_with_trailing_detail_sentence() {
    let msg = "… type changed from `i32` to `i64`. This is a widening numeric conversion: …";
    let pair = extract_type_pair(msg).expect("should extract");
    assert_eq!(pair.0, "i32");
    assert_eq!(pair.1, "i64");
}

#[test]
fn returns_none_for_non_type_change_message() {
    let msg = "Function 'transfer' was removed. Existing callers will break.";
    assert!(extract_type_pair(msg).is_none());
}

#[test]
fn empty_types_are_not_a_pair() {
    assert!(extract_type_pair("changed from `` to `u64`.").is_none());
    assert!(extract_type_pair("changed from `u32` to ``.").is_none());
    assert!(extract_type_pair("changed from `u32` to `u64").is_none());
    assert!(extract_type_pair("changed from `u32` by `u64`").is_none());
}

#[test]
fn common_span_identical_strings() {
    let (p, s) = common_span("u32", "u32");
    assert_eq!(p + s, "u32".len());
}

#[test]
fn common_span_completely_different() {
    let (p, s) = common_span("bool", "Address");
    assert_eq!(p, 0);
    assert_eq!(s, 0);
}

#[test]
fn common_span_shared_wrapper() {
    let a = "Map<String, u32>";
    let b = "Map<String, u64>";
    let (p, s) = common_span(a, b);

    let prefix = &a[..p];
    let suffix = &a[a.len() - s..];
    let old_mid = &a[p..a.len() - s];
    let new_mid = &b[p..b.len() - s];

    assert_eq!(prefix, "Map<String, ");
    assert_eq!(old_mid, "u32");
    assert_eq!(new_mid, "u64");
    assert_eq!(suffix, ">");
}

#[test]
fn common_span_prefix_only() {
    let a = "Option<u32>";
    let b = "Option<bool>";
    let (p, s) = common_span(a, b);
    assert_eq!(&a[..p], "Option<");
    assert_eq!(s, 0, "no common suffix");
}

#[test]
fn common_span_suffix_only() {
    let a = "u32>";
    let b = "u64>";
    let (p, s) = common_span(a, b);
    assert_eq!(p, 0, "no common prefix");
    assert_eq!(&a[a.len() - s..], ">");
}

#[test]
fn common_span_counts_bytes() {
    let a = "é é, u32";
    let b = "é é, u64";
    let (p, s) = common_span(a, b);
    assert_eq!(p, "é é, ".len());
    assert_eq!(s, 0);
    assert_eq!(&a[..p], "é é, ");
}

#[test]
fn common_span_of_empty_strings() {
    assert_eq!(common_span("", ""), (0, 0));
    assert_eq!(common_span("", "u32"), (0, 0));
}

#[test]
fn render_marks_changed_span_with_brackets_no_color() {
    let out = render_type_diff("u32", "u64", false);
    assert!(out.contains("- [u32]"), "old line missing: {out}");
    assert!(out.contains("+ [u64]"), "new line missing: {out}");
}

#[test]
fn render_preserves_common_wrapper_no_color() {
    let out = render_type_diff("Map<String, u32>", "Map<String, u64>", false);
    assert!(
        out.contains("- Map<String, [u32]>"),
        "old wrapper not preserved: {out}"
    );
    assert!(
        out.contains("+ Map<String, [u64]>"),
        "new wrapper not preserved: {out}"
    );
}

#[test]
fn render_indented_four_spaces_no_color() {
    let out = render_type_diff("u32", "u64", false);
    for line in out.lines() {
        assert!(
            line.starts_with("    "),
            "every line must be indented 4 spaces: {line:?}"
        );
    }
}

#[test]
fn render_no_color_contains_no_ansi_escapes() {
    let out = render_type_diff("Map<String, u32>", "Map<String, u64>", false);
    assert!(
        !out.contains('\u{1b}'),
        "color=false must not emit ANSI codes: {out:?}"
    );
}

#[test]
fn render_completely_different_types_no_color() {
    let out = render_type_diff("bool", "Address", false);
    assert!(out.contains("- [bool]"), "old: {out}");
    assert!(out.contains("+ [Address]"), "new: {out}");
}

#[test]
fn render_option_wrapper_no_color() {
    let out = render_type_diff("Option<u32>", "Option<u64>", false);
    assert!(out.contains("- Option<[u32]>"), "old: {out}");
    assert!(out.contains("+ Option<[u64]>"), "new: {out}");
}

#[test]
fn render_exact_lines_without_color() {
    assert_eq!(
        render_type_diff("Vec<u32>", "Vec<i128>", false),
        "    - Vec<[u32]>\n    + Vec<[i128]>\n"
    );
    assert_eq!(
        render_type_diff("a>", "bb>", false),
        "    - [a]>\n    + [bb]>\n"
    );
    assert_eq!(
        render_type_diff("Vec<Vec<u32>>", "Vec<u32>", false),
        "    - Vec<[Vec<u32>]>\n    + Vec<[u32]>\n"
    );
    assert_eq!(
        render_type_diff("u32", "u32", false),
        "    - u32[]\n    + u32[]\n"
    );
}

#[test]
fn render_keeps_an_end_that_both_types_share_whatever_their_length() {
    let out = render_type_diff("Map<Symbol, u32>", "Map<Symbol, Option<u32>>", false);
    assert_eq!(
        out,
        "    - Map<Symbol, [u32]>\n    + Map<Symbol, [Option<u32>]>\n"
    );
    let (p, s) = common_span("Map<Symbol, u32>", "Map<Symbol, Option<u32>>");
    assert_eq!((p, s), ("Map<Symbol, ".len(), 0));
}

#[test]
fn render_in_color_where_colors_are_on() {
    colored::control::set_override(true);
    let on = render_type_diff("Vec<u32>", "Vec<u64>", true);
    assert_eq!(
        on,
        "    \u{1b}[1;31m-\u{1b}[0m Vec<\u{1b}[1;31mu32\u{1b}[0m>\n    \
         \u{1b}[1;32m+\u{1b}[0m Vec<\u{1b}[1;32mu64\u{1b}[0m>\n"
    );
    assert_eq!(
        render_type_diff("u32", "u64", false),
        "    - [u32]\n    + [u64]\n"
    );
    colored::control::set_override(false);
    let off = render_type_diff("Vec<u32>", "Vec<u64>", true);
    assert_eq!(off, "    - Vec<u32>\n    + Vec<u64>\n");
}

#[test]
fn type_change_categories_all_recognised() {
    let cats = [
        "Parameter Type Changed",
        "Parameter Type Widened",
        "Parameter Type Narrowed",
        "Parameter Type Signedness Changed",
        "Return Type Changed",
        "Return Type Widened",
        "Return Type Narrowed",
        "Return Type Signedness Changed",
        "Struct Field Type Changed",
        "Struct Field Type Widened",
        "Struct Field Type Narrowed",
        "Struct Field Type Signedness Changed",
        "Union Case Type Changed",
        "Union Case Type Widened",
        "Union Case Type Narrowed",
        "Union Case Type Signedness Changed",
    ];
    for cat in cats {
        assert!(is_type_change_category(cat), "not recognised: {cat}");
    }
}

#[test]
fn non_type_change_categories_not_recognised() {
    assert!(!is_type_change_category("Function Removed"));
    assert!(!is_type_change_category("Struct Field Removed"));
    assert!(!is_type_change_category("Enum Case Added"));
}
