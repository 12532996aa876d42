//! A test suite holds as many elements of each kind as it declares.

use vstd::prelude::*;

use crate::diff;
use crate::order;
use crate::report::escape;
use crate::report::findings;
use crate::report::findings::GroupView;
use crate::report::findings::ReportedView;
use crate::report::junit;
use crate::report::parts;
use crate::report::safety;
use crate::report::safety::ReportView;
use crate::report::status;
use crate::report::tags;
use crate::text;

verus! {

/// Escaped text holds no tag.
proof fn lemma_no_tag_in_escaped(s: Seq<char>, tag: Seq<char>)
    requires
        tag.len() > 1,
        tag[0] == '<',
    ensures
        tags::tags(escape::xml_text(s), tag) == 0,
        tags::whole(escape::xml_text(s), tag),
{
    escape::xml_text_holds_no_markup(s);
    tags::lemma_other_tags(escape::xml_text(s), tag, 1);
}

/// The tag of a failure.
pub open spec fn failure_tag() -> Seq<char> {
    "<failure "@
}

/// The tag of a skipped case.
pub open spec fn skipped_tag() -> Seq<char> {
    "<skipped "@
}

/// The tag of a case.
pub open spec fn case_tag() -> Seq<char> {
    "<testcase "@
}

proof fn lemma_case_texts_hold_no_tag(tag: Seq<char>)
    requires
        tag == failure_tag() || tag == skipped_tag() || tag == case_tag(),
    ensures
        tag.len() > 2,
        tag[0] == '<',
        tags::tags("\" name=\""@, tag) == 0 && tags::whole("\" name=\""@, tag),
        tags::tags("\""@, tag) == 0 && tags::whole("\""@, tag),
        tags::tags("\"/>\n    </testcase>\n"@, tag) == 0 && tags::whole("\"/>\n    </testcase>\n"@, tag),
        tags::tags("\" message=\""@, tag) == 0 && tags::whole("\" message=\""@, tag),
        tags::tags("\">"@, tag) == 0 && tags::whole("\">"@, tag),
        tags::tags("</failure>\n    </testcase>\n"@, tag) == 0 && tags::whole(
            "</failure>\n    </testcase>\n"@,
            tag,
        ),
        tags::tags(">\n      <system-out>"@, tag) == 0 && tags::whole(">\n      <system-out>"@, tag),
        tags::tags("</system-out>\n    </testcase>\n"@, tag) == 0 && tags::whole(
            "</system-out>\n    </testcase>\n"@,
            tag,
        ),
{
    reveal_strlit("<failure ");
    reveal_strlit("<skipped ");
    reveal_strlit("<testcase ");
    reveal_strlit("\" name=\"");
    reveal_strlit("\"");
    reveal_strlit("\"/>\n    </testcase>\n");
    reveal_strlit("\" message=\"");
    reveal_strlit("\">");
    reveal_strlit("</failure>\n    </testcase>\n");
    reveal_strlit(">\n      <system-out>");
    reveal_strlit("</system-out>\n    </testcase>\n");
    tags::lemma_other_tags("\" name=\""@, tag, 2);
    tags::lemma_other_tags("\""@, tag, 2);
    tags::lemma_other_tags("\"/>\n    </testcase>\n"@, tag, 2);
    tags::lemma_other_tags("\" message=\""@, tag, 2);
    tags::lemma_other_tags("\">"@, tag, 2);
    tags::lemma_other_tags("</failure>\n    </testcase>\n"@, tag, 2);
    tags::lemma_other_tags(">\n      <system-out>"@, tag, 2);
    tags::lemma_other_tags("</system-out>\n    </testcase>\n"@, tag, 2);
}

/// The parts that open an element hold its tag once and no other tag.
proof fn lemma_opening_texts(tag: Seq<char>)
    requires
        tag == failure_tag() || tag == skipped_tag() || tag == case_tag(),
    ensures
        tags::whole("    <testcase classname=\""@, tag),
        tags::whole(">\n      <skipped message=\""@, tag),
        tags::whole(">\n      <failure type=\""@, tag),
        tags::tags("    <testcase classname=\""@, tag) == (if tag == case_tag() {
            1nat
        } else {
            0nat
        }),
        tags::tags(">\n      <skipped message=\""@, tag) == (if tag == skipped_tag() {
            1nat
        } else {
            0nat
        }),
        tags::tags(">\n      <failure type=\""@, tag) == (if tag == failure_tag() {
            1nat
        } else {
            0nat
        }),
{
    reveal_strlit("<failure ");
    reveal_strlit("<skipped ");
    reveal_strlit("<testcase ");
    reveal_strlit("    <testcase classname=\"");
    reveal_strlit(">\n      <skipped message=\"");
    reveal_strlit(">\n      <failure type=\"");
    let case = "    <testcase classname=\""@;
    let skipped = ">\n      <skipped message=\""@;
    let failure = ">\n      <failure type=\""@;
    assert(case_tag()[2] == 'e' && skipped_tag()[2] == 'k' && failure_tag()[2] == 'a');
    if tag == case_tag() {
        assert(case.subrange(4, 4int + tag.len()) =~= tag);
        tags::lemma_one_tag(case, tag, 4);
    } else {
        tags::lemma_other_tags(case, tag, 2);
    }
    if tag == skipped_tag() {
        assert(skipped.subrange(8, 8int + tag.len()) =~= tag);
        tags::lemma_one_tag(skipped, tag, 8);
    } else {
        tags::lemma_other_tags(skipped, tag, 2);
    }
    if tag == failure_tag() {
        assert(failure.subrange(8, 8int + tag.len()) =~= tag);
        tags::lemma_one_tag(failure, tag, 8);
    } else {
        tags::lemma_other_tags(failure, tag, 2);
    }
}

/// The findings whose case holds a tag.
pub open spec fn cases_with(tag: Seq<char>, strict: bool) -> spec_fn(ReportedView) -> bool {
    |f: ReportedView|
        tag == case_tag() || tag == skipped_tag() && f.suppressed || tag == failure_tag()
            && junit::case_fails(f, strict)
}

proof fn lemma_tags_of_case(f: ReportedView, class: Seq<char>, strict: bool, tag: Seq<char>)
    requires
        tag == failure_tag() || tag == skipped_tag() || tag == case_tag(),
    ensures
        tags::whole(junit::test_case(f, class, strict), tag),
        tags::tags(junit::test_case(f, class, strict), tag) == (if cases_with(tag, strict)(f) {
            1nat
        } else {
            0nat
        }),
{
    broadcast use tags::lemma_tags_of_joined, tags::lemma_whole_joined;

    lemma_case_texts_hold_no_tag(tag);
    lemma_opening_texts(tag);
    reveal_strlit("<failure ");
    reveal_strlit("<skipped ");
    reveal_strlit("<testcase ");
    assert(case_tag()[2] == 'e' && skipped_tag()[2] == 'k' && failure_tag()[2] == 'a');
    lemma_no_tag_in_escaped(class, tag);
    lemma_no_tag_in_escaped(junit::case_name(f), tag);
    lemma_no_tag_in_escaped(
        parts::or_else(f.suppression_reason, "acknowledged by a suppression rule"@),
        tag,
    );
    lemma_no_tag_in_escaped(diff::severity_label(f.finding.severity), tag);
    lemma_no_tag_in_escaped(f.finding.message, tag);
    lemma_no_tag_in_escaped(junit::case_body(f), tag);
    let outcome = junit::case_outcome(f, strict);
    assert(tags::whole(outcome, tag));
}

proof fn lemma_tags_of_cases(
    list: Seq<ReportedView>,
    class: Seq<char>,
    strict: bool,
    tag: Seq<char>,
    n: int,
)
    requires
        tag == failure_tag() || tag == skipped_tag() || tag == case_tag(),
    ensures
        tags::whole(junit::test_cases(list, class, strict, n), tag),
        tags::tags(junit::test_cases(list, class, strict, n), tag) == safety::count(
            list,
            cases_with(tag, strict),
            n,
        ),
    decreases n,
{
    broadcast use tags::lemma_tags_of_joined, tags::lemma_whole_joined;

    lemma_case_texts_hold_no_tag(tag);
    if n > 0 {
        lemma_tags_of_cases(list, class, strict, tag, n - 1);
        lemma_tags_of_case(list[n - 1], class, strict, tag);
    } else {
        reveal_strlit("");
        tags::lemma_other_tags(""@, tag, 1);
    }
}

proof fn lemma_tags_of_groups(
    r: ReportView,
    order: Seq<int>,
    class: Seq<char>,
    tag: Seq<char>,
    n: int,
)
    requires
        tag == failure_tag() || tag == skipped_tag() || tag == case_tag(),
    ensures
        tags::whole(junit::group_cases(r, order, class, n), tag),
        tags::tags(junit::group_cases(r, order, class, n), tag) == junit::count_ordered(
            r.groups,
            order,
            cases_with(tag, r.strict),
            n,
        ),
    decreases n,
{
    broadcast use tags::lemma_tags_of_joined, tags::lemma_whole_joined;

    lemma_case_texts_hold_no_tag(tag);
    if n > 0 {
        let list = r.groups[order[n - 1]].findings;
        lemma_tags_of_groups(r, order, class, tag, n - 1);
        lemma_tags_of_cases(list, class, r.strict, tag, list.len() as int);
    } else {
        reveal_strlit("");
        tags::lemma_other_tags(""@, tag, 1);
    }
}

proof fn lemma_suite_texts_hold_no_tag(tag: Seq<char>)
    requires
        tag == failure_tag() || tag == skipped_tag() || tag == case_tag(),
    ensures
        tags::tags("  <testsuite name=\""@, tag) == 0 && tags::whole("  <testsuite name=\""@, tag),
        tags::tags("\" tests=\""@, tag) == 0 && tags::whole("\" tests=\""@, tag),
        tags::tags("\" failures=\""@, tag) == 0 && tags::whole("\" failures=\""@, tag),
        tags::tags("\" errors=\"0\" skipped=\""@, tag) == 0 && tags::whole(
            "\" errors=\"0\" skipped=\""@,
            tag,
        ),
        tags::tags("\">\n"@, tag) == 0 && tags::whole("\">\n"@, tag),
        tags::tags("  </testsuite>\n"@, tag) == 0 && tags::whole("  </testsuite>\n"@, tag),
        tags::tags("    <system-out>"@, tag) == 0 && tags::whole("    <system-out>"@, tag),
        tags::tags("</system-out>\n"@, tag) == 0 && tags::whole("</system-out>\n"@, tag),
        tags::tags("\" name=\"no breaking changes detected\"/>\n"@, tag) == 0 && tags::whole(
            "\" name=\"no breaking changes detected\"/>\n"@,
            tag,
        ),
        tags::tags(""@, tag) == 0 && tags::whole(""@, tag),
{
    reveal_strlit("<failure ");
    reveal_strlit("<skipped ");
    reveal_strlit("<testcase ");
    reveal_strlit("  <testsuite name=\"");
    reveal_strlit("\" tests=\"");
    reveal_strlit("\" failures=\"");
    reveal_strlit("\" errors=\"0\" skipped=\"");
    reveal_strlit("\">\n");
    reveal_strlit("  </testsuite>\n");
    reveal_strlit("    <system-out>");
    reveal_strlit("</system-out>\n");
    reveal_strlit("\" name=\"no breaking changes detected\"/>\n");
    reveal_strlit("");
    tags::lemma_other_tags("  <testsuite name=\""@, tag, 5);
    tags::lemma_other_tags("\" tests=\""@, tag, 2);
    tags::lemma_other_tags("\" failures=\""@, tag, 2);
    tags::lemma_other_tags("\" errors=\"0\" skipped=\""@, tag, 2);
    tags::lemma_other_tags("\">\n"@, tag, 2);
    tags::lemma_other_tags("  </testsuite>\n"@, tag, 2);
    tags::lemma_other_tags("    <system-out>"@, tag, 2);
    tags::lemma_other_tags("</system-out>\n"@, tag, 2);
    tags::lemma_other_tags("\" name=\"no breaking changes detected\"/>\n"@, tag, 2);
    tags::lemma_other_tags(""@, tag, 2);
}

proof fn lemma_tags_of_suite(r: ReportView, name: Option<&str>, tag: Seq<char>)
    requires
        tag == failure_tag() || tag == skipped_tag() || tag == case_tag(),
    ensures
        tags::tags(junit::summary_junit(r, name), tag) == safety::count_in(
            r.groups,
            cases_with(tag, r.strict),
        ) + (if findings::total_findings(r.groups) == 0 && tag == case_tag() {
            1nat
        } else {
            0nat
        }),
{
    broadcast use tags::lemma_tags_of_joined, tags::lemma_whole_joined;

    lemma_case_texts_hold_no_tag(tag);
    lemma_opening_texts(tag);
    lemma_suite_texts_hold_no_tag(tag);
    let class = junit::suite_class(name);
    lemma_no_tag_in_escaped(class, tag);
    lemma_no_tag_in_escaped(junit::suite_title(name), tag);
    let tests = junit::suite_tests(r);
    let failures = safety::count_in(r.groups, junit::failing_cases(r.strict));
    let skipped = safety::count_in(r.groups, safety::acknowledged());
    tags::lemma_no_tag_in_number(tests, tag);
    tags::lemma_no_tag_in_number(failures, tag);
    tags::lemma_no_tag_in_number(skipped, tag);
    match status::verdict_notice(r) {
        Some(t) => {
            lemma_no_tag_in_escaped(t, tag);
        },
        None => {},
    }
    let order = findings::name_order(r.groups);
    let keys = r.groups.map_values(|g: GroupView| findings::name_key(g));
    order::sorting_is_a_stable_permutation(keys);
    junit::lemma_count_in_any_order(r.groups, order, cases_with(tag, r.strict));
    lemma_tags_of_groups(r, order, class, tag, r.groups.len() as int);
    let notice = junit::suite_notice(r);
    assert(tags::whole(notice, tag) && tags::tags(notice, tag) == 0);
    let none = junit::empty_case(class);
    assert(tags::whole(none, tag) && tags::tags(none, tag) == (if tag == case_tag() {
        1nat
    } else {
        0nat
    }));
    let cases = junit::suite_cases(r, class);
    assert(tags::whole(cases, tag));
    assert(tags::tags(cases, tag) == safety::count_in(r.groups, cases_with(tag, r.strict)) + (
    if findings::total_findings(r.groups) == 0 && tag == case_tag() {
        1nat
    } else {
        0nat
    }));
    let head = "  <testsuite name=\""@ + escape::xml_text(junit::suite_title(name))
        + "\" tests=\""@ + text::decimal(tests) + "\" failures=\""@ + text::decimal(failures)
        + "\" errors=\"0\" skipped=\""@ + text::decimal(skipped) + "\">\n"@;
    assert(tags::whole(head, tag) && tags::tags(head, tag) == 0);
    assert(junit::summary_junit(r, name) == head + cases + notice + "  </testsuite>\n"@);
    assert(tags::whole(head + cases, tag) && tags::whole(head + cases + notice, tag));
}

/// The numbers that a suite declares are those of its elements: it holds as many
/// cases, failures and skipped cases as it says.
pub proof fn a_suite_holds_what_it_declares(r: ReportView, name: Option<&str>)
    ensures
        tags::tags(junit::summary_junit(r, name), case_tag()) == junit::suite_tests(r),
        tags::tags(junit::summary_junit(r, name), failure_tag()) == safety::count_in(
            r.groups,
            junit::failing_cases(r.strict),
        ),
        tags::tags(junit::summary_junit(r, name), skipped_tag()) == safety::count_in(
            r.groups,
            safety::acknowledged(),
        ),
{
    reveal_strlit("<failure ");
    reveal_strlit("<skipped ");
    reveal_strlit("<testcase ");
    assert(case_tag()[2] == 'e' && skipped_tag()[2] == 'k' && failure_tag()[2] == 'a');
    lemma_tags_of_suite(r, name, case_tag());
    lemma_tags_of_suite(r, name, failure_tag());
    lemma_tags_of_suite(r, name, skipped_tag());
    assert(cases_with(case_tag(), r.strict) =~= junit::any_finding());
    assert(cases_with(failure_tag(), r.strict) =~= junit::failing_cases(r.strict));
    assert(cases_with(skipped_tag(), r.strict) =~= safety::acknowledged());
    junit::lemma_count_any_groups(r.groups, r.groups.len() as int);
}

} // verus!
