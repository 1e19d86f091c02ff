//! The reports on competence-area items.

use vstd::prelude::*;
use vstd::string::StringExecFns;
use core::cmp::Ordering;
use crate::checkers::ca::caitem::Activity;
use crate::checkers::ca::caitem::CAItem;
use crate::checkers::ca::pipeline::PipelineInfo;
use crate::checkers::ca::pipeline::cells;
use crate::checkers::ca::pipeline::row_head;
use crate::checkers::ca::timeline::get_system_split;
use crate::checkers::ca::timeline::system_split;
use crate::checkers::fs2::fs2checker::wrapping_sum;
use crate::checkers::groups::entries_view;
use crate::checkers::groups::group_runs;
use crate::checkers::groups::grouped;
use crate::checkers::groups::groups_view;
use crate::checkers::order::ordering_of;
use crate::checkers::order::to_ordering;
use crate::checkers::sys::sysitem::SysItem;
use crate::checkers::sys::sysitem::fid_of;
use crate::checkers::sys::sysitem::is_oam_area;
use crate::checkers::utils::get_leftmost;
use crate::checkers::utils::leftmost;
use crate::text::chars_of;
use crate::text::contains;
use crate::text::contains_text;
use crate::text::decimal;
use crate::text::decimal_int;
use crate::text::joined;
use crate::text::lex;
use crate::text::lex_sign;
use crate::text::numeral;
use crate::text::padded;
use crate::text::padded_left;
use crate::text::push_decimal;
use crate::text::push_padded;
use crate::text::push_padded_left;
use crate::text::same_text;

verus! {

/// The line that sets the parts of a report apart.
pub const BANNER: &'static str =
    "================================================================================================\n";

/// Where `right` stands relative to the features that begin with `prefix`:
/// among them if it holds `prefix`, else before or behind them, as the two
/// texts are ordered.
pub open spec fn prefix_order(prefix: Seq<char>, right: Seq<char>) -> int {
    if contains_text(right, prefix) {
        0
    } else {
        lex(prefix, right)
    }
}

fn prefix_sign(prefix: &str, right: &str) -> (s: i8)
    ensures
        s == prefix_order(prefix@, right@),
{
    let wanted = chars_of(prefix);
    let text = chars_of(right);
    if contains(&text, &wanted) {
        0
    } else {
        lex_sign(&wanted, &text)
    }
}

/// Compares a feature with an identifier, taking every identifier that holds
/// the feature's name for equal to it.
pub fn cmp_with_prefix_as_equal(prefix: &str, right: &str) -> (o: Ordering)
    ensures
        o == ordering_of(prefix_order(prefix@, right@)),
{
    to_ordering(prefix_sign(prefix, right))
}

/// The first feature build of the pipeline chart.
pub const PIPELINE_FIRST_FB: u32 = 1801;

/// The number of columns of the pipeline chart.
pub const PIPELINE_SPAN: u32 = 20;

/// The release of the feature `fid`: that of the last of the first `n`
/// features that bears this identifier, and nothing where none does.
pub open spec fn release_of(sys_items: Seq<SysItem>, fid: Seq<char>, n: int) -> Seq<char>
    decreases n,
{
    if n <= 0 {
        Seq::empty()
    } else if fid_of(sys_items[n - 1].summary@) == fid {
        sys_items[n - 1].release@
    } else {
        release_of(sys_items, fid, n - 1)
    }
}

/// The line of one item in the list of details.
pub open spec fn detail_line(it: CAItem, release: Seq<char>) -> Seq<char> {
    padded(it.feature_id@, 9) + "|"@ + padded(leftmost(it.sub_id@, 15), 15) + "|"@ + padded(
        it.target@,
        4,
    ) + "|"@ + padded(leftmost(release, 12), 12) + "|"@ + padded(it.key@, 10) + "|"@ + padded(
        it.activity.spec_name(),
        3,
    ) + "|"@ + padded(leftmost(it.team@, 8), 8) + "|"@ + padded_left(decimal(it.start_fb as nat), 4)
        + "|"@ + padded_left(decimal(it.end_fb as nat), 4) + "|"@ + padded_left(
        decimal_int(it.efforts as int),
        4,
    ) + "|"@ + padded(leftmost(it.description@, 60), 60) + "\n"@
}

/// The lines of the first `n` items.
pub open spec fn detail_lines(items: Seq<CAItem>, sys_items: Seq<SysItem>, n: int) -> Seq<char>
    decreases n,
{
    if n <= 0 {
        Seq::empty()
    } else {
        detail_lines(items, sys_items, n - 1) + detail_line(
            items[n - 1],
            release_of(sys_items, items[n - 1].feature_id@, sys_items.len() as int),
        )
    }
}

/// The efforts of the first `n` items, those without an estimate left out,
/// added up in 32 bits.
pub open spec fn total_efforts(items: Seq<CAItem>, n: int) -> i32
    decreases n,
{
    if n <= 0 {
        0
    } else if items[n - 1].efforts > 0 {
        wrapping_sum(total_efforts(items, n - 1), items[n - 1].efforts)
    } else {
        total_efforts(items, n - 1)
    }
}

/// The number of items without an estimate among the first `n`.
pub open spec fn unestimated(items: Seq<CAItem>, n: int) -> nat
    decreases n,
{
    if n <= 0 {
        0
    } else if items[n - 1].efforts == -1 {
        unestimated(items, n - 1) + 1
    } else {
        unestimated(items, n - 1)
    }
}

/// The list of details: the number of items, a line for each between two
/// banners, and the efforts in total, with the share of the items without an
/// estimate as `share` words it.
pub open spec fn details_report(
    items: Seq<CAItem>,
    sys_items: Seq<SysItem>,
    share: Seq<char>,
) -> Seq<char> {
    let n = items.len() as int;
    "@@ CA analysis: "@ + decimal(items.len()) + " issues in total\n"@ + BANNER@ + detail_lines(
        items,
        sys_items,
        n,
    ) + BANNER@ + "Total efforts:"@ + decimal_int(total_efforts(items, n) as int)
        + ", unestimated: "@ + decimal(unestimated(items, n)) + "/"@ + decimal(items.len()) + "["@
        + share + "%]"@
}

/// The pipeline chart of the first `n` items: a row for each.
pub open spec fn pipeline_rows(items: Seq<CAItem>, n: int) -> Seq<char>
    decreases n,
{
    if n <= 0 {
        Seq::empty()
    } else {
        let it = items[n - 1];
        pipeline_rows(items, n - 1) + row_head(it.sub_id@, it.description@, it.activity, it.team@)
            + joined(cells(it.start_fb, it.end_fb, PIPELINE_FIRST_FB, PIPELINE_SPAN), "|"@) + "\n"@
    }
}

/// The release of the feature `fid`.
pub fn release_for<'a>(sys_items: &'a Vec<SysItem>, fid: &str) -> (release: &'a str)
    ensures
        release@ == release_of(sys_items@, fid@, sys_items.len() as int),
{
    proof {
        reveal_strlit("");
    }
    let mut n: usize = sys_items.len();
    while n > 0
        invariant
            n <= sys_items.len(),
            release_of(sys_items@, fid@, sys_items.len() as int) == release_of(
                sys_items@,
                fid@,
                n as int,
            ),
            ""@ == Seq::<char>::empty(),
        decreases n,
    {
        if same_text(sys_items[n - 1].get_fid(), fid) {
            return sys_items[n - 1].release.as_str();
        }
        n = n - 1;
    }
    ""
}

/// The number of items without an estimate.
pub fn count_unestimated(items: &Vec<CAItem>) -> (open: usize)
    ensures
        open == unestimated(items@, items.len() as int),
{
    let mut open: usize = 0;
    let mut i: usize = 0;
    while i < items.len()
        invariant
            i <= items.len(),
            open == unestimated(items@, i as int),
            open <= i,
        decreases items.len() - i,
    {
        if items[i].efforts == -1 {
            open = open + 1;
        }
        i = i + 1;
    }
    open
}

fn push_column(out: &mut String, value: &str, width: usize)
    ensures
        final(out)@ == old(out)@ + padded(leftmost(value@, width as int), width as nat),
{
    push_padded(out, &chars_of(get_leftmost(value, width)), width);
}

fn push_detail_line(out: &mut String, it: &CAItem, release: &str)
    ensures
        final(out)@ == old(out)@ + detail_line(*it, release@),
{
    let mut line = String::new();
    push_padded(&mut line, &chars_of(it.feature_id.as_str()), 9);
    line.append("|");
    push_column(&mut line, it.sub_id.as_str(), 15);
    line.append("|");
    push_padded(&mut line, &chars_of(it.target.as_str()), 4);
    line.append("|");
    push_column(&mut line, release, 12);
    line.append("|");
    let ghost first = line@;
    proof {
        assert(first =~= padded(it.feature_id@, 9) + "|"@ + padded(leftmost(it.sub_id@, 15), 15)
            + "|"@ + padded(it.target@, 4) + "|"@ + padded(leftmost(release@, 12), 12) + "|"@);
    }
    push_padded(&mut line, &chars_of(it.key.as_str()), 10);
    line.append("|");
    push_padded(&mut line, &chars_of(it.activity.name()), 3);
    line.append("|");
    push_column(&mut line, it.team.as_str(), 8);
    line.append("|");
    let ghost second = line@;
    proof {
        assert(second =~= first + padded(it.key@, 10) + "|"@ + padded(it.activity.spec_name(), 3)
            + "|"@ + padded(leftmost(it.team@, 8), 8) + "|"@);
    }
    push_padded_left(&mut line, &numeral(it.start_fb as i64), 4);
    line.append("|");
    push_padded_left(&mut line, &numeral(it.end_fb as i64), 4);
    line.append("|");
    push_padded_left(&mut line, &numeral(it.efforts as i64), 4);
    line.append("|");
    push_column(&mut line, it.description.as_str(), 60);
    line.append("\n");
    proof {
        assert(line@ =~= second + padded_left(decimal(it.start_fb as nat), 4) + "|"@ + padded_left(
            decimal(it.end_fb as nat),
            4,
        ) + "|"@ + padded_left(decimal_int(it.efforts as int), 4) + "|"@ + padded(
            leftmost(it.description@, 60),
            60,
        ) + "\n"@);
        assert(line@ =~= detail_line(*it, release@));
    }
    out.append(line.as_str());
}

/// Writes the list of details.  `share` is the share of the items without an
/// estimate among all items, in per cent, in words.
pub fn dump_all(items: &Vec<CAItem>, sys_items: &Vec<SysItem>, share: &str) -> (report: String)
    ensures
        report@ == details_report(items@, sys_items@, share@),
{
    let total = items.len();
    let mut lines = String::new();
    let mut efforts: i32 = 0;
    let mut open: usize = 0;
    let mut i: usize = 0;
    while i < total
        invariant
            i <= total,
            total == items.len(),
            lines@ == detail_lines(items@, sys_items@, i as int),
            efforts == total_efforts(items@, i as int),
            open == unestimated(items@, i as int),
            open <= i,
        decreases total - i,
    {
        let it = &items[i];
        push_detail_line(&mut lines, it, release_for(sys_items, it.feature_id.as_str()));
        if it.efforts > 0 {
            efforts = efforts.wrapping_add(it.efforts);
        }
        if it.efforts == -1 {
            open = open + 1;
        }
        i = i + 1;
    }
    let mut report = String::new();
    report.append("@@ CA analysis: ");
    push_decimal(&mut report, total as u64);
    report.append(" issues in total\n");
    report.append(BANNER);
    report.append(lines.as_str());
    report.append(BANNER);
    report.append("Total efforts:");
    let sum = numeral(efforts as i64);
    push_padded(&mut report, &sum, 0);
    report.append(", unestimated: ");
    push_decimal(&mut report, open as u64);
    report.append("/");
    push_decimal(&mut report, total as u64);
    report.append("[");
    report.append(share);
    report.append("%]");
    proof {
        assert(padded(sum@, 0) == sum@);
        assert(report@ =~= details_report(items@, sys_items@, share@));
    }
    report
}

/// Writes the pipeline chart of `items`.
pub fn generate_pipeline(items: &Vec<CAItem>) -> (chart: String)
    ensures
        chart@ == pipeline_rows(items@, items.len() as int),
{
    let mut chart = String::new();
    let mut i: usize = 0;
    while i < items.len()
        invariant
            i <= items.len(),
            chart@ == pipeline_rows(items@, i as int),
        decreases items.len() - i,
    {
        let row = PipelineInfo::from_item(&items[i]).generate_schedule_row(
            PIPELINE_FIRST_FB,
            PIPELINE_SPAN,
        );
        chart.append(row.as_str());
        chart.append("\n");
        proof {
            assert(chart@ =~= pipeline_rows(items@, i + 1));
        }
        i = i + 1;
    }
    chart
}

/// The identifiers of the features of operation and maintenance among the
/// first `n` features.
pub open spec fn oam_features(sys_items: Seq<SysItem>, n: int) -> Seq<Seq<char>>
    decreases n,
{
    if n <= 0 {
        Seq::empty()
    } else if is_oam_area(sys_items[n - 1].area@) {
        oam_features(sys_items, n - 1).push(fid_of(sys_items[n - 1].summary@))
    } else {
        oam_features(sys_items, n - 1)
    }
}

/// The names as texts.
pub open spec fn texts(names: Seq<String>) -> Seq<Seq<char>> {
    names.map_values(|name: String| name@)
}

/// Whether `names` rise: none of them comes behind a later one.
pub open spec fn is_rising(names: Seq<Seq<char>>) -> bool {
    forall|i: int, j: int| 0 <= i < j < names.len() ==> lex(names[i], names[j]) <= 0
}

/// Whether an item with a plan for testing is among `activities`.
pub open spec fn any_testing(activities: Seq<bool>) -> bool {
    exists|i: int| 0 <= i < activities.len() && activities[i]
}

/// The lines on the first `n` features: whether testing is planned for
/// each.
pub open spec fn plan_lines(groups: Seq<(Seq<char>, Seq<bool>)>, n: int) -> Seq<char>
    decreases n,
{
    if n <= 0 {
        Seq::empty()
    } else {
        plan_lines(groups, n - 1) + "Fid = "@ + groups[n - 1].0 + ", ET status ="@ + (if any_testing(
            groups[n - 1].1,
        ) {
            "planned"@
        } else {
            "not planned!"@
        }) + "\n"@
    }
}

/// The number of features among the first `n` for which testing is planned.
pub open spec fn planned_count(groups: Seq<(Seq<char>, Seq<bool>)>, n: int) -> nat
    decreases n,
{
    if n <= 0 {
        0
    } else if any_testing(groups[n - 1].1) {
        planned_count(groups, n - 1) + 1
    } else {
        planned_count(groups, n - 1)
    }
}

/// The report on the plan: the number of candidate features, then a line
/// for each feature that has items, then the number of features with and
/// without a plan for testing.
pub open spec fn plan_report(candidates: nat, entries: Seq<(Seq<char>, bool)>) -> Seq<char> {
    let groups = grouped(entries);
    let n = groups.len() as int;
    "Total "@ + decimal(candidates) + " OM system level features candidate\n"@ + BANNER@
        + plan_lines(groups, n) + "ET unplanned = "@ + decimal(planned_count(groups, n))
        + ", planned ="@ + decimal((n - planned_count(groups, n)) as nat) + "\n"@ + BANNER@
}

/// The entries of the plan among the first `n` items: for each picked item
/// its feature at system level, and whether the item plans testing.
pub open spec fn plan_entries(items: Seq<CAItem>, picked: Seq<bool>, n: int) -> Seq<
    (Seq<char>, bool),
>
    decreases n,
{
    if n <= 0 {
        Seq::empty()
    } else if picked[n - 1] {
        plan_entries(items, picked, n - 1).push(
            (system_split(items[n - 1].sub_id@), items[n - 1].activity == Activity::ET),
        )
    } else {
        plan_entries(items, picked, n - 1)
    }
}

/// `sort` of the standard library on a list of strings: the same strings,
/// rising.
#[verifier::external_body]
fn sort_texts(names: &mut Vec<String>)
    ensures
        texts(final(names)@).to_multiset() == texts(old(names)@).to_multiset(),
        is_rising(texts(final(names)@)),
{
    names.sort();
}

/// `binary_search_by` of the standard library, with
/// [`cmp_with_prefix_as_equal`] to compare each feature with `sub_id`: tells
/// whether the search hands back a feature.  The features are in the order
/// of their names, which is not the order that this comparison asks for, so
/// nothing is known of the answer.
#[verifier::external_body]
fn find_feature(features: &Vec<String>, sub_id: &str) -> (found: bool) {
    features.binary_search_by(|fid| cmp_with_prefix_as_equal(fid, sub_id)).is_ok()
}

fn any_true(flags: &Vec<bool>) -> (any: bool)
    ensures
        any == any_testing(flags@),
{
    let mut i: usize = 0;
    while i < flags.len()
        invariant
            i <= flags.len(),
            forall|k: int| 0 <= k < i ==> !flags@[k],
        decreases flags.len() - i,
    {
        if flags[i] {
            return true;
        }
        i = i + 1;
    }
    false
}

/// Writes the report on the plan from its entries, `candidates` being the
/// number of features looked for.
pub fn report_plan(candidates: usize, entries: &Vec<(String, bool)>) -> (report: String)
    ensures
        report@ == plan_report(candidates as nat, entries_view(entries@)),
{
    let groups = group_runs(entries);
    let ghost runs = grouped(entries_view(entries@));
    proof {
        assert(groups_view(groups@).len() == groups.len());
    }
    let mut lines = String::new();
    let mut planned: usize = 0;
    let mut k: usize = 0;
    while k < groups.len()
        invariant
            k <= groups.len(),
            groups.len() == runs.len(),
            groups_view(groups@) == runs,
            planned == planned_count(runs, k as int),
            planned <= k,
            lines@ == plan_lines(runs, k as int),
        decreases groups.len() - k,
    {
        proof {
            assert(groups_view(groups@)[k as int] == (groups[k as int].0@, groups[k as int].1@));
        }
        lines.append("Fid = ");
        lines.append(groups[k].0.as_str());
        lines.append(", ET status =");
        if any_true(&groups[k].1) {
            planned = planned + 1;
            lines.append("planned");
        } else {
            lines.append("not planned!");
        }
        lines.append("\n");
        proof {
            assert(lines@ =~= plan_lines(runs, k + 1));
        }
        k = k + 1;
    }
    let mut report = String::new();
    report.append("Total ");
    push_decimal(&mut report, candidates as u64);
    report.append(" OM system level features candidate\n");
    report.append(BANNER);
    report.append(lines.as_str());
    report.append("ET unplanned = ");
    push_decimal(&mut report, planned as u64);
    report.append(", planned =");
    push_decimal(&mut report, (groups.len() - planned) as u64);
    report.append("\n");
    report.append(BANNER);
    proof {
        assert(report@ =~= plan_report(candidates as nat, entries_view(entries@)));
    }
    report
}

/// Writes the report on the plan of the features of operation and
/// maintenance.
///
/// An item is in the plan if the search for its sub-feature among those
/// features, sorted by name, finds one; `picked` below marks these items.
/// Which items the search finds is not known here: whichever they are, the
/// report is that on the picked items, and it is written by [`report_plan`].
pub fn analyze_plan(items: &Vec<CAItem>, sys_items: &Vec<SysItem>) -> (report: String)
    ensures
        exists|picked: Seq<bool>|
            {
                &&& picked.len() == items.len()
                &&& report@ == plan_report(
                    oam_features(sys_items@, sys_items.len() as int).len(),
                    plan_entries(items@, picked, items.len() as int),
                )
            },
{
    let mut om_features: Vec<String> = Vec::new();
    let mut j: usize = 0;
    while j < sys_items.len()
        invariant
            j <= sys_items.len(),
            texts(om_features@) == oam_features(sys_items@, j as int),
        decreases sys_items.len() - j,
    {
        let ghost before = texts(om_features@);
        if sys_items[j].is_oam_feature() {
            om_features.push(String::from_str(sys_items[j].get_fid()));
            proof {
                assert(texts(om_features@) =~= before.push(fid_of(sys_items[j as int].summary@)));
            }
        }
        j = j + 1;
    }
    let ghost wanted = oam_features(sys_items@, sys_items.len() as int);
    sort_texts(&mut om_features);
    proof {
        wanted.to_multiset_ensures();
        texts(om_features@).to_multiset_ensures();
    }
    let mut entries: Vec<(String, bool)> = Vec::new();
    let ghost mut picked: Seq<bool> = Seq::empty();
    let mut i: usize = 0;
    while i < items.len()
        invariant
            i <= items.len(),
            picked.len() == i,
            entries_view(entries@) == plan_entries(items@, picked, i as int),
        decreases items.len() - i,
    {
        let it = &items[i];
        let ghost before = entries_view(entries@);
        let ghost earlier = picked;
        let found = find_feature(&om_features, it.sub_id.as_str());
        proof {
            picked = picked.push(found);
            lemma_plan_entries_prefix(items@, earlier, picked, i as int);
        }
        if found {
            let fid = String::from_str(get_system_split(it.sub_id.as_str()));
            let testing = match it.activity {
                Activity::ET => true,
                _ => false,
            };
            entries.push((fid, testing));
            proof {
                assert(entries_view(entries@) =~= before.push(
                    (system_split(it.sub_id@), it.activity == Activity::ET),
                ));
            }
        }
        i = i + 1;
    }
    report_plan(om_features.len(), &entries)
}

/// The entries of the plan among the first `n` items depend on the marks of
/// these items alone.
proof fn lemma_plan_entries_prefix(items: Seq<CAItem>, a: Seq<bool>, b: Seq<bool>, n: int)
    requires
        0 <= n <= a.len(),
        n <= b.len(),
        forall|k: int| 0 <= k < n ==> a[k] == b[k],
    ensures
        plan_entries(items, a, n) == plan_entries(items, b, n),
    decreases n,
{
    if n > 0 {
        lemma_plan_entries_prefix(items, a, b, n - 1);
    }
}

} // verus!
