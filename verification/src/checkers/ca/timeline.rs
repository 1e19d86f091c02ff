//! How long the work on a feature takes: from the first build in which one of
//! its items starts to the last build in which one ends.

use vstd::prelude::*;
use vstd::string::StrSliceExecFns;
use vstd::string::StringExecFns;
use itertools::Itertools;
use itertools::MinMaxResult;
use crate::checkers::ca::caitem::Activity;
use crate::checkers::ca::caitem::CAItem;
use crate::checkers::ca::pipeline::lead_time;
use crate::checkers::ca::pipeline::lead_time_of;
use crate::checkers::groups::entries_view;
use crate::checkers::groups::group_runs;
use crate::checkers::groups::grouped;
use crate::checkers::groups::groups_view;
use crate::checkers::groups::lemma_groups_not_empty;
use crate::checkers::order::greater_first;
use crate::checkers::order::reverse_order;
use crate::text::chars_of;
use crate::text::decimal;
use crate::text::lemma_rfind_bound;
use crate::text::padded;
use crate::text::push_decimal;
use crate::text::push_padded;
use crate::text::rfind;
use crate::text::rfind_text;
use crate::text::slice_of;

verus! {

/// The builds between which the items of a feature start, those between
/// which they end, and the lead time from the first start to the last end.
pub struct TimeLineInfo {
    pub start_first: u32,
    pub start_last: u32,
    pub end_first: u32,
    pub end_last: u32,
    pub lead_time: u32,
}

/// The least and the greatest of some numbers.
pub enum Extremes {
    NoElements,
    OneElement(u32),
    MinMax(u32, u32),
}

/// Whether `x` is one of `values` and none of them is smaller.
pub open spec fn is_least(values: Seq<u32>, x: u32) -> bool {
    &&& values.contains(x)
    &&& forall|i: int| 0 <= i < values.len() ==> x <= values[i]
}

/// Whether `x` is one of `values` and none of them is greater.
pub open spec fn is_greatest(values: Seq<u32>, x: u32) -> bool {
    &&& values.contains(x)
    &&& forall|i: int| 0 <= i < values.len() ==> values[i] <= x
}

/// `Itertools::minmax` over numbers: nothing for no element, the element for
/// one, and for more the least and the greatest of them.
#[verifier::external_body]
fn minmax_of(values: &Vec<u32>) -> (r: Extremes)
    ensures
        match r {
            Extremes::NoElements => values.len() == 0,
            Extremes::OneElement(x) => values.len() == 1 && values[0] == x,
            Extremes::MinMax(lo, hi) => values.len() >= 2 && is_least(values@, lo) && is_greatest(
                values@,
                hi,
            ),
        },
{
    match values.iter().minmax() {
        MinMaxResult::NoElements => Extremes::NoElements,
        MinMaxResult::OneElement(x) => Extremes::OneElement(*x),
        MinMaxResult::MinMax(lo, hi) => Extremes::MinMax(*lo, *hi),
    }
}

fn range_of(values: &Vec<u32>) -> (r: (u32, u32))
    requires
        values.len() > 0,
    ensures
        is_least(values@, r.0),
        is_greatest(values@, r.1),
{
    match minmax_of(values) {
        Extremes::MinMax(first, last) => (first, last),
        Extremes::OneElement(x) => {
            proof {
                assert(values@[0] == x);
            }
            (x, x)
        },
        Extremes::NoElements => {
            // Cannot be: there is a value.
            assert(values.len() == 0 && values.len() > 0);
            (0, 0)
        },
    }
}

impl TimeLineInfo {
    /// The time line of a feature whose items start from `sf` to `sl` and
    /// end from `ef` to `el`.
    pub fn new(sf: u32, sl: u32, ef: u32, el: u32) -> (info: TimeLineInfo)
        ensures
            info.start_first == sf,
            info.start_last == sl,
            info.end_first == ef,
            info.end_last == el,
            info.lead_time == lead_time_of(sf, el),
    {
        TimeLineInfo {
            start_first: sf,
            start_last: sl,
            end_first: ef,
            end_last: el,
            lead_time: TimeLineInfo::get_lead_time(sf, el),
        }
    }

    /// The number of feature builds from the first start to the last end.
    pub fn get_lead_time(start_first: u32, end_last: u32) -> (lead: u32)
        ensures
            lead == lead_time_of(start_first, end_last),
    {
        lead_time(start_first, end_last)
    }
}

/// The builds in which the items of a feature start.
pub open spec fn starts(times: Seq<(u32, u32)>) -> Seq<u32> {
    times.map_values(|it: (u32, u32)| it.0)
}

/// The builds in which the items of a feature end.
pub open spec fn ends(times: Seq<(u32, u32)>) -> Seq<u32> {
    times.map_values(|it: (u32, u32)| it.1)
}

/// The time line of a feature whose items start and end as `times` tells.
pub fn calculate_timeline(times: &Vec<(u32, u32)>) -> (info: TimeLineInfo)
    requires
        times.len() > 0,
    ensures
        is_least(starts(times@), info.start_first),
        is_greatest(starts(times@), info.start_last),
        is_least(ends(times@), info.end_first),
        is_greatest(ends(times@), info.end_last),
        info.lead_time == lead_time_of(info.start_first, info.end_last),
{
    let mut from: Vec<u32> = Vec::new();
    let mut to: Vec<u32> = Vec::new();
    let mut i: usize = 0;
    while i < times.len()
        invariant
            i <= times.len(),
            from@ == starts(times@).subrange(0, i as int),
            to@ == ends(times@).subrange(0, i as int),
        decreases times.len() - i,
    {
        from.push(times[i].0);
        to.push(times[i].1);
        proof {
            assert(from@ =~= starts(times@).subrange(0, i + 1));
            assert(to@ =~= ends(times@).subrange(0, i + 1));
        }
        i = i + 1;
    }
    proof {
        assert(starts(times@).subrange(0, times.len() as int) =~= starts(times@));
        assert(ends(times@).subrange(0, times.len() as int) =~= ends(times@));
    }
    let (start_first, start_last) = range_of(&from);
    let (end_first, end_last) = range_of(&to);
    TimeLineInfo::new(start_first, start_last, end_first, end_last)
}

/// The feature at system level that a sub-feature belongs to: the identifier
/// up to its last dash, where it has more than one.
pub open spec fn system_split(sub_id: Seq<char>) -> Seq<char> {
    match rfind(sub_id, "-"@) {
        None => sub_id,
        Some(last) => match rfind(sub_id.subrange(0, last), "-"@) {
            None => sub_id,
            Some(_) => sub_id.subrange(0, last),
        },
    }
}

/// The feature at system level that a sub-feature belongs to.
pub fn get_system_split<'a>(sub_id: &'a str) -> (split: &'a str)
    ensures
        split@ == system_split(sub_id@),
{
    let all = chars_of(sub_id);
    let dash = chars_of("-");
    match rfind_text(&all, &dash) {
        None => sub_id,
        Some(last) => {
            proof {
                lemma_rfind_bound(all@, dash@);
            }
            let head = slice_of(&all, 0, last);
            match rfind_text(&head, &dash) {
                None => sub_id,
                Some(_) => sub_id.substring_char(0, last),
            }
        },
    }
}

/// Which items count for a time line.
#[derive(Clone, Copy, Debug, PartialEq, Eq, Structural)]
pub enum Scope {
    /// From specification to testing: every recognised activity.
    EfsEi,
    /// From specification to software: every recognised activity but testing.
    EfsSw,
}

impl Scope {
    /// Whether items of this activity count.
    pub open spec fn covers(self, activity: Activity) -> bool {
        match self {
            Scope::EfsEi => activity != Activity::NA,
            Scope::EfsSw => activity != Activity::NA && activity != Activity::ET,
        }
    }

    /// Whether items of this activity count.
    pub fn includes(&self, activity: &Activity) -> (covered: bool)
        ensures
            covered == self.covers(*activity),
    {
        match self {
            Scope::EfsEi => match activity {
                Activity::NA => false,
                _ => true,
            },
            Scope::EfsSw => match activity {
                Activity::NA => false,
                Activity::ET => false,
                _ => true,
            },
        }
    }
}

/// Whether an item has a plan and counts: it starts and ends in a feature
/// build below 3000, and its activity is in scope.
pub open spec fn is_planned(it: CAItem, scope: Scope) -> bool {
    it.start_fb < 3000 && it.end_fb < 3000 && scope.covers(it.activity)
}

/// The planned ones among the first `n` items, each as its feature at system
/// level with the builds it starts and ends in.
pub open spec fn planned_entries(items: Seq<CAItem>, scope: Scope, n: int) -> Seq<
    (Seq<char>, (u32, u32)),
>
    decreases n,
{
    if n <= 0 {
        Seq::empty()
    } else if is_planned(items[n - 1], scope) {
        planned_entries(items, scope, n - 1).push(
            (system_split(items[n - 1].sub_id@), (items[n - 1].start_fb, items[n - 1].end_fb)),
        )
    } else {
        planned_entries(items, scope, n - 1)
    }
}

/// The time line of one feature.
pub struct FeatureTimeLine {
    pub fid: String,
    pub info: TimeLineInfo,
    /// The number of items the time line is drawn from.
    pub entries: usize,
}

/// Whether `line` is the time line of the feature `group`.
pub open spec fn is_timeline_of(line: FeatureTimeLine, group: (Seq<char>, Seq<(u32, u32)>)) -> bool {
    &&& line.fid@ == group.0
    &&& line.entries == group.1.len()
    &&& is_least(starts(group.1), line.info.start_first)
    &&& is_greatest(starts(group.1), line.info.start_last)
    &&& is_least(ends(group.1), line.info.end_first)
    &&& is_greatest(ends(group.1), line.info.end_last)
    &&& line.info.lead_time == lead_time_of(line.info.start_first, line.info.end_last)
}

/// The time lines of the features that `items` plan: one for each run of
/// planned items of one feature.
pub fn timelines(items: &Vec<CAItem>, scope: Scope) -> (lines: Vec<FeatureTimeLine>)
    ensures
        lines.len() == grouped(planned_entries(items@, scope, items.len() as int)).len(),
        forall|k: int|
            0 <= k < lines.len() ==> is_timeline_of(
                #[trigger] lines[k],
                grouped(planned_entries(items@, scope, items.len() as int))[k],
            ),
{
    let mut entries: Vec<(String, (u32, u32))> = Vec::new();
    let mut i: usize = 0;
    while i < items.len()
        invariant
            i <= items.len(),
            entries_view(entries@) == planned_entries(items@, scope, i as int),
        decreases items.len() - i,
    {
        let it = &items[i];
        let ghost before = entries_view(entries@);
        if it.start_fb < 3000 && it.end_fb < 3000 && scope.includes(&it.activity) {
            let fid = String::from_str(get_system_split(it.sub_id.as_str()));
            entries.push((fid, (it.start_fb, it.end_fb)));
            proof {
                assert(entries_view(entries@) =~= before.push(
                    (system_split(it.sub_id@), (it.start_fb, it.end_fb)),
                ));
            }
        }
        i = i + 1;
    }
    let groups = group_runs(&entries);
    let ghost runs = grouped(planned_entries(items@, scope, items.len() as int));
    proof {
        lemma_groups_not_empty(planned_entries(items@, scope, items.len() as int));
        assert(groups_view(groups@).len() == groups.len());
    }
    let mut lines: Vec<FeatureTimeLine> = Vec::new();
    let mut k: usize = 0;
    while k < groups.len()
        invariant
            k <= groups.len(),
            lines.len() == k,
            groups.len() == runs.len(),
            groups_view(groups@) == runs,
            forall|j: int| 0 <= j < runs.len() ==> (#[trigger] runs[j]).1.len() > 0,
            forall|j: int| 0 <= j < k ==> is_timeline_of(#[trigger] lines[j], runs[j]),
        decreases groups.len() - k,
    {
        proof {
            assert(groups_view(groups@)[k as int] == (groups[k as int].0@, groups[k as int].1@));
            assert(runs[k as int].1.len() > 0);
        }
        let info = calculate_timeline(&groups[k].1);
        lines.push(
            FeatureTimeLine {
                fid: groups[k].0.clone(),
                info,
                entries: groups[k].1.len(),
            },
        );
        k = k + 1;
    }
    lines
}

/// The number of features that `items` plan.
pub fn count_planned(items: &Vec<CAItem>, scope: Scope) -> (planned: usize)
    ensures
        planned == grouped(planned_entries(items@, scope, items.len() as int)).len(),
{
    timelines(items, scope).len()
}

/// Whether `order` lists the indices of `leads` by lead time, the longest
/// first, and those of one lead time in the order they stand in: of two
/// indices the one comes first whose lead time [`reverse_order`] puts first,
/// and the smaller one where it puts neither first.
pub open spec fn is_longest_first(leads: Seq<u32>, order: Seq<usize>) -> bool {
    &&& order.len() == leads.len()
    &&& order.no_duplicates()
    &&& forall|i: int| 0 <= i < order.len() ==> (#[trigger] order[i]) < leads.len()
    &&& forall|i: int, j: int|
        0 <= i < j < order.len() ==> reverse_order(
            leads[order[i] as int],
            leads[order[j] as int],
        ) < 0 || (reverse_order(leads[order[i] as int], leads[order[j] as int]) == 0 && order[i]
            < order[j])
}

/// What each of `lines` says of its feature: the identifier, the lead time,
/// the builds between which its items start and those between which they
/// end.
pub open spec fn timeline_text(hint: Seq<char>, line: FeatureTimeLine) -> Seq<char> {
    "feature:"@ + padded(line.fid@, 10) + ", lead_time_"@ + hint + ":"@ + decimal(
        line.info.lead_time as nat,
    ) + ", start: "@ + decimal(line.info.start_first as nat) + " - "@ + decimal(
        line.info.start_last as nat,
    ) + ", end: "@ + decimal(line.info.end_first as nat) + " - "@ + decimal(
        line.info.end_last as nat,
    )
}

/// The lines of the first `n` features.
pub open spec fn feature_lines(hint: Seq<char>, lines: Seq<FeatureTimeLine>, n: int) -> Seq<char>
    decreases n,
{
    if n <= 0 {
        Seq::empty()
    } else {
        feature_lines(hint, lines, n - 1) + "@@@@@@ "@ + timeline_text(hint, lines[n - 1])
            + ", entries:"@ + decimal(lines[n - 1].entries as nat) + "\n"@
    }
}

/// The lines of the first `n` features in `order`.
pub open spec fn top_lines(
    hint: Seq<char>,
    lines: Seq<FeatureTimeLine>,
    order: Seq<usize>,
    n: int,
) -> Seq<char>
    decreases n,
{
    if n <= 0 {
        Seq::empty()
    } else {
        top_lines(hint, lines, order, n - 1) + "### "@ + timeline_text(
            hint,
            lines[order[n - 1] as int],
        ) + "\n"@
    }
}

/// The report on lead times: a line for every feature, their number, and
/// the `top_count` features with the longest lead times once more.
pub open spec fn lead_time_report(
    hint: Seq<char>,
    lines: Seq<FeatureTimeLine>,
    order: Seq<usize>,
    top_count: nat,
) -> Seq<char> {
    "@@ Planned features "@ + hint + " lead time analysis\n"@ + feature_lines(
        hint,
        lines,
        lines.len() as int,
    ) + "@@ Totally planned features:"@ + decimal(lines.len()) + " analyzed\n"@ + "@@ Top:"@
        + decimal(top_count) + "[20%] of them as below\n"@ + top_lines(
        hint,
        lines,
        order,
        if top_count < lines.len() {
            top_count as int
        } else {
            lines.len() as int
        },
    )
}

fn push_timeline_text(out: &mut String, hint: &str, line: &FeatureTimeLine)
    ensures
        final(out)@ == old(out)@ + timeline_text(hint@, *line),
{
    let mut text = String::new();
    text.append("feature:");
    push_padded(&mut text, &chars_of(line.fid.as_str()), 10);
    text.append(", lead_time_");
    text.append(hint);
    text.append(":");
    push_decimal(&mut text, line.info.lead_time as u64);
    let ghost head = text@;
    proof {
        assert(head =~= "feature:"@ + padded(line.fid@, 10) + ", lead_time_"@ + hint@ + ":"@
            + decimal(line.info.lead_time as nat));
    }
    text.append(", start: ");
    push_decimal(&mut text, line.info.start_first as u64);
    text.append(" - ");
    push_decimal(&mut text, line.info.start_last as u64);
    text.append(", end: ");
    push_decimal(&mut text, line.info.end_first as u64);
    text.append(" - ");
    push_decimal(&mut text, line.info.end_last as u64);
    proof {
        assert(text@ =~= head + ", start: "@ + decimal(line.info.start_first as nat) + " - "@
            + decimal(line.info.start_last as nat) + ", end: "@ + decimal(
            line.info.end_first as nat,
        ) + " - "@ + decimal(line.info.end_last as nat));
        assert(text@ =~= timeline_text(hint@, *line));
    }
    out.append(text.as_str());
}

/// Writes the report on the lead times of `lines`, which `order` lists with
/// the longest first.
pub fn lead_times(
    hint: &str,
    lines: &Vec<FeatureTimeLine>,
    order: &Vec<usize>,
    top_count: usize,
) -> (report: String)
    requires
        order.len() == lines.len(),
        forall|i: int| 0 <= i < order.len() ==> (#[trigger] order[i]) < lines.len(),
    ensures
        report@ == lead_time_report(hint@, lines@, order@, top_count as nat),
{
    let mut all = String::new();
    let mut i: usize = 0;
    while i < lines.len()
        invariant
            i <= lines.len(),
            all@ == feature_lines(hint@, lines@, i as int),
        decreases lines.len() - i,
    {
        let ghost before = all@;
        all.append("@@@@@@ ");
        push_timeline_text(&mut all, hint, &lines[i]);
        all.append(", entries:");
        push_decimal(&mut all, lines[i].entries as u64);
        all.append("\n");
        proof {
            assert(all@ =~= feature_lines(hint@, lines@, i + 1));
        }
        i = i + 1;
    }
    let shown = if top_count < lines.len() {
        top_count
    } else {
        lines.len()
    };
    let mut top = String::new();
    let mut k: usize = 0;
    while k < shown
        invariant
            k <= shown <= lines.len(),
            order.len() == lines.len(),
            forall|i: int| 0 <= i < order.len() ==> (#[trigger] order[i]) < lines.len(),
            top@ == top_lines(hint@, lines@, order@, k as int),
        decreases shown - k,
    {
        top.append("### ");
        push_timeline_text(&mut top, hint, &lines[order[k]]);
        top.append("\n");
        proof {
            assert(top@ =~= top_lines(hint@, lines@, order@, k + 1));
        }
        k = k + 1;
    }
    let mut report = String::new();
    report.append("@@ Planned features ");
    report.append(hint);
    report.append(" lead time analysis\n");
    report.append(all.as_str());
    report.append("@@ Totally planned features:");
    push_decimal(&mut report, lines.len() as u64);
    report.append(" analyzed\n");
    report.append("@@ Top:");
    push_decimal(&mut report, top_count as u64);
    report.append("[20%] of them as below\n");
    report.append(top.as_str());
    proof {
        assert(report@ =~= lead_time_report(hint@, lines@, order@, top_count as nat));
    }
    report
}

/// The lead time of each time line.
pub open spec fn leads_of(lines: Seq<FeatureTimeLine>) -> Seq<u32> {
    lines.map_values(|line: FeatureTimeLine| line.info.lead_time)
}

/// `Itertools::sorted_by` over the indices of `leads`, with
/// [`greater_first`] to compare the lead times of two indices.  The sort is
/// stable: indices of one lead time stay in rising order.
#[verifier::external_body]
fn longest_first(leads: &Vec<u32>) -> (order: Vec<usize>)
    ensures
        is_longest_first(leads@, order@),
{
    (0..leads.len()).sorted_by(|a, b| greater_first(leads[*a], leads[*b])).collect()
}

/// Writes the report on the lead times of the features that `items` plan.
/// `hint` names the scope in the report; `top_count` is the number of
/// features to list once more, the longest first.
pub fn analyze_timeline(items: &Vec<CAItem>, hint: &str, scope: Scope, top_count: usize) -> (report:
    String)
    ensures
        exists|lines: Seq<FeatureTimeLine>, order: Seq<usize>|
            {
                &&& lines.len() == grouped(planned_entries(items@, scope, items.len() as int)).len()
                &&& forall|k: int|
                    0 <= k < lines.len() ==> is_timeline_of(
                        #[trigger] lines[k],
                        grouped(planned_entries(items@, scope, items.len() as int))[k],
                    )
                &&& is_longest_first(leads_of(lines), order)
                &&& report@ == lead_time_report(hint@, lines, order, top_count as nat)
            },
{
    let lines = timelines(items, scope);
    let mut leads: Vec<u32> = Vec::new();
    let mut i: usize = 0;
    while i < lines.len()
        invariant
            i <= lines.len(),
            leads@ == leads_of(lines@).subrange(0, i as int),
        decreases lines.len() - i,
    {
        leads.push(lines[i].info.lead_time);
        proof {
            assert(leads@ =~= leads_of(lines@).subrange(0, i + 1));
        }
        i = i + 1;
    }
    proof {
        assert(leads_of(lines@).subrange(0, lines.len() as int) =~= leads_of(lines@));
    }
    let order = longest_first(&leads);
    let report = lead_times(hint, &lines, &order, top_count);
    proof {
        let ghost_lines = lines@;
        let ghost_order = order@;
        assert(is_longest_first(leads_of(ghost_lines), ghost_order));
        assert(report@ == lead_time_report(hint@, ghost_lines, ghost_order, top_count as nat));
    }
    report
}

} // verus!
