//! The report on customer features.

use vstd::prelude::*;
use vstd::string::StringExecFns;
use crate::checkers::sys::sysitem::SysItem;
use crate::checkers::utils::get_leftmost;
use crate::checkers::utils::leftmost;
use crate::text::chars_of;
use crate::text::decimal;
use crate::text::padded;
use crate::text::push_decimal;
use crate::text::push_padded;

verus! {

/// The line that sets the parts of a report apart.
pub const BANNER: &'static str =
    "----------------------------------------------------------------------------\n";

/// The line of one feature: summary, area, title, key, status and release,
/// each cut to its column and filled up with spaces.
pub open spec fn feature_line(it: SysItem) -> Seq<char> {
    padded(leftmost(it.summary@, 20), 20) + "|"@ + padded(leftmost(it.area@, 12), 12) + "|"@
        + padded(leftmost(it.title@, 40), 40) + "|"@ + padded(leftmost(it.key@, 10), 10) + "|"@
        + padded(leftmost(it.status@, 8), 8) + "|"@ + padded(leftmost(it.release@, 10), 10) + "\n"@
}

/// The lines of the first `n` features, one after another.
pub open spec fn feature_lines(items: Seq<SysItem>, n: int) -> Seq<char>
    decreases n,
{
    if n <= 0 {
        Seq::empty()
    } else {
        feature_lines(items, n - 1) + feature_line(items[n - 1])
    }
}

/// The report: how many features there are, a banner, and a line for each.
pub open spec fn features_report(items: Seq<SysItem>) -> Seq<char> {
    "@@ Feature analysis: "@ + decimal(items.len()) + " issues in total\n"@ + BANNER@
        + feature_lines(items, items.len() as int)
}

fn push_column(out: &mut String, value: &str, width: usize)
    ensures
        final(out)@ == old(out)@ + padded(leftmost(value@, width as int), width as nat),
{
    push_padded(out, &chars_of(get_leftmost(value, width)), width);
}

fn push_feature_line(out: &mut String, it: &SysItem)
    ensures
        final(out)@ == old(out)@ + feature_line(*it),
{
    push_column(out, it.summary.as_str(), 20);
    out.append("|");
    push_column(out, it.area.as_str(), 12);
    out.append("|");
    push_column(out, it.title.as_str(), 40);
    out.append("|");
    push_column(out, it.key.as_str(), 10);
    out.append("|");
    push_column(out, it.status.as_str(), 8);
    out.append("|");
    push_column(out, it.release.as_str(), 10);
    out.append("\n");
    proof {
        assert(final(out)@ =~= old(out)@ + feature_line(*it));
    }
}

/// Writes the report on `items`.
pub fn dump_all(items: &Vec<SysItem>) -> (report: String)
    ensures
        report@ == features_report(items@),
{
    let mut report = String::new();
    report.append("@@ Feature analysis: ");
    push_decimal(&mut report, items.len() as u64);
    report.append(" issues in total\n");
    report.append(BANNER);
    let ghost head = report@;
    let mut i: usize = 0;
    proof {
        assert(report@ =~= head + feature_lines(items@, 0));
    }
    while i < items.len()
        invariant
            i <= items.len(),
            report@ == head + feature_lines(items@, i as int),
        decreases items.len() - i,
    {
        push_feature_line(&mut report, &items[i]);
        proof {
            assert(report@ =~= head + feature_lines(items@, i + 1));
        }
        i = i + 1;
    }
    proof {
        assert(report@ =~= features_report(items@));
    }
    report
}

/// Writes the report on `items`.
pub fn analyze_results(items: &Vec<SysItem>) -> (report: String)
    ensures
        report@ == features_report(items@),
{
    dump_all(items)
}

} // verus!
