//! The report on effort estimations: which are still open, and what the
//! others add up to.

use vstd::prelude::*;
use vstd::string::StringExecFns;
use crate::checkers::fs2::fs2item::Fs2Item;
use crate::checkers::sys::sysitem::SysItem;
use crate::checkers::utils::get_leftmost;
use crate::checkers::utils::leftmost;
use crate::text::chars_of;
use crate::text::decimal;
use crate::text::decimal_int;
use crate::text::numeral;
use crate::text::padded;
use crate::text::padded_left;
use crate::text::push_decimal;
use crate::text::push_padded;
use crate::text::push_padded_left;
use crate::text::same_text;

verus! {

/// The line that sets the parts of a report apart.
pub const BANNER: &'static str =
    "----------------------------------------------------------------------------\n";

/// Whether an estimation is still open: it has no efforts, or is not done.
pub open spec fn is_unsolved(it: Fs2Item) -> bool {
    it.efforts == -1 || it.status@ != "Done"@
}

/// The line of one estimation: summary, title, release, efforts and
/// description, each in its column.
pub open spec fn estimate_line(it: Fs2Item) -> Seq<char> {
    padded(leftmost(it.summary@, 9), 9) + "|"@ + padded(leftmost(it.title@, 31), 31) + "|"@
        + padded(leftmost(it.release@, 12), 12) + "|"@ + padded_left(
        decimal_int(it.efforts as int),
        6,
    ) + "|"@ + padded(leftmost(it.description@, 40), 40) + "\n"@
}

/// The lines of the open ones among the first `n` estimations.
pub open spec fn unsolved_lines(items: Seq<Fs2Item>, n: int) -> Seq<char>
    decreases n,
{
    if n <= 0 {
        Seq::empty()
    } else if is_unsolved(items[n - 1]) {
        unsolved_lines(items, n - 1) + estimate_line(items[n - 1])
    } else {
        unsolved_lines(items, n - 1)
    }
}

/// The number of open ones among the first `n` estimations.
pub open spec fn unsolved_count(items: Seq<Fs2Item>, n: int) -> nat
    decreases n,
{
    if n <= 0 {
        0
    } else if is_unsolved(items[n - 1]) {
        unsolved_count(items, n - 1) + 1
    } else {
        unsolved_count(items, n - 1)
    }
}

/// The sum of two numbers as 32 bits hold it.
pub open spec fn wrapping_sum(x: i32, y: i32) -> i32 {
    if x + y > i32::MAX {
        (x + y - 0x1_0000_0000) as i32
    } else if x + y < i32::MIN {
        (x + y + 0x1_0000_0000) as i32
    } else {
        (x + y) as i32
    }
}

/// The efforts of the first `n` estimations that have any, added up in 32
/// bits.
pub open spec fn solved_efforts(items: Seq<Fs2Item>, n: int) -> i32
    decreases n,
{
    if n <= 0 {
        0
    } else if items[n - 1].efforts != -1 {
        wrapping_sum(solved_efforts(items, n - 1), items[n - 1].efforts)
    } else {
        solved_efforts(items, n - 1)
    }
}

/// The report: the number of estimations and of open ones, a line for each
/// open one between two banners, and the sum of the efforts estimated.
pub open spec fn estimates_report(items: Seq<Fs2Item>) -> Seq<char> {
    let n = items.len() as int;
    "@@@ Total MZ FS2EE entries: "@ + decimal(items.len()) + ", unresolved: "@ + decimal(
        unsolved_count(items, n),
    ) + "\n"@ + BANNER@ + unsolved_lines(items, n) + BANNER@ + "@@@ Solved efforts are: "@
        + decimal_int(solved_efforts(items, n) as int) + " with "@ + decimal(
        (items.len() - unsolved_count(items, n)) as nat,
    ) + " features\n"@
}

fn unsolved(it: &Fs2Item) -> (open: bool)
    ensures
        open == is_unsolved(*it),
{
    !it.has_efforts() || !same_text(it.status.as_str(), "Done")
}

fn push_column(out: &mut String, value: &str, width: usize)
    ensures
        final(out)@ == old(out)@ + padded(leftmost(value@, width as int), width as nat),
{
    push_padded(out, &chars_of(get_leftmost(value, width)), width);
}

fn push_estimate_line(out: &mut String, it: &Fs2Item)
    ensures
        final(out)@ == old(out)@ + estimate_line(*it),
{
    let mut line = String::new();
    push_column(&mut line, it.summary.as_str(), 9);
    line.append("|");
    push_column(&mut line, it.title.as_str(), 31);
    line.append("|");
    push_column(&mut line, it.release.as_str(), 12);
    line.append("|");
    let ghost head = line@;
    push_padded_left(&mut line, &numeral(it.efforts as i64), 6);
    line.append("|");
    push_column(&mut line, it.description.as_str(), 40);
    line.append("\n");
    proof {
        assert(head =~= padded(leftmost(it.summary@, 9), 9) + "|"@ + padded(
            leftmost(it.title@, 31),
            31,
        ) + "|"@ + padded(leftmost(it.release@, 12), 12) + "|"@);
        assert(line@ =~= head + padded_left(decimal_int(it.efforts as int), 6) + "|"@ + padded(
            leftmost(it.description@, 40),
            40,
        ) + "\n"@);
        assert(line@ =~= estimate_line(*it));
    }
    out.append(line.as_str());
}

/// Writes the report on `result_list`.
pub fn analyze_results(result_list: &Vec<Fs2Item>, _sys_items: &Vec<SysItem>) -> (report: String)
    ensures
        report@ == estimates_report(result_list@),
{
    let total = result_list.len();
    let ghost items = result_list@;
    let mut lines = String::new();
    let mut open: usize = 0;
    let mut solved_eff: i32 = 0;
    let mut i: usize = 0;
    while i < total
        invariant
            i <= total,
            total == result_list.len(),
            items == result_list@,
            open == unsolved_count(items, i as int),
            open <= i,
            lines@ == unsolved_lines(items, i as int),
            solved_eff == solved_efforts(items, i as int),
        decreases total - i,
    {
        let it = &result_list[i];
        if unsolved(it) {
            push_estimate_line(&mut lines, it);
            open = open + 1;
        }
        if it.has_efforts() {
            solved_eff = solved_eff.wrapping_add(it.efforts);
        }
        i = i + 1;
    }
    let mut report = String::new();
    report.append("@@@ Total MZ FS2EE entries: ");
    push_decimal(&mut report, total as u64);
    report.append(", unresolved: ");
    push_decimal(&mut report, open as u64);
    report.append("\n");
    report.append(BANNER);
    report.append(lines.as_str());
    report.append(BANNER);
    report.append("@@@ Solved efforts are: ");
    let sum = numeral(solved_eff as i64);
    push_padded(&mut report, &sum, 0);
    report.append(" with ");
    push_decimal(&mut report, (total - open) as u64);
    report.append(" features\n");
    proof {
        assert(padded(sum@, 0) == sum@);
        assert(report@ =~= estimates_report(items));
    }
    report
}

} // verus!
