//! One row of the pipeline chart: an item, and a column for each feature
//! build in which the item is planned.
//!
//! Feature builds are numbered by year and by place in the year, thirteen to
//! a year: 1813 is followed by 1901.  All arithmetic on them is that of
//! 32-bit machine integers and wraps around.

use vstd::prelude::*;
use vstd::string::StringExecFns;
use crate::checkers::ca::caitem::Activity;
use crate::checkers::ca::caitem::CAItem;
use crate::checkers::ca::caitem::DEFAULT_FB;
use crate::checkers::utils::get_leftmost;
use crate::checkers::utils::leftmost;
use crate::text::chars_of;
use crate::text::joined;
use crate::text::lemma_joined_step;
use crate::text::padded;
use crate::text::push_padded;

verus! {

/// What the pipeline chart shows of an item.
pub struct PipelineInfo<'a> {
    pub sub_id: &'a String,
    pub description: &'a String,
    pub team: &'a String,
    pub start_fb: u32,
    pub end_fb: u32,
    pub activity: &'a Activity,
}

/// `n` brought into the range of a `u32` by adding or taking away 2^32.
pub open spec fn wrap_u32(n: int) -> u32 {
    (n % 0x1_0000_0000) as u32
}

/// The number that the bits of `x` stand for when the highest bit is taken
/// for the sign.
pub open spec fn signed(x: u32) -> int {
    if x >= 0x8000_0000 {
        x - 0x1_0000_0000
    } else {
        x as int
    }
}

/// The number of feature builds from `start` to `end`, both counted.  A span
/// of more than twelve crosses a year's end, where 87 numbers are not in
/// use.
pub open spec fn lead_time_of(start: u32, end: u32) -> u32 {
    let raw = wrap_u32(end - start + 1);
    if raw > 12 {
        wrap_u32(raw - 87)
    } else {
        raw
    }
}

/// The first column of an item and the number of its columns, where the
/// chart begins at the feature build `first`.
///
/// An item that starts more than twenty builds into the chart is drawn at
/// the twentieth.  An item that ends before it starts takes one column.
/// What lies before the chart is cut off.
pub open spec fn schedule(start: u32, end: u32, first: u32) -> (u32, u32) {
    let diff = signed(wrap_u32(signed(start) - signed(first)));
    let offset = if diff > 20 {
        20
    } else {
        diff
    };
    if end < start {
        if offset < 0 {
            (0u32, 0u32)
        } else {
            (offset as u32, 1u32)
        }
    } else {
        let lead = lead_time_of(start, end);
        if offset < 0 {
            let span = signed(wrap_u32(signed(lead) + offset));
            (
                0u32,
                if span < 0 {
                    0u32
                } else {
                    span as u32
                },
            )
        } else {
            (offset as u32, lead)
        }
    }
}

/// Whether column `j` of a chart of `max_span` columns is marked.  An item
/// without a plan, or with one that begins behind the chart, is marked in
/// the last column alone.
pub open spec fn is_marked(start: u32, end: u32, first: u32, max_span: u32, j: int) -> bool {
    let (offset, span) = schedule(start, end, first);
    if start == DEFAULT_FB || offset >= max_span {
        j == max_span - 1
    } else {
        offset <= j < offset + span
    }
}

/// One column of a row.
pub open spec fn cell(marked: bool) -> Seq<char> {
    if marked {
        "x   "@
    } else {
        "    "@
    }
}

/// The columns of a row.
pub open spec fn cells(start: u32, end: u32, first: u32, max_span: u32) -> Seq<Seq<char>> {
    Seq::new(max_span as nat, |j: int| cell(is_marked(start, end, first, max_span, j)))
}

/// What a row says of the item itself: sub-feature, description, activity
/// and team, each cut to its column and filled up with spaces.
pub open spec fn row_head(
    sub_id: Seq<char>,
    description: Seq<char>,
    activity: Activity,
    team: Seq<char>,
) -> Seq<char> {
    padded(leftmost(sub_id, 15), 15) + "|"@ + padded(leftmost(description, 30), 30) + "|"@ + padded(
        activity.spec_name(),
        3,
    ) + "|"@ + padded(leftmost(team, 8), 8) + "|"@
}

fn as_signed(x: u32) -> (r: i64)
    ensures
        r == signed(x),
{
    if x >= 0x8000_0000 {
        x as i64 - 0x1_0000_0000
    } else {
        x as i64
    }
}

fn wrapped(n: i64) -> (r: u32)
    requires
        -0x1_0000_0000 <= n < 0x2_0000_0000,
    ensures
        r == wrap_u32(n as int),
{
    if n < 0 {
        (n + 0x1_0000_0000) as u32
    } else if n >= 0x1_0000_0000 {
        (n - 0x1_0000_0000) as u32
    } else {
        n as u32
    }
}

/// The number of feature builds from `start` to `end`, both counted.
pub fn lead_time(start: u32, end: u32) -> (lead: u32)
    ensures
        lead == lead_time_of(start, end),
{
    let raw = wrapped(end as i64 - start as i64 + 1);
    if raw > 12 {
        wrapped(raw as i64 - 87)
    } else {
        raw
    }
}

impl<'a> PipelineInfo<'a> {
    /// What the chart shows of `item`.
    pub fn from_item<'c: 'a>(item: &'c CAItem) -> (info: PipelineInfo<'a>)
        ensures
            info.sub_id == &item.sub_id,
            info.description == &item.description,
            info.team == &item.team,
            info.start_fb == item.start_fb,
            info.end_fb == item.end_fb,
            info.activity == &item.activity,
    {
        PipelineInfo {
            sub_id: &item.sub_id,
            description: &item.description,
            team: &item.team,
            start_fb: item.start_fb,
            end_fb: item.end_fb,
            activity: &item.activity,
        }
    }

    /// The first column of the item and the number of its columns.
    pub fn get_sched(&self, first_fb: u32) -> (sched: (u32, u32))
        ensures
            sched == schedule(self.start_fb, self.end_fb, first_fb),
    {
        let diff = as_signed(wrapped(as_signed(self.start_fb) - as_signed(first_fb)));
        let offset: i64 = if diff > 20 {
            20
        } else {
            diff
        };
        if self.end_fb < self.start_fb {
            if offset < 0 {
                (0, 0)
            } else {
                (offset as u32, 1)
            }
        } else {
            let lead = lead_time(self.start_fb, self.end_fb);
            if offset < 0 {
                let span = as_signed(wrapped(as_signed(lead) + offset));
                if span < 0 {
                    (0, 0)
                } else {
                    (0, span as u32)
                }
            } else {
                (offset as u32, lead)
            }
        }
    }

    /// The row of the item in a chart of `max_span` columns that begins at
    /// the feature build `first_fb`.
    pub fn generate_schedule_row(&self, first_fb: u32, max_span: u32) -> (row: String)
        requires
            max_span >= 1,
        ensures
            row@ == row_head(self.sub_id@, self.description@, *self.activity, self.team@) + joined(
                cells(self.start_fb, self.end_fb, first_fb, max_span),
                "|"@,
            ),
    {
        let mut output = String::new();
        push_padded(&mut output, &chars_of(get_leftmost(self.sub_id.as_str(), 15)), 15);
        output.append("|");
        push_padded(&mut output, &chars_of(get_leftmost(self.description.as_str(), 30)), 30);
        output.append("|");
        push_padded(&mut output, &chars_of(self.activity.name()), 3);
        output.append("|");
        push_padded(&mut output, &chars_of(get_leftmost(self.team.as_str(), 8)), 8);
        output.append("|");
        let ghost head = output@;
        let ghost all = cells(self.start_fb, self.end_fb, first_fb, max_span);
        proof {
            assert(head =~= row_head(
                self.sub_id@,
                self.description@,
                *self.activity,
                self.team@,
            ));
            assert(all.subrange(0, 0) =~= Seq::<Seq<char>>::empty());
            assert(output@ =~= head + joined(all.subrange(0, 0), "|"@));
        }
        let (offset, span) = self.get_sched(first_fb);
        let unplanned = self.start_fb == DEFAULT_FB || offset >= max_span;
        let mut j: u32 = 0;
        while j < max_span
            invariant
                j <= max_span,
                max_span >= 1,
                (offset, span) == schedule(self.start_fb, self.end_fb, first_fb),
                unplanned == (self.start_fb == DEFAULT_FB || offset >= max_span),
                all == cells(self.start_fb, self.end_fb, first_fb, max_span),
                output@ == head + joined(all.subrange(0, j as int), "|"@),
            decreases max_span - j,
        {
            let marked = if unplanned {
                j == max_span - 1
            } else {
                offset <= j && (j as u64) < offset as u64 + span as u64
            };
            proof {
                lemma_joined_step(all, "|"@, j as int);
                assert(all[j as int] == cell(marked));
            }
            if j > 0 {
                output.append("|");
            }
            if marked {
                output.append("x   ");
            } else {
                output.append("    ");
            }
            proof {
                assert(output@ =~= head + joined(all.subrange(0, j + 1), "|"@));
            }
            j = j + 1;
        }
        proof {
            assert(all.subrange(0, max_span as int) =~= all);
        }
        output
    }
}

} // verus!
