//! An effort estimation as the reports use it.

use vstd::prelude::*;
use core::cmp::Ordering;
use crate::checkers::datatypes::StoredData;
use crate::checkers::fs2::fs2issue::Fs2Fields;
use crate::checkers::fs2::fs2issue::estimate_of;
use crate::checkers::order::number_sign;
use crate::checkers::order::or_else;
use crate::checkers::order::ordering_of;
use crate::checkers::order::sign;
use crate::checkers::order::text_sign;
use crate::checkers::order::to_ordering;
use crate::checkers::utils::NA_STRING;
use crate::checkers::utils::attr_text;
use crate::checkers::utils::releases_text;
use crate::checkers::utils::text_or;
use crate::query::issue::Issue;
use crate::text::lemma_lex_zero;
use crate::text::lex;

verus! {

/// What a feature is expected to cost.
#[derive(Clone, Debug)]
pub struct Fs2Item {
    pub summary: String,
    /// The estimated efforts, -1 where there is no estimate.
    pub efforts: i32,
    pub title: String,
    pub release: String,
    pub description: String,
    pub status: String,
}

/// The efforts kept for an estimate: its 32 bits taken for a signed number,
/// and -1 where there is no estimate.
pub open spec fn kept_efforts(efforts: Option<u32>) -> i32 {
    match efforts {
        Some(x) => x as i32,
        None => -1i32,
    }
}

/// The order of two estimations in a report: by summary, then by title,
/// then by efforts.
pub open spec fn estimate_order(a: Fs2Item, b: Fs2Item) -> int {
    or_else(
        lex(a.summary@, b.summary@),
        or_else(lex(a.title@, b.title@), sign(a.efforts as int, b.efforts as int)),
    )
}

/// Whether `item` is what the reports make of `raw`: the summary is kept;
/// the title is `"NA"` where there is none; the efforts are those
/// estimated, or -1; the releases are joined; a missing description is
/// empty; the status is named by its `name`.
pub open spec fn is_item_of(item: Fs2Item, raw: Issue<Fs2Fields>) -> bool {
    &&& item.summary@ == raw.fields.summary@
    &&& item.title@ == text_or(raw.fields.title, NA_STRING@)
    &&& item.efforts == kept_efforts(estimate_of(raw.fields.efforts))
    &&& item.release@ == releases_text(raw.fields.release)
    &&& item.description@ == text_or(raw.fields.description, Seq::empty())
    &&& item.status@ == attr_text(raw.fields.status, "name"@)
}

/// Two estimations stand in the same place of a report exactly when they
/// agree in summary, title and efforts.
pub proof fn lemma_same_place(a: Fs2Item, b: Fs2Item)
    ensures
        estimate_order(a, b) == 0 <==> a.summary@ == b.summary@ && a.title@ == b.title@
            && a.efforts == b.efforts,
{
    lemma_lex_zero(a.summary@, b.summary@);
    lemma_lex_zero(a.title@, b.title@);
}

fn efforts_kept(efforts: Option<u32>) -> (kept: i32)
    ensures
        kept == kept_efforts(efforts),
{
    match efforts {
        Some(x) => {
            #[verifier::truncate]
            (x as i32)
        },
        None => -1,
    }
}

impl Fs2Item {
    /// The estimation that the reports make of an issue.
    pub fn from(raw: &Issue<Fs2Fields>) -> (item: Fs2Item)
        ensures
            is_item_of(item, *raw),
    {
        Fs2Item {
            summary: raw.fields.summary.clone(),
            title: raw.get_title_display(),
            efforts: efforts_kept(raw.get_efforts()),
            release: raw.get_release(),
            description: raw.get_description(),
            status: raw.get_status(),
        }
    }

    /// Whether efforts have been estimated.
    pub fn has_efforts(&self) -> (has: bool)
        ensures
            has == (self.efforts != -1),
    {
        self.efforts != -1
    }

    fn order(&self, other: &Fs2Item) -> (s: i8)
        ensures
            s == estimate_order(*self, *other),
    {
        let by_summary = text_sign(self.summary.as_str(), other.summary.as_str());
        if by_summary != 0 {
            return by_summary;
        }
        let by_title = text_sign(self.title.as_str(), other.title.as_str());
        if by_title != 0 {
            return by_title;
        }
        number_sign(self.efforts as i64, other.efforts as i64)
    }

    /// Orders two estimations as a report lists them.
    pub fn cmp(&self, other: &Fs2Item) -> (o: Ordering)
        ensures
            o == ordering_of(estimate_order(*self, *other)),
    {
        to_ordering(self.order(other))
    }
}

impl PartialEq for Fs2Item {
    /// Two estimations are the same if a report lists them in the same place.
    fn eq(&self, other: &Fs2Item) -> (r: bool) {
        self.order(other) == 0
    }
}

impl vstd::std_specs::cmp::PartialEqSpecImpl for Fs2Item {
    open spec fn obeys_eq_spec() -> bool {
        true
    }

    open spec fn eq_spec(&self, other: &Fs2Item) -> bool {
        estimate_order(*self, *other) == 0
    }
}

impl PartialOrd for Fs2Item {
    fn partial_cmp(&self, other: &Fs2Item) -> (r: Option<Ordering>) {
        Some(self.cmp(other))
    }
}

impl vstd::std_specs::cmp::PartialOrdSpecImpl for Fs2Item {
    open spec fn obeys_partial_cmp_spec() -> bool {
        true
    }

    open spec fn partial_cmp_spec(&self, other: &Fs2Item) -> Option<Ordering> {
        Some(ordering_of(estimate_order(*self, *other)))
    }
}

impl StoredData for Fs2Item {
    type Parsed = Issue<Fs2Fields>;

    fn parse_from(issue: &Issue<Fs2Fields>) -> (item: Fs2Item)
        ensures
            is_item_of(item, *issue),
    {
        Fs2Item::from(issue)
    }
}

} // verus!
