//! A customer feature as the reports use it.

use vstd::prelude::*;
use vstd::string::StrSliceExecFns;
use core::cmp::Ordering;
use crate::checkers::datatypes::StoredData;
use crate::checkers::order::or_else;
use crate::checkers::order::ordering_of;
use crate::checkers::order::text_sign;
use crate::checkers::order::to_ordering;
use crate::checkers::sys::sysissue::SysFields;
use crate::checkers::utils::NA_STRING;
use crate::checkers::utils::attr_text;
use crate::checkers::utils::releases_text;
use crate::checkers::utils::text_or;
use crate::query::issue::Issue;
use crate::text::chars_of;
use crate::text::contains;
use crate::text::contains_text;
use crate::text::find_member;
use crate::text::first_in;
use crate::text::lemma_lex_zero;
use crate::text::lex;

verus! {

/// A feature that the system is to offer.
#[derive(Clone, Debug)]
pub struct SysItem {
    pub summary: String,
    pub title: String,
    pub release: String,
    pub status: String,
    pub area: String,
    pub key: String,
}

/// The identifier of a feature: its summary up to the first space.
pub open spec fn fid_of(summary: Seq<char>) -> Seq<char> {
    summary.subrange(0, first_in(summary, seq![' '], 0))
}

/// Whether an area is one of operation and maintenance.
pub open spec fn is_oam_area(area: Seq<char>) -> bool {
    contains_text(area, "OAM"@) || contains_text(area, "Operability"@)
}

/// The order of two features in a report: by area, then by summary, then by
/// status, then by key.
pub open spec fn report_order(a: SysItem, b: SysItem) -> int {
    or_else(
        lex(a.area@, b.area@),
        or_else(lex(a.summary@, b.summary@), or_else(lex(a.status@, b.status@), lex(a.key@, b.key@))),
    )
}

/// Whether `item` is what the reports make of `raw`: summary and key are
/// kept; the title is `"NA"` where there is none; the releases are joined;
/// the status is named by its `name`; a missing area is empty.
pub open spec fn is_item_of(item: SysItem, raw: Issue<SysFields>) -> bool {
    &&& item.summary@ == raw.fields.summary@
    &&& item.title@ == text_or(raw.fields.title, NA_STRING@)
    &&& item.release@ == releases_text(raw.fields.release)
    &&& item.status@ == attr_text(raw.fields.status, "name"@)
    &&& item.area@ == text_or(raw.fields.area, Seq::empty())
    &&& item.key@ == raw.key@
}

/// Two features stand in the same place of a report exactly when they
/// agree in area, summary, status and key.
pub proof fn lemma_same_place(a: SysItem, b: SysItem)
    ensures
        report_order(a, b) == 0 <==> a.area@ == b.area@ && a.summary@ == b.summary@ && a.status@
            == b.status@ && a.key@ == b.key@,
{
    lemma_lex_zero(a.area@, b.area@);
    lemma_lex_zero(a.summary@, b.summary@);
    lemma_lex_zero(a.status@, b.status@);
    lemma_lex_zero(a.key@, b.key@);
}

impl SysItem {
    /// The feature that the reports make of an issue.
    pub fn from(raw: &Issue<SysFields>) -> (item: SysItem)
        ensures
            is_item_of(item, *raw),
    {
        SysItem {
            summary: raw.fields.summary.clone(),
            title: raw.get_title(),
            release: raw.get_release(),
            status: raw.get_status(),
            area: raw.get_area(),
            key: raw.key.clone(),
        }
    }

    /// The identifier of the feature.
    pub fn get_fid<'a>(&'a self) -> (fid: &'a str)
        ensures
            fid@ == fid_of(self.summary@),
    {
        proof {
            reveal_strlit(" ");
            assert(" "@ =~= seq![' ']);
        }
        let all = chars_of(self.summary.as_str());
        let x = find_member(&all, &chars_of(" "));
        self.summary.as_str().substring_char(0, x)
    }

    /// Whether the feature is one of operation and maintenance.
    pub fn is_oam_feature(&self) -> (oam: bool)
        ensures
            oam == is_oam_area(self.area@),
    {
        let area = chars_of(self.area.as_str());
        contains(&area, &chars_of("OAM")) || contains(&area, &chars_of("Operability"))
    }

    fn order(&self, other: &SysItem) -> (s: i8)
        ensures
            s == report_order(*self, *other),
    {
        let by_area = text_sign(self.area.as_str(), other.area.as_str());
        if by_area != 0 {
            return by_area;
        }
        let by_summary = text_sign(self.summary.as_str(), other.summary.as_str());
        if by_summary != 0 {
            return by_summary;
        }
        let by_status = text_sign(self.status.as_str(), other.status.as_str());
        if by_status != 0 {
            return by_status;
        }
        text_sign(self.key.as_str(), other.key.as_str())
    }

    /// Orders two features as a report lists them.
    pub fn cmp(&self, other: &SysItem) -> (o: Ordering)
        ensures
            o == ordering_of(report_order(*self, *other)),
    {
        to_ordering(self.order(other))
    }
}

impl PartialEq for SysItem {
    /// Two features are the same if a report lists them in the same place.
    fn eq(&self, other: &SysItem) -> (r: bool) {
        self.order(other) == 0
    }
}

impl vstd::std_specs::cmp::PartialEqSpecImpl for SysItem {
    open spec fn obeys_eq_spec() -> bool {
        true
    }

    open spec fn eq_spec(&self, other: &SysItem) -> bool {
        report_order(*self, *other) == 0
    }
}

impl PartialOrd for SysItem {
    fn partial_cmp(&self, other: &SysItem) -> (r: Option<Ordering>) {
        Some(self.cmp(other))
    }
}

impl vstd::std_specs::cmp::PartialOrdSpecImpl for SysItem {
    open spec fn obeys_partial_cmp_spec() -> bool {
        true
    }

    open spec fn partial_cmp_spec(&self, other: &SysItem) -> Option<Ordering> {
        Some(ordering_of(report_order(*self, *other)))
    }
}

impl StoredData for SysItem {
    type Parsed = Issue<SysFields>;

    fn parse_from(issue: &Issue<SysFields>) -> (item: SysItem)
        ensures
            is_item_of(item, *issue),
    {
        SysItem::from(issue)
    }
}

} // verus!
