//! A competence-area item as the reports use it.
//!
//! The summary line of an item begins with the identifier of the sub-feature
//! it plans, followed by free text.  The identifier is often decorated with
//! the name of a milestone or of an area; [`CAItem::get_summary`] takes the
//! decoration off, so that the items of one sub-feature can be found
//! together.

use vstd::prelude::*;
use vstd::string::StrSliceExecFns;
use vstd::string::StringExecFns;
use core::cmp::Ordering;
use crate::checkers::ca::caissue::CAFields;
use crate::checkers::ca::caissue::efforts_of;
use crate::checkers::ca::caissue::type_text;
use crate::checkers::datatypes::StoredData;
use crate::checkers::order::number_sign;
use crate::checkers::order::or_else;
use crate::checkers::order::ordering_of;
use crate::checkers::order::sign;
use crate::checkers::order::text_sign;
use crate::checkers::order::to_ordering;
use crate::checkers::utils::NA_STRING;
use crate::checkers::utils::text_or;
use crate::query::issue::Issue;
use crate::text::chars_of;
use crate::text::contains;
use crate::text::contains_text;
use crate::text::cut_trailing;
use crate::text::find_member;
use crate::text::first_in;
use crate::text::lemma_lex_zero;
use crate::text::lemma_rfind_bound;
use crate::text::lex;
use crate::text::parse_u32;
use crate::text::parsed_u32;
use crate::text::rfind_text;
use crate::text::same_text;
use crate::text::skip_leading;
use crate::text::slice_of;
use crate::text::text_of;
use crate::text::trim_end;
use crate::text::trim_start;
use crate::text::until_last;

verus! {

/// The feature build an item is planned for where none is given.
pub const DEFAULT_FB: u32 = 9999;

/// The kind of work an item plans.
#[derive(Clone, Copy, Debug, PartialEq, Eq, PartialOrd, Ord, Structural)]
pub enum Activity {
    /// Entity specification.
    EFS,
    /// Work of a software team.
    SW,
    /// Entity testing.
    ET,
    /// Not recognised.
    NA,
}

impl Activity {
    /// The place of the activity in the order of a plan.
    pub open spec fn rank(self) -> int {
        match self {
            Activity::EFS => 0,
            Activity::SW => 1,
            Activity::ET => 2,
            Activity::NA => 3,
        }
    }

    /// The name of the activity.
    pub open spec fn spec_name(self) -> Seq<char> {
        match self {
            Activity::EFS => "EFS"@,
            Activity::SW => "SW"@,
            Activity::ET => "ET"@,
            Activity::NA => "NA"@,
        }
    }

    /// The name of the activity.
    pub fn name(&self) -> (name: &'static str)
        ensures
            name@ == self.spec_name(),
    {
        match self {
            Activity::EFS => "EFS",
            Activity::SW => "SW",
            Activity::ET => "ET",
            Activity::NA => "NA",
        }
    }

    fn place(&self) -> (place: u8)
        ensures
            place == self.rank(),
    {
        match self {
            Activity::EFS => 0,
            Activity::SW => 1,
            Activity::ET => 2,
            Activity::NA => 3,
        }
    }
}

/// The planned work of one team on one sub-feature.
#[derive(Clone, Debug)]
pub struct CAItem {
    pub summary: String,
    pub key: String,
    pub sub_id: String,
    pub description: String,
    pub feature_id: String,
    pub team: String,
    pub start_fb: u32,
    pub end_fb: u32,
    pub efforts: i32,
    pub target: String,
    pub activity: Activity,
}

/// What is skipped in front of a summary and in front of its description.
pub open spec fn leading_puncs() -> Seq<char> {
    seq![' ', '\t', '\n', '-']
}

/// What separates the identifier from the description.
pub open spec fn blanks() -> Seq<char> {
    seq![' ', '\t']
}

/// What may be left behind an identifier once its decoration is gone.
pub open spec fn trailing_marks() -> Seq<char> {
    seq!['-', ':']
}

/// What is cut from the end of a team's name.
pub open spec fn white_space() -> Seq<char> {
    seq!['\t', '\n', '\r', ' ']
}

/// The decorations of an identifier, in the order they are looked for.
pub open spec fn decorations() -> Seq<Seq<char>> {
    seq!["-CP3"@, "-EFS"@, "-OM"@, "-OAM"@, "-CFAM"@, "-EI"@, "-Ei"@]
}

/// `s` cut at the last occurrence of each of `pats` in turn.
pub open spec fn until_each(s: Seq<char>, pats: Seq<Seq<char>>) -> Seq<char>
    decreases pats.len(),
{
    if pats.len() == 0 {
        s
    } else {
        until_last(until_each(s, pats.drop_last()), pats.last())
    }
}

/// The identifier without its decoration.
pub open spec fn as_sub_fid(first: Seq<char>) -> Seq<char> {
    trim_end(until_each(first, decorations()), trailing_marks())
}

/// The identifier and the description that a summary line is made of.
pub open spec fn summary_parts(summary: Seq<char>) -> (Seq<char>, Seq<char>) {
    let body = trim_start(summary, leading_puncs());
    let x = first_in(body, blanks(), 0);
    if x < body.len() {
        (
            as_sub_fid(body.subrange(0, x)),
            trim_start(body.subrange(x, body.len() as int), leading_puncs()),
        )
    } else {
        (as_sub_fid(body), Seq::empty())
    }
}

/// The activity that the tracker's name for it stands for.
pub open spec fn activity_of(value: Seq<char>) -> Activity {
    if value == NA_STRING@ {
        Activity::NA
    } else if contains_text(value, "Entity Specification"@) || contains_text(value, "EFS"@) {
        Activity::EFS
    } else if contains_text(value, "Entity Testing"@) || contains_text(value, "ET"@) {
        Activity::ET
    } else {
        Activity::SW
    }
}

/// The feature build written in `value`; [`DEFAULT_FB`] where none is.
pub open spec fn fb_of(value: Seq<char>) -> u32 {
    match parsed_u32(value) {
        Some(x) => x,
        None => DEFAULT_FB,
    }
}

/// The sets of characters, as the literals that name them.
proof fn lemma_sets()
    ensures
        " \t\n-"@ == leading_puncs(),
        " \t"@ == blanks(),
        "-:"@ == trailing_marks(),
        "\t\n\r "@ == white_space(),
{
    reveal_strlit(" \t\n-");
    reveal_strlit(" \t");
    reveal_strlit("-:");
    reveal_strlit("\t\n\r ");
    assert(" \t\n-"@ =~= leading_puncs());
    assert(" \t"@ =~= blanks());
    assert("-:"@ =~= trailing_marks());
    assert("\t\n\r "@ =~= white_space());
}

/// The feature build written in `value`.
pub fn convert_fb(value: &str) -> (fb: u32)
    ensures
        fb == fb_of(value@),
{
    let digits = chars_of(value);
    match parse_u32(&digits) {
        Some(x) => x,
        None => DEFAULT_FB,
    }
}

/// `current` without the blanks and dashes in front of it.
pub fn trim_leading_puncs(current: &Vec<char>) -> (rest: Vec<char>)
    ensures
        rest@ == trim_start(current@, leading_puncs()),
        rest.len() <= current.len(),
        rest@ == current@.subrange(current.len() - rest.len(), current.len() as int),
{
    proof {
        lemma_sets();
    }
    let skips = chars_of(" \t\n-");
    let from = skip_leading(current, &skips);
    slice_of(current, from, current.len())
}

/// `current` up to the last occurrence of `trailing`.
pub fn get_substr_until(current: &Vec<char>, trailing: &Vec<char>) -> (head: Vec<char>)
    ensures
        head@ == until_last(current@, trailing@),
        head.len() <= current.len(),
        head@ == current@.subrange(0, head.len() as int),
{
    match rfind_text(current, trailing) {
        Some(ends) => {
            proof {
                lemma_rfind_bound(current@, trailing@);
            }
            slice_of(current, 0, ends)
        },
        None => {
            proof {
                assert(current@.subrange(0, current.len() as int) =~= current@);
            }
            slice_of(current, 0, current.len())
        },
    }
}

/// `current` cut at the last occurrence of each of `ignored` in turn.
pub fn get_substr_until_one_of(current: &Vec<char>, ignored: &Vec<Vec<char>>) -> (head: Vec<char>)
    ensures
        head@ == until_each(current@, ignored@.map_values(|p: Vec<char>| p@)),
        head.len() <= current.len(),
        head@ == current@.subrange(0, head.len() as int),
{
    let ghost pats = ignored@.map_values(|p: Vec<char>| p@);
    let mut substr = slice_of(current, 0, current.len());
    let mut i: usize = 0;
    proof {
        assert(current@.subrange(0, current.len() as int) =~= current@);
        assert(pats.subrange(0, 0) =~= Seq::<Seq<char>>::empty());
    }
    while i < ignored.len()
        invariant
            i <= ignored.len(),
            pats == ignored@.map_values(|p: Vec<char>| p@),
            substr@ == until_each(current@, pats.subrange(0, i as int)),
            substr.len() <= current.len(),
            substr@ == current@.subrange(0, substr.len() as int),
        decreases ignored.len() - i,
    {
        let ghost before = substr@;
        substr = get_substr_until(&substr, &ignored[i]);
        proof {
            let head = pats.subrange(0, i + 1);
            assert(head.drop_last() =~= pats.subrange(0, i as int));
            assert(head.last() == ignored[i as int]@);
            assert(substr@ =~= current@.subrange(0, substr.len() as int));
        }
        i = i + 1;
    }
    proof {
        assert(pats.subrange(0, ignored.len() as int) =~= pats);
    }
    substr
}

/// The identifier without its decoration.
pub fn trim_as_sub_fid(first: &Vec<char>) -> (id: Vec<char>)
    ensures
        id@ == as_sub_fid(first@),
        id.len() <= first.len(),
        id@ == first@.subrange(0, id.len() as int),
{
    proof {
        lemma_sets();
    }
    let mut ignored: Vec<Vec<char>> = Vec::new();
    ignored.push(chars_of("-CP3"));
    ignored.push(chars_of("-EFS"));
    ignored.push(chars_of("-OM"));
    ignored.push(chars_of("-OAM"));
    ignored.push(chars_of("-CFAM"));
    ignored.push(chars_of("-EI"));
    ignored.push(chars_of("-Ei"));
    proof {
        assert(ignored@.map_values(|p: Vec<char>| p@) =~= decorations());
    }
    let head = get_substr_until_one_of(first, &ignored);
    let marks = chars_of("-:");
    let end = cut_trailing(&head, &marks);
    let id = slice_of(&head, 0, end);
    proof {
        assert(id@ =~= first@.subrange(0, id.len() as int));
    }
    id
}

/// The order of two items in a plan: by feature, then by sub-feature, then
/// by activity, then by the build they start in, then by the build they end
/// in.
pub open spec fn plan_order(a: CAItem, b: CAItem) -> int {
    or_else(
        lex(a.feature_id@, b.feature_id@),
        or_else(
            lex(a.sub_id@, b.sub_id@),
            or_else(
                sign(a.activity.rank(), b.activity.rank()),
                or_else(
                    sign(a.start_fb as int, b.start_fb as int),
                    sign(a.end_fb as int, b.end_fb as int),
                ),
            ),
        ),
    )
}

/// Whether `item` is what the reports make of `issue`: summary and key are
/// kept; feature, team, target and feature builds are read from their
/// fields, `"NA"` and [`DEFAULT_FB`] standing for what is missing, and the
/// team without the white space behind it; the activity is told from the
/// tracker's name for it; sub-feature and description are the two parts of
/// the summary.
pub open spec fn is_item_of(item: CAItem, issue: Issue<CAFields>) -> bool {
    &&& item.summary@ == issue.fields.summary@
    &&& item.key@ == issue.key@
    &&& item.feature_id@ == text_or(issue.fields.feature_id, NA_STRING@)
    &&& item.team@ == trim_end(text_or(issue.fields.team, NA_STRING@), white_space())
    &&& item.start_fb == fb_of(text_or(issue.fields.start_fb, NA_STRING@))
    &&& item.end_fb == fb_of(text_or(issue.fields.end_fb, NA_STRING@))
    &&& item.activity == activity_of(type_text(issue.fields.activity_type))
    &&& item.sub_id@ == summary_parts(issue.fields.summary@).0
    &&& item.description@ == summary_parts(issue.fields.summary@).1
    &&& item.target@ == text_or(issue.fields.target_pt, NA_STRING@)
    &&& item.efforts == efforts_of(issue.fields.original_eff)
}

/// Two items stand in the same place of a plan exactly when they agree in
/// feature, sub-feature, activity and both feature builds.
pub proof fn lemma_same_place(a: CAItem, b: CAItem)
    ensures
        plan_order(a, b) == 0 <==> a.feature_id@ == b.feature_id@ && a.sub_id@ == b.sub_id@
            && a.activity == b.activity && a.start_fb == b.start_fb && a.end_fb == b.end_fb,
{
    lemma_lex_zero(a.feature_id@, b.feature_id@);
    lemma_lex_zero(a.sub_id@, b.sub_id@);
}

impl CAItem {
    /// The item that the reports make of an issue.
    pub fn from(issue: &Issue<CAFields>) -> (item: CAItem)
        ensures
            is_item_of(item, *issue),
    {
        proof {
            lemma_sets();
        }
        let (subid, desc) = CAItem::get_summary(issue.fields.summary.as_str());
        let activity = CAItem::get_type(issue.get_type());
        let team = chars_of(issue.get_team());
        let special = chars_of("\t\n\r ");
        let team_end = cut_trailing(&team, &special);
        CAItem {
            summary: issue.fields.summary.clone(),
            key: issue.key.clone(),
            feature_id: String::from_str(issue.get_fid()),
            team: text_of(&team, 0, team_end),
            start_fb: convert_fb(issue.get_start()),
            end_fb: convert_fb(issue.get_end()),
            activity,
            sub_id: String::from_str(subid),
            description: String::from_str(desc),
            target: String::from_str(issue.get_target()),
            efforts: issue.get_efforts(),
        }
    }

    /// Splits a summary line into the identifier of the sub-feature and the
    /// description.  Blanks and dashes in front of either are skipped; the
    /// identifier ends at the first blank and loses its decoration.
    pub fn get_summary(summary: &str) -> (parts: (&str, &str))
        ensures
            parts.0@ == summary_parts(summary@).0,
            parts.1@ == summary_parts(summary@).1,
    {
        proof {
            lemma_sets();
        }
        let all = chars_of(summary);
        let body = trim_leading_puncs(&all);
        let from = all.len() - body.len();
        let separators = chars_of(" \t");
        let x = find_member(&body, &separators);
        if x < body.len() {
            let first = slice_of(&body, 0, x);
            let last = slice_of(&body, x, body.len());
            let id = trim_as_sub_fid(&first);
            let rest = trim_leading_puncs(&last);
            let id_end = from + id.len();
            let rest_from = all.len() - rest.len();
            proof {
                assert(id@ =~= all@.subrange(from as int, id_end as int));
                assert(rest@ =~= all@.subrange(rest_from as int, all.len() as int));
            }
            (summary.substring_char(from, id_end), summary.substring_char(rest_from, all.len()))
        } else {
            let id = trim_as_sub_fid(&body);
            let id_end = from + id.len();
            proof {
                assert(id@ =~= all@.subrange(from as int, id_end as int));
                assert(all@.subrange(all.len() as int, all.len() as int) =~= Seq::<char>::empty());
            }
            (summary.substring_char(from, id_end), summary.substring_char(all.len(), all.len()))
        }
    }

    /// Reads the identifier and the description anew from the summary.
    pub fn reparse(&mut self)
        ensures
            final(self).sub_id@ == summary_parts(old(self).summary@).0,
            final(self).description@ == summary_parts(old(self).summary@).1,
            final(self).summary == old(self).summary,
            final(self).key == old(self).key,
            final(self).feature_id == old(self).feature_id,
            final(self).team == old(self).team,
            final(self).start_fb == old(self).start_fb,
            final(self).end_fb == old(self).end_fb,
            final(self).efforts == old(self).efforts,
            final(self).target == old(self).target,
            final(self).activity == old(self).activity,
    {
        let (subid, desc) = CAItem::get_summary(self.summary.as_str());
        let subid = String::from_str(subid);
        let desc = String::from_str(desc);
        self.sub_id = subid;
        self.description = desc;
    }

    /// The activity that the tracker's name for it stands for.
    pub fn get_type(value: &str) -> (activity: Activity)
        ensures
            activity == activity_of(value@),
    {
        let text = chars_of(value);
        if same_text(value, NA_STRING) {
            Activity::NA
        } else if contains(&text, &chars_of("Entity Specification")) || contains(
            &text,
            &chars_of("EFS"),
        ) {
            Activity::EFS
        } else if contains(&text, &chars_of("Entity Testing")) || contains(&text, &chars_of("ET")) {
            Activity::ET
        } else {
            Activity::SW
        }
    }

    fn order(&self, other: &CAItem) -> (s: i8)
        ensures
            s == plan_order(*self, *other),
    {
        let by_feature = text_sign(self.feature_id.as_str(), other.feature_id.as_str());
        if by_feature != 0 {
            return by_feature;
        }
        let by_sub_id = text_sign(self.sub_id.as_str(), other.sub_id.as_str());
        if by_sub_id != 0 {
            return by_sub_id;
        }
        let left = self.activity.place();
        let right = other.activity.place();
        if left < right {
            return -1;
        }
        if left > right {
            return 1;
        }
        let by_start = number_sign(self.start_fb as i64, other.start_fb as i64);
        if by_start != 0 {
            return by_start;
        }
        number_sign(self.end_fb as i64, other.end_fb as i64)
    }

    /// Orders two items as a plan lists them.
    pub fn cmp(&self, other: &CAItem) -> (o: Ordering)
        ensures
            o == ordering_of(plan_order(*self, *other)),
    {
        to_ordering(self.order(other))
    }
}

impl PartialEq for CAItem {
    /// Two items are the same if a plan lists them in the same place and
    /// they have the same summary and the same team.
    fn eq(&self, other: &CAItem) -> (r: bool) {
        match self.cmp(other) {
            Ordering::Equal => same_text(self.summary.as_str(), other.summary.as_str())
                && same_text(self.team.as_str(), other.team.as_str()),
            _ => false,
        }
    }
}

impl vstd::std_specs::cmp::PartialEqSpecImpl for CAItem {
    open spec fn obeys_eq_spec() -> bool {
        true
    }

    open spec fn eq_spec(&self, other: &CAItem) -> bool {
        &&& plan_order(*self, *other) == 0
        &&& self.summary@ == other.summary@
        &&& self.team@ == other.team@
    }
}

impl PartialOrd for CAItem {
    fn partial_cmp(&self, other: &CAItem) -> (r: Option<Ordering>) {
        Some(self.cmp(other))
    }
}

impl vstd::std_specs::cmp::PartialOrdSpecImpl for CAItem {
    open spec fn obeys_partial_cmp_spec() -> bool {
        true
    }

    open spec fn partial_cmp_spec(&self, other: &CAItem) -> Option<Ordering> {
        Some(ordering_of(plan_order(*self, *other)))
    }
}

impl StoredData for CAItem {
    type Parsed = Issue<CAFields>;

    fn parse_from(issue: &Issue<CAFields>) -> (item: CAItem)
        ensures
            is_item_of(item, *issue),
    {
        CAItem::from(issue)
    }
}

} // verus!
