//! A competence-area item as the tracker returns it.

use vstd::prelude::*;
use vstd::string::StringExecFns;
use crate::checkers::datatypes::ParsedData;
use crate::checkers::utils::Field;
use crate::checkers::utils::NA_STRING;
use crate::checkers::utils::attr_from;
use crate::checkers::utils::get_wrapped_or_na;
use crate::checkers::utils::text_or;
use crate::query::issue::Issue;
use crate::text::same_text;

verus! {

pub const CA_FIELDS_SUMMARY: &'static str = "summary";

pub const CA_FIELDS_FEATUREID: &'static str = "customfield_37381";

pub const CA_FIELDS_TEAM: &'static str = "customfield_38727";

pub const CA_FIELDS_STARTFB: &'static str = "customfield_38694";

pub const CA_FIELDS_ENDFB: &'static str = "customfield_38693";

pub const CA_FIELDS_TYPE: &'static str = "customfield_38750";

pub const CA_FIELDS_ORIG_EFF: &'static str = "timeoriginalestimate";

pub const CA_FIELDS_TARGET: &'static str = "customfield_38723";

/// The fields of a competence-area item.
pub struct CAFields {
    pub summary: String,
    pub feature_id: Field,
    /// Text, or null.
    pub team: Field,
    pub start_fb: Field,
    pub end_fb: Field,
    pub activity_type: Field,
    /// The estimate in seconds.
    pub original_eff: Field,
    pub target_pt: Field,
}

/// A competence-area item as the tracker returns it.
pub type CAIssue = Issue<CAFields>;

/// The kind of activity an item is filed under: the text of the `value`
/// attribute, `"NA"` where there is none.
pub open spec fn type_text(activity_type: Field) -> Seq<char> {
    match activity_type {
        Field::Object(attrs) => match attr_from(attrs@, "value"@, 0) {
            Some(Field::Text(x)) => x@,
            _ => NA_STRING@,
        },
        _ => NA_STRING@,
    }
}

/// The estimate in hours, rounded down; -1 where none is given.
pub open spec fn efforts_of(original_eff: Field) -> i32 {
    match original_eff {
        Field::Number { whole: Some(seconds), .. } => (seconds / 3600) as i32,
        _ => -1i32,
    }
}

impl Issue<CAFields> {
    /// The feature the item belongs to.
    pub fn get_fid(&self) -> (fid: &str)
        ensures
            fid@ == text_or(self.fields.feature_id, NA_STRING@),
    {
        get_wrapped_or_na(&self.fields.feature_id)
    }

    /// The feature build in which the work starts, as the tracker writes it.
    pub fn get_start(&self) -> (start: &str)
        ensures
            start@ == text_or(self.fields.start_fb, NA_STRING@),
    {
        get_wrapped_or_na(&self.fields.start_fb)
    }

    /// The feature build in which the work ends, as the tracker writes it.
    pub fn get_end(&self) -> (end: &str)
        ensures
            end@ == text_or(self.fields.end_fb, NA_STRING@),
    {
        get_wrapped_or_na(&self.fields.end_fb)
    }

    /// The team that does the work.
    pub fn get_team(&self) -> (team: &str)
        ensures
            team@ == text_or(self.fields.team, NA_STRING@),
    {
        get_wrapped_or_na(&self.fields.team)
    }

    /// The milestone the work is aimed at.
    pub fn get_target(&self) -> (target: &str)
        ensures
            target@ == text_or(self.fields.target_pt, NA_STRING@),
    {
        get_wrapped_or_na(&self.fields.target_pt)
    }

    /// The tracker's name for the activity.
    #[verifier::loop_isolation(false)]
    pub fn get_type(&self) -> (kind: &str)
        ensures
            kind@ == type_text(self.fields.activity_type),
    {
        match &self.fields.activity_type {
            Field::Object(attrs) => {
                let mut i: usize = 0;
                while i < attrs.len()
                    invariant
                        i <= attrs.len(),
                        attr_from(attrs@, "value"@, 0) == attr_from(attrs@, "value"@, i as int),
                    decreases attrs.len() - i,
                {
                    if same_text(attrs[i].0.as_str(), "value") {
                        return match &attrs[i].1 {
                            Field::Text(x) => x.as_str(),
                            _ => NA_STRING,
                        };
                    }
                    i = i + 1;
                }
                NA_STRING
            },
            _ => NA_STRING,
        }
    }

    /// The estimate in hours.
    pub fn get_efforts(&self) -> (hours: i32)
        ensures
            hours == efforts_of(self.fields.original_eff),
    {
        match self.fields.original_eff {
            Field::Number { whole: Some(seconds), .. } => {
                #[verifier::truncate]
                ((seconds / 3600) as i32)
            },
            _ => -1,
        }
    }
}

/// The names of the fields a competence-area item is made from.
pub open spec fn ca_field_names() -> Seq<Seq<char>> {
    seq![
        CA_FIELDS_FEATUREID@,
        CA_FIELDS_SUMMARY@,
        CA_FIELDS_TEAM@,
        CA_FIELDS_TYPE@,
        CA_FIELDS_STARTFB@,
        CA_FIELDS_ENDFB@,
        CA_FIELDS_ORIG_EFF@,
        CA_FIELDS_TARGET@,
    ]
}

impl ParsedData for Issue<CAFields> {
    fn get_field_list() -> (names: Vec<String>)
        ensures
            names.deep_view() == ca_field_names(),
    {
        let mut names: Vec<String> = Vec::new();
        names.push(String::from_str(CA_FIELDS_FEATUREID));
        names.push(String::from_str(CA_FIELDS_SUMMARY));
        names.push(String::from_str(CA_FIELDS_TEAM));
        names.push(String::from_str(CA_FIELDS_TYPE));
        names.push(String::from_str(CA_FIELDS_STARTFB));
        names.push(String::from_str(CA_FIELDS_ENDFB));
        names.push(String::from_str(CA_FIELDS_ORIG_EFF));
        names.push(String::from_str(CA_FIELDS_TARGET));
        proof {
            assert(names.deep_view() =~= ca_field_names());
        }
        names
    }
}

} // verus!
