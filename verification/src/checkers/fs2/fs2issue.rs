//! An effort estimation as the tracker returns it.

use vstd::prelude::*;
use vstd::string::StringExecFns;
use crate::checkers::datatypes::ParsedData;
use crate::checkers::utils::Field;
use crate::checkers::utils::NA_STRING;
use crate::checkers::utils::attr_text;
use crate::checkers::utils::get_releases_from;
use crate::checkers::utils::get_wrapped_object_attr;
use crate::checkers::utils::get_wrapped_or_na;
use crate::checkers::utils::get_wrapped_string;
use crate::checkers::utils::releases_text;
use crate::checkers::utils::text_or;
use crate::query::issue::Issue;
use crate::text::decimal;
use crate::text::push_decimal;

verus! {

pub const FS2EE_FIELDS_SUMMARY: &'static str = "summary";

pub const FS2EE_FIELDS_DESCRIPT: &'static str = "description";

pub const FS2EE_FIELDS_STATUS: &'static str = "status";

pub const FS2EE_FIELDS_TITLE: &'static str = "customfield_38703";

pub const FS2EE_FIELDS_EE: &'static str = "customfield_38692";

pub const FS2EE_FIELDS_RELEASE: &'static str = "customfield_38724";

/// The fields of an effort estimation.
pub struct Fs2Fields {
    pub efforts: Field,
    pub title: Field,
    pub release: Field,
    pub summary: String,
    pub description: Field,
    pub status: Field,
}

/// An effort estimation as the tracker returns it.
pub type Fs2Issue = Issue<Fs2Fields>;

/// The estimated efforts: the number in the field, cut to a `u32`.
pub open spec fn estimate_of(efforts: Field) -> Option<u32> {
    match efforts {
        Field::Number { cut, .. } => Some(cut),
        _ => None,
    }
}

/// The estimated efforts as the reports show them.
pub open spec fn estimate_text(efforts: Field) -> Seq<char> {
    match estimate_of(efforts) {
        Some(effort) => decimal(effort as nat),
        None => NA_STRING@,
    }
}

impl Issue<Fs2Fields> {
    /// The estimated efforts as the reports show them.
    pub fn get_efforts_display(&self) -> (text: String)
        ensures
            text@ == estimate_text(self.fields.efforts),
    {
        match self.get_efforts() {
            Some(effort) => {
                let mut text = String::new();
                push_decimal(&mut text, effort as u64);
                text
            },
            None => String::from_str(NA_STRING),
        }
    }

    /// The title as the reports show it.
    pub fn get_title_display(&self) -> (title: String)
        ensures
            title@ == text_or(self.fields.title, NA_STRING@),
    {
        String::from_str(get_wrapped_or_na(&self.fields.title))
    }

    /// Whether efforts have been estimated.
    pub fn has_efforts(&self) -> (has: bool)
        ensures
            has == estimate_of(self.fields.efforts) is Some,
    {
        self.get_efforts().is_some()
    }

    /// The estimated efforts.
    pub fn get_efforts(&self) -> (efforts: Option<u32>)
        ensures
            efforts == estimate_of(self.fields.efforts),
    {
        match self.fields.efforts {
            Field::Number { cut, .. } => Some(cut),
            _ => None,
        }
    }

    /// The description; empty where there is none.
    pub fn get_description(&self) -> (description: String)
        ensures
            description@ == text_or(self.fields.description, Seq::empty()),
    {
        proof {
            reveal_strlit("");
        }
        String::from_str(get_wrapped_string(&self.fields.description, ""))
    }

    /// The releases the feature is planned for.
    pub fn get_release(&self) -> (release: String)
        ensures
            release@ == releases_text(self.fields.release),
    {
        get_releases_from(&self.fields.release)
    }

    /// The name of the status.
    pub fn get_status(&self) -> (status: String)
        ensures
            status@ == attr_text(self.fields.status, "name"@),
    {
        String::from_str(get_wrapped_object_attr(&self.fields.status, "name"))
    }
}

/// The names of the fields an effort estimation is made from.
pub open spec fn fs2_field_names() -> Seq<Seq<char>> {
    seq![
        FS2EE_FIELDS_SUMMARY@,
        FS2EE_FIELDS_TITLE@,
        FS2EE_FIELDS_EE@,
        FS2EE_FIELDS_RELEASE@,
        FS2EE_FIELDS_DESCRIPT@,
        FS2EE_FIELDS_STATUS@,
    ]
}

impl ParsedData for Issue<Fs2Fields> {
    fn get_field_list() -> (names: Vec<String>)
        ensures
            names.deep_view() == fs2_field_names(),
    {
        let mut names: Vec<String> = Vec::new();
        names.push(String::from_str(FS2EE_FIELDS_SUMMARY));
        names.push(String::from_str(FS2EE_FIELDS_TITLE));
        names.push(String::from_str(FS2EE_FIELDS_EE));
        names.push(String::from_str(FS2EE_FIELDS_RELEASE));
        names.push(String::from_str(FS2EE_FIELDS_DESCRIPT));
        names.push(String::from_str(FS2EE_FIELDS_STATUS));
        proof {
            assert(names.deep_view() =~= fs2_field_names());
        }
        names
    }
}

} // verus!
