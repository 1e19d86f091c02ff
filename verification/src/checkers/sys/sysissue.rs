//! A customer feature as the tracker returns it.

use vstd::prelude::*;
use vstd::string::StringExecFns;
use crate::checkers::datatypes::ParsedData;
use crate::checkers::utils::Field;
use crate::checkers::utils::NA_STRING;
use crate::checkers::utils::attr_text;
use crate::checkers::utils::get_releases_from;
use crate::checkers::utils::get_wrapped_object_attr;
use crate::checkers::utils::get_wrapped_string;
use crate::checkers::utils::releases_text;
use crate::checkers::utils::text_or;
use crate::query::issue::Issue;

verus! {

pub const SYS_FIELDS_SUMMARY: &'static str = "summary";

pub const SYS_FIELDS_AREA: &'static str = "customfield_38711";

pub const SYS_FIELDS_STATUS: &'static str = "status";

pub const SYS_FIELDS_TITLE: &'static str = "customfield_38703";

pub const SYS_FIELDS_RELEASE: &'static str = "customfield_38724";

/// The fields of a customer feature.
pub struct SysFields {
    pub title: Field,
    pub release: Field,
    pub summary: String,
    pub area: Field,
    pub status: Field,
}

/// A customer feature as the tracker returns it.
pub type SysIssue = Issue<SysFields>;

impl Issue<SysFields> {
    /// The title; `"NA"` where there is none.
    pub fn get_title(&self) -> (title: String)
        ensures
            title@ == text_or(self.fields.title, NA_STRING@),
    {
        String::from_str(get_wrapped_string(&self.fields.title, NA_STRING))
    }

    /// The releases the feature is planned for.
    pub fn get_release(&self) -> (release: String)
        ensures
            release@ == releases_text(self.fields.release),
    {
        get_releases_from(&self.fields.release)
    }

    /// The name of the status.
    pub fn get_status(&self) -> (status: String)
        ensures
            status@ == attr_text(self.fields.status, "name"@),
    {
        String::from_str(get_wrapped_object_attr(&self.fields.status, "name"))
    }

    /// The area; empty where there is none.
    pub fn get_area(&self) -> (area: String)
        ensures
            area@ == text_or(self.fields.area, Seq::empty()),
    {
        proof {
            reveal_strlit("");
        }
        String::from_str(get_wrapped_string(&self.fields.area, ""))
    }
}

/// The names of the fields a customer feature is made from.
pub open spec fn sys_field_names() -> Seq<Seq<char>> {
    seq![
        SYS_FIELDS_SUMMARY@,
        SYS_FIELDS_AREA@,
        SYS_FIELDS_STATUS@,
        SYS_FIELDS_TITLE@,
        SYS_FIELDS_RELEASE@,
    ]
}

impl ParsedData for Issue<SysFields> {
    fn get_field_list() -> (names: Vec<String>)
        ensures
            names.deep_view() == sys_field_names(),
    {
        let mut names: Vec<String> = Vec::new();
        names.push(String::from_str(SYS_FIELDS_SUMMARY));
        names.push(String::from_str(SYS_FIELDS_AREA));
        names.push(String::from_str(SYS_FIELDS_STATUS));
        names.push(String::from_str(SYS_FIELDS_TITLE));
        names.push(String::from_str(SYS_FIELDS_RELEASE));
        proof {
            assert(names.deep_view() =~= sys_field_names());
        }
        names
    }
}

} // verus!
