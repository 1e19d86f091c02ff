use std::cmp::Ordering;

use jira_reporter::checkers::datatypes::ParsedData;
use jira_reporter::checkers::datatypes::StoredData;
use jira_reporter::checkers::sys::syschecker::analyze_results;
use jira_reporter::checkers::sys::syschecker::dump_all;
use jira_reporter::checkers::sys::sysissue::SysFields;
use jira_reporter::checkers::sys::sysissue::SysIssue;
use jira_reporter::checkers::sys::sysitem::SysItem;
use jira_reporter::checkers::utils::Field;
use jira_reporter::query::issue::Issue;

fn text(value: &str) -> Field {
    Field::Text(value.to_string())
}

fn object(attrs: Vec<(&str, Field)>) -> Field {
    Field::Object(attrs.into_iter().map(|(k, v)| (k.to_string(), v)).collect())
}

/// The issue of the tracker's sample feature: no area and no title.
fn get_test_issue() -> SysIssue {
    Issue {
        expand: "operations,versionedRepresentations,editmeta,changelog,renderedFields"
            .to_string(),
        id: "4280470".to_string(),
        self_link: "https://jiradc.int.net.nokia.com/rest/api/2/issue/4280470".to_string(),
        key: "FFB-8738".to_string(),
        fields: SysFields {
            summary: "Sample 5G Feature | 5GC008888".to_string(),
            area: Field::Null,
            release: Field::List(vec![object(vec![
                (
                    "self",
                    text("https://jiradc.int.net.nokia.com/rest/api/2/customFieldOption/209818"),
                ),
                ("value", text("5G Future Release")),
                ("id", text("209818")),
            ])]),
            title: Field::Null,
            status: object(vec![
                (
                    "self",
                    text("https://jiradc.int.net.nokia.com/rest/api/2/status/10044"),
                ),
                (
                    "description",
                    text("When new FI, User Story or Task is created."),
                ),
                ("name", text("New")),
                ("id", text("10044")),
                (
                    "statusCategory",
                    object(vec![
                        ("id", Field::Number { whole: Some(2), cut: 2 }),
                        ("key", text("new")),
                        ("name", text("To Do")),
                    ]),
                ),
            ]),
        },
    }
}

fn get_test_item() -> SysItem {
    SysItem::from(&get_test_issue())
}

#[test]
fn should_parse_fid_from_summary_line() {
    let item = get_test_item();
    assert_eq!(item.get_fid(), "Sample");
}

#[test]
fn should_filter_oam_area_by_first_world_with_given_kws() {
    let mut item = get_test_item();
    item.area = "OAM - XXX".to_string();
    assert!(item.is_oam_feature(), "{:?}", item);

    let mut item1 = item.clone();
    item1.area = "Operability xxx".to_string();
    assert!(item1.is_oam_feature(), "{:?}", item);
}

#[test]
fn feature_is_taken_from_the_issue() {
    let issue = get_test_issue();
    assert_eq!(issue.get_title(), "NA");
    assert_eq!(issue.get_release(), "5G Future Release");
    assert_eq!(issue.get_status(), "New");
    assert_eq!(issue.get_area(), "");
    let item = SysItem::parse_from(&issue);
    assert_eq!(item.summary, "Sample 5G Feature | 5GC008888");
    assert_eq!(item.title, "NA");
    assert_eq!(item.release, "5G Future Release");
    assert_eq!(item.status, "New");
    assert_eq!(item.area, "");
    assert_eq!(item.key, "FFB-8738");
}

#[test]
fn feature_with_title_and_area() {
    let mut issue = get_test_issue();
    issue.fields.title = text("20 MHz cell bandwidth");
    issue.fields.area = text("RAN OAM");
    assert_eq!(issue.get_title(), "20 MHz cell bandwidth");
    assert_eq!(issue.get_area(), "RAN OAM");
    assert!(SysItem::from(&issue).is_oam_feature());
}

#[test]
fn other_areas_are_no_oam_features() {
    let mut item = get_test_item();
    assert!(!item.is_oam_feature());
    item.area = "oam".to_string();
    assert!(!item.is_oam_feature());
    item.area = "Radio".to_string();
    assert!(!item.is_oam_feature());
}

#[test]
fn summary_without_space_is_the_identifier() {
    let mut item = get_test_item();
    item.summary = "5GC000123".to_string();
    assert_eq!(item.get_fid(), "5GC000123");
    item.summary = " leading".to_string();
    assert_eq!(item.get_fid(), "");
    item.summary = "Löwe 老虎".to_string();
    assert_eq!(item.get_fid(), "Löwe");
}

#[test]
fn sys_fields_are_asked_for() {
    assert_eq!(
        SysIssue::get_field_list(),
        vec![
            "summary",
            "customfield_38711",
            "status",
            "customfield_38703",
            "customfield_38724"
        ]
    );
}

#[test]
fn features_are_ordered_by_area_summary_status_and_key() {
    let base = get_test_item();
    let mut other = base.clone();
    assert_eq!(base.cmp(&other), Ordering::Equal);
    assert!(base == other);
    other.title = "another title".to_string();
    other.release = "another release".to_string();
    assert!(base == other);

    other.key = "FFB-8739".to_string();
    assert_eq!(base.cmp(&other), Ordering::Less);
    assert!(base < other);
    assert!(base != other);

    other.status = "Done".to_string();
    assert_eq!(base.cmp(&other), Ordering::Greater);

    other.summary = "Sample 5G Feature | 5GC008889".to_string();
    assert_eq!(base.cmp(&other), Ordering::Less);

    let mut first = other.clone();
    first.area = "A".to_string();
    other.area = "AB".to_string();
    assert_eq!(first.cmp(&other), Ordering::Less);
    assert_eq!(base.cmp(&first), Ordering::Less);
    assert!(other > first);
}

#[test]
fn report_lists_every_feature() {
    let mut long = get_test_item();
    long.area = "Operability and more".to_string();
    long.title = "A title\nin two lines".to_string();
    long.status = "In Progress".to_string();
    let report = dump_all(&vec![get_test_item(), long]);
    let banner = "-".repeat(76);
    let expected = [
        "@@ Feature analysis: 2 issues in total",
        banner.as_str(),
        "Sample 5G Feature | |            |NA                                      |FFB-8738  |New     |5G Future ",
        "Sample 5G Feature | |Operability |A title                                 |FFB-8738  |In Progr|5G Future ",
        "",
    ]
    .join("\n");
    assert_eq!(report, expected);
    assert_eq!(
        analyze_results(&vec![get_test_item()]),
        format!(
            "@@ Feature analysis: 1 issues in total\n{}\n{}\n",
            banner,
            "Sample 5G Feature | |            |NA                                      |FFB-8738  |New     |5G Future "
        )
    );
}

#[test]
fn report_on_no_feature() {
    assert_eq!(
        dump_all(&Vec::new()),
        format!("@@ Feature analysis: 0 issues in total\n{}\n", "-".repeat(76))
    );
}
