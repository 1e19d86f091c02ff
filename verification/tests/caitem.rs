use std::cmp::Ordering;

use jira_reporter::checkers::ca::cachecker::cmp_with_prefix_as_equal;
use jira_reporter::checkers::ca::caissue::CAFields;
use jira_reporter::checkers::ca::caissue::CAIssue;
use jira_reporter::checkers::ca::caitem::Activity;
use jira_reporter::checkers::ca::caitem::CAItem;
use jira_reporter::checkers::utils::Field;
use jira_reporter::query::issue::Issue;

fn text(value: &str) -> Field {
    Field::Text(value.to_string())
}

/// The issue that the tracker returns for an item with this summary,
/// activity and team.
fn get_test_issue(summary: &str, activity: &str, team: &str) -> CAIssue {
    Issue {
        expand: String::new(),
        id: String::new(),
        self_link: String::new(),
        key: String::new(),
        fields: CAFields {
            summary: summary.to_string(),
            feature_id: text("Feature_ID"),
            team: text(team),
            target_pt: text("PT4"),
            start_fb: text("1808"),
            end_fb: text("1809"),
            original_eff: Field::Number {
                whole: Some(24000),
                cut: 24000,
            },
            activity_type: Field::Object(vec![("value".to_string(), text(activity))]),
        },
    }
}

#[test]
fn should_compare_with_same_prefix_as_equal() {
    assert_eq!(cmp_with_prefix_as_equal("AAA", "AAA-b"), Ordering::Equal);
    assert_eq!(cmp_with_prefix_as_equal("AAA", "AAA-B-c"), Ordering::Equal);
    assert_eq!(cmp_with_prefix_as_equal("AAA", "AAA"), Ordering::Equal);
}

#[test]
fn should_compare_with_different_prefix_by_strcmp() {
    assert_eq!(cmp_with_prefix_as_equal("AAA", "BBB-b"), Ordering::Less);
    assert_eq!(cmp_with_prefix_as_equal("BBB", "AAA-b"), Ordering::Greater);
}

#[test]
fn caitem_should_convert_parsed_fields() {
    let issue = get_test_issue("Feature_ID_xxx_yyy", "SW", "Team yyy");

    let converted = CAItem::from(&issue);
    assert_eq!(converted.summary, "Feature_ID_xxx_yyy");
    assert_eq!(converted.feature_id, "Feature_ID");
    assert_eq!(converted.team, "Team yyy");
    assert_eq!(converted.start_fb, 1808);
    assert_eq!(converted.end_fb, 1809);
    assert_eq!(converted.activity, Activity::SW);
}

#[test]
fn caitem_should_parse_desc_by_space() {
    let issue = get_test_issue("Leading - something else", "SW", "X");
    let converted = CAItem::from(&issue);

    assert_eq!(converted.sub_id, "Leading");
    assert_eq!(converted.description, "something else");
}

#[test]
fn caitem_parse_desc_by_special_chars() {
    let issue = get_test_issue("Leading \t \t something else", "SW", "Team yyy\t\t");
    let converted = CAItem::from(&issue);

    assert_eq!(converted.sub_id, "Leading");
    assert_eq!(converted.description, "something else");
    assert_eq!(converted.team, "Team yyy");
}

#[test]
fn caitem_should_translate_efs_type() {
    let issue = get_test_issue("Leading - something else", "Entity Specification", "X");
    assert_eq!(CAItem::from(&issue).activity, Activity::EFS);
}

#[test]
fn caitem_should_translate_et_type() {
    let issue = get_test_issue("Leading - something else", "Entity Testing", "X");
    assert_eq!(CAItem::from(&issue).activity, Activity::ET);
}

#[test]
fn caitem_should_compare_caitem_by_given_order() {
    let issue = get_test_issue("Leading - something else", "EFS", "X");
    let item = CAItem::from(&issue);

    let mut item1 = item.clone();
    item1.activity = Activity::SW;
    assert_eq!(item.cmp(&item1), Ordering::Less);

    let mut item2 = item1.clone();
    item2.start_fb = 1809;
    assert!(item1 < item2);

    let mut item3 = item2.clone();
    item3.end_fb = 1810;
    assert!(item2 < item3);

    let mut item4 = item3.clone();
    item4.activity = Activity::ET;
    assert!(item3 < item4);
}

#[test]
fn caitem_should_compare_by_subfid_for_same_feature() {
    let issue = get_test_issue("Feature-A-a - something else", "EFS", "X");
    let item = CAItem::from(&issue);

    let mut item1 = item.clone();
    item1.summary = "Feature-A-b - something else".to_string();
    item1.reparse();

    let mut item2 = item.clone();
    item2.summary = "Feature-A-a - something else".to_string();
    item2.activity = Activity::SW;
    item2.reparse();

    assert_eq!(item.cmp(&item1), Ordering::Less);
    assert_eq!(item.cmp(&item2), Ordering::Less);
    assert_eq!(item1.cmp(&item2), Ordering::Greater);
}

#[test]
fn caitem_should_sort_type_first_when_schedule_is_wrong() {
    let issue = get_test_issue("Leading - something else", "SW", "X");
    let item = CAItem::from(&issue);

    let mut item1 = item.clone();
    item1.end_fb = 1810;
    item1.activity = Activity::EFS;
    assert_eq!(item.cmp(&item1), Ordering::Greater);
}

#[test]
fn caitem_should_normalize_fid_dup_cp3() {
    parse_and_check_against(
        "Feature-A-a-CP3 something else",
        "Feature-A-a",
        "something else",
    );
}

#[test]
fn caitem_should_normalize_fid_dup_efs() {
    parse_and_check_against(
        "Feature-A-a-EFS something else",
        "Feature-A-a",
        "something else",
    );
}

#[test]
fn caitem_should_normalize_fid_dup_om_cp3() {
    parse_and_check_against(
        "Feature-A-a-OM-CP3 something else",
        "Feature-A-a",
        "something else",
    );
}

#[test]
fn caitem_should_normalize_fid_dup_oam() {
    parse_and_check_against(
        "Feature-A-a-OAM something else",
        "Feature-A-a",
        "something else",
    );
}

#[test]
fn caitem_should_normalize_fid_dup_om() {
    parse_and_check_against(
        "Feature-A-a-OM something else",
        "Feature-A-a",
        "something else",
    );
}

#[test]
fn caitem_should_normalize_fid_dup_cfam() {
    parse_and_check_against(
        "Feature-A-a-CFAM-xx something else",
        "Feature-A-a",
        "something else",
    );
}

#[test]
#[allow(non_snake_case)]
fn caitem_should_normalize_fid_dup_Ei() {
    parse_and_check_against(
        "Feature-A-a-Ei something else",
        "Feature-A-a",
        "something else",
    );
}

#[test]
#[allow(non_snake_case)]
fn caitem_should_normalize_fid_dup_EI() {
    parse_and_check_against(
        "Feature-A-a-EI something else",
        "Feature-A-a",
        "something else",
    );
}

#[test]
fn caitem_should_normalize_fid_with_ending_dash() {
    parse_and_check_against(
        "Feature-A-a2- something else",
        "Feature-A-a2",
        "something else",
    );
}

#[test]
fn caitem_should_normalize_fid_with_ending_colon() {
    parse_and_check_against(
        "Feature-A-a2: something else",
        "Feature-A-a2",
        "something else",
    );
}

#[test]
fn caitem_should_normalize_fid_with_leading_spaces() {
    parse_and_check_against(
        "      Feature-A-a2 something else",
        "Feature-A-a2",
        "something else",
    );
}

#[test]
fn caitem_should_normalize_fid_with_no_desc() {
    parse_and_check_against(" Feature-A-OM-CP3", "Feature-A", "");
}

fn parse_and_check_against(summary: &str, expected: &str, trailing: &str) {
    let summary = String::from(summary);
    let (subid, desc) = CAItem::get_summary(&summary);
    assert_eq!(subid, expected);
    assert_eq!(desc, trailing);
}

#[test]
fn issue_fields_are_read_with_their_defaults() {
    let mut issue = get_test_issue("Leading - something else", "SW", "X");
    assert_eq!(issue.get_fid(), "Feature_ID");
    assert_eq!(issue.get_start(), "1808");
    assert_eq!(issue.get_end(), "1809");
    assert_eq!(issue.get_team(), "X");
    assert_eq!(issue.get_target(), "PT4");
    assert_eq!(issue.get_type(), "SW");
    assert_eq!(issue.get_efforts(), 6);

    issue.fields.feature_id = Field::Null;
    issue.fields.start_fb = Field::Flag(true);
    issue.fields.end_fb = Field::List(Vec::new());
    issue.fields.team = Field::Null;
    issue.fields.target_pt = Field::Null;
    issue.fields.activity_type = Field::Object(vec![("name".to_string(), text("SW"))]);
    issue.fields.original_eff = Field::Null;
    assert_eq!(issue.get_fid(), "NA");
    assert_eq!(issue.get_start(), "NA");
    assert_eq!(issue.get_end(), "NA");
    assert_eq!(issue.get_team(), "NA");
    assert_eq!(issue.get_target(), "NA");
    assert_eq!(issue.get_type(), "NA");
    assert_eq!(issue.get_efforts(), -1);

    let item = CAItem::from(&issue);
    assert_eq!(item.feature_id, "NA");
    assert_eq!(item.team, "NA");
    assert_eq!(item.target, "NA");
    assert_eq!(item.start_fb, 9999);
    assert_eq!(item.end_fb, 9999);
    assert_eq!(item.activity, Activity::NA);
    assert_eq!(item.efforts, -1);

    issue.fields.activity_type = Field::Object(vec![("value".to_string(), Field::Null)]);
    assert_eq!(issue.get_type(), "NA");
    issue.fields.activity_type = text("SW");
    assert_eq!(issue.get_type(), "NA");
    issue.fields.original_eff = Field::Number { whole: None, cut: 7200 };
    assert_eq!(issue.get_efforts(), -1);
    issue.fields.original_eff = Field::Number { whole: Some(3599), cut: 3599 };
    assert_eq!(issue.get_efforts(), 0);
    issue.fields.original_eff = Field::Number { whole: Some(3600 * 0x1_0000_0001), cut: u32::MAX };
    assert_eq!(issue.get_efforts(), 1);
}

#[test]
fn items_are_equal_if_they_agree_in_place_summary_and_team() {
    let item = CAItem::from(&get_test_issue("Leading - something else", "SW", "X"));
    let mut other = item.clone();
    assert!(item == other);
    other.key = "another".to_string();
    other.description = "another".to_string();
    other.efforts = 7;
    other.target = "another".to_string();
    assert!(item == other);
    assert_eq!(item.cmp(&other), Ordering::Equal);
    other.team = "Y".to_string();
    assert!(item != other);
    assert_eq!(item.cmp(&other), Ordering::Equal);
    other.team = "X".to_string();
    other.summary = "Leading - something".to_string();
    assert!(item != other);
    other.summary = item.summary.clone();
    other.feature_id = "Feature_IE".to_string();
    assert!(item != other);
    assert!(item < other);
    assert_eq!(other.cmp(&item), Ordering::Greater);
}
