use std::cmp::Ordering;

use jira_reporter::checkers::datatypes::ParsedData;
use jira_reporter::checkers::datatypes::StoredData;
use jira_reporter::checkers::fs2::fs2checker::analyze_results;
use jira_reporter::checkers::fs2::fs2issue::Fs2Fields;
use jira_reporter::checkers::fs2::fs2issue::Fs2Issue;
use jira_reporter::checkers::fs2::fs2item::Fs2Item;
use jira_reporter::checkers::utils::Field;
use jira_reporter::query::issue::Issue;
use jira_reporter::query::result::QueryResult;

fn text(value: &str) -> Field {
    Field::Text(value.to_string())
}

fn object(attrs: Vec<(&str, Field)>) -> Field {
    Field::Object(attrs.into_iter().map(|(k, v)| (k.to_string(), v)).collect())
}

fn get_test_issue(summary: &str, efforts: Field, title: &str) -> Fs2Issue {
    Issue {
        expand: "operations, versionedRepresentations, editmeta, changelog, renderedFields"
            .to_string(),
        id: "2969769".to_string(),
        self_link: "https://jiradc.int.net.nokia.com/rest/api/2/issue/2969769".to_string(),
        key: "FPB-12512".to_string(),
        fields: Fs2Fields {
            summary: summary.to_string(),
            status: object(vec![("name", text("Done"))]),
            description: text("some desc"),
            release: Field::List(vec![object(vec![("value", text("rel1"))])]),
            efforts,
            title: text(title),
        },
    }
}

fn number(whole: Option<u64>, cut: u32) -> Field {
    Field::Number { whole, cut }
}

#[test]
fn efforts_are_read_from_numbers_only() {
    let issues = vec![
        get_test_issue(
            "5GC001000-EE-MANO MZ",
            number(None, 60),
            "20 MHz cell bandwidth for cmWave",
        ),
        get_test_issue("5GC0010xxx-EE-MANO MZ", Field::Null, "What ever in fp"),
        get_test_issue("5GC0010xxx-EE-MANO MZ", number(Some(0), 0), "What ever in fp"),
    ];
    let ees: Vec<Option<u32>> = issues.iter().map(|it| it.get_efforts()).collect();
    assert_eq!(ees, vec![Some(60), None, Some(0)]);
    let has: Vec<bool> = issues.iter().map(|it| it.has_efforts()).collect();
    assert_eq!(has, vec![true, false, true]);
    let shown: Vec<String> = issues.iter().map(|it| it.get_efforts_display()).collect();
    assert_eq!(shown, vec!["60", "NA", "0"]);
}

#[test]
fn estimation_is_taken_from_the_issue() {
    let issue = get_test_issue("5GC001000-EE-MANO MZ", number(Some(60), 60), "A title");
    assert_eq!(issue.get_title_display(), "A title");
    assert_eq!(issue.get_description(), "some desc");
    assert_eq!(issue.get_release(), "rel1");
    assert_eq!(issue.get_status(), "Done");
    let item = Fs2Item::parse_from(&issue);
    assert_eq!(item.summary, "5GC001000-EE-MANO MZ");
    assert_eq!(item.title, "A title");
    assert_eq!(item.efforts, 60);
    assert_eq!(item.release, "rel1");
    assert_eq!(item.description, "some desc");
    assert_eq!(item.status, "Done");
    assert!(item.has_efforts());
}

#[test]
fn estimation_without_values() {
    let mut issue = get_test_issue("S", Field::Null, "T");
    issue.fields.title = Field::Null;
    issue.fields.description = Field::Null;
    issue.fields.release = Field::Null;
    issue.fields.status = Field::Null;
    let item = Fs2Item::from(&issue);
    assert_eq!(item.title, "NA");
    assert_eq!(item.efforts, -1);
    assert_eq!(item.release, "");
    assert_eq!(item.description, "");
    assert_eq!(item.status, "");
    assert!(!item.has_efforts());
}

#[test]
fn efforts_keep_their_bits() {
    let item = Fs2Item::from(&get_test_issue("S", number(None, u32::MAX), "T"));
    assert_eq!(item.efforts, -1);
    let item = Fs2Item::from(&get_test_issue("S", number(None, 0x8000_0000), "T"));
    assert_eq!(item.efforts, i32::MIN);
}

#[test]
fn fs2_fields_are_asked_for() {
    assert_eq!(
        Fs2Issue::get_field_list(),
        vec![
            "summary",
            "customfield_38703",
            "customfield_38692",
            "customfield_38724",
            "description",
            "status"
        ]
    );
}

fn item(summary: &str, title: &str, efforts: i32, status: &str) -> Fs2Item {
    Fs2Item {
        summary: summary.to_string(),
        efforts,
        title: title.to_string(),
        release: "5G19,5G19A".to_string(),
        description: "first\nsecond".to_string(),
        status: status.to_string(),
    }
}

#[test]
fn estimations_are_ordered_by_summary_title_and_efforts() {
    let base = item("B", "t", 5, "Done");
    assert_eq!(base.cmp(&item("B", "t", 5, "Open")), Ordering::Equal);
    assert!(base == item("B", "t", 5, "Open"));
    assert_eq!(base.cmp(&item("B", "t", 6, "Done")), Ordering::Less);
    assert_eq!(base.cmp(&item("B", "t", -1, "Done")), Ordering::Greater);
    assert_eq!(base.cmp(&item("B", "s", 9, "Done")), Ordering::Greater);
    assert_eq!(base.cmp(&item("C", "a", 0, "Done")), Ordering::Less);
    assert!(base < item("BA", "", 0, ""));
    assert!(base != item("BA", "", 0, ""));
}

#[test]
fn report_lists_the_open_estimations() {
    let items = vec![
        item("5GC001000-EE-MANO MZ", "20 MHz cell bandwidth for cmWave and more", 60, "Done"),
        item("5GC001001", "no estimate", -1, "Done"),
        item("5GC001002", "not done", 12345, "Open"),
        item("5GC001003", "negative", -7, "Done"),
    ];
    let banner = "-".repeat(76);
    let expected = [
        "@@@ Total MZ FS2EE entries: 4, unresolved: 2",
        banner.as_str(),
        "5GC001001|no estimate                    |5G19,5G19A  |    -1|first                                   ",
        "5GC001002|not done                       |5G19,5G19A  | 12345|first                                   ",
        banner.as_str(),
        "@@@ Solved efforts are: 12398 with 2 features",
        "",
    ]
    .join("\n");
    assert_eq!(analyze_results(&items, &Vec::new()), expected);
}

#[test]
fn report_on_no_estimation() {
    let banner = "-".repeat(76);
    assert_eq!(
        analyze_results(&Vec::new(), &Vec::new()),
        format!(
            "@@@ Total MZ FS2EE entries: 0, unresolved: 0\n{}\n{}\n@@@ Solved efforts are: 0 with 0 features\n",
            banner, banner
        )
    );
}

#[test]
fn solved_efforts_wrap_around() {
    let items = vec![
        item("a", "t", i32::MAX, "Done"),
        item("b", "t", 1, "Done"),
    ];
    let report = analyze_results(&items, &Vec::new());
    assert!(report.ends_with("@@@ Solved efforts are: -2147483648 with 2 features\n"));
}

#[test]
fn shall_parse_search_result() {
    let qry_result: QueryResult<Fs2Issue> = QueryResult {
        expand: "schema, names".to_string(),
        start_at: 0,
        max_results: 3,
        total: 179,
        issues: vec![
            get_test_issue(
                "5GC001000-EE-MANO MZ",
                number(None, 60),
                "20 MHz cell bandwidth for cmWave",
            ),
            get_test_issue("5GC0010xxx-EE-MANO MZ", Field::Null, "What ever in fp"),
            get_test_issue("5GC0010xxx-EE-MANO MZ", number(None, 0), "What ever in fp"),
        ],
    };
    assert_eq!(qry_result.total, 179);
    assert_eq!(qry_result.start_at, 0);
    let issues = qry_result.issues;
    assert_eq!(issues.len(), 3);

    let ees: Vec<Option<u32>> = issues.iter().map(|it| it.get_efforts()).collect();
    assert_eq!(ees, vec![Some(60), None, Some(0)]);
}
