use jira_reporter::checkers::ca::caissue::CAFields;
use jira_reporter::checkers::ca::caitem::CAItem;
use jira_reporter::checkers::ca::pipeline::lead_time;
use jira_reporter::checkers::ca::pipeline::PipelineInfo;
use jira_reporter::checkers::ca::timeline::calculate_timeline;
use jira_reporter::checkers::ca::timeline::get_system_split;
use jira_reporter::checkers::ca::timeline::TimeLineInfo;
use jira_reporter::checkers::utils::Field;
use jira_reporter::query::issue::Issue;

fn text(value: &str) -> Field {
    Field::Text(value.to_string())
}

fn get_test_item() -> CAItem {
    let issue = Issue {
        expand: String::new(),
        id: String::new(),
        self_link: String::new(),
        key: String::new(),
        fields: CAFields {
            summary: "Fid-A-a - description".to_string(),
            feature_id: text("Feature_ID"),
            team: text("X"),
            target_pt: text("PT4"),
            start_fb: text("1808"),
            end_fb: text("1809"),
            original_eff: Field::Number {
                whole: Some(24000),
                cut: 24000,
            },
            activity_type: Field::Object(vec![("value".to_string(), text("SW"))]),
        },
    };
    CAItem::from(&issue)
}

#[test]
fn should_get_schedule_info_without_round() {
    let item = get_test_item();
    let pipeline_info = PipelineInfo::from_item(&item);
    let (start, span) = pipeline_info.get_sched(1807);
    assert_eq!(start, 1);
    assert_eq!(span, 2);
    assert_eq!(pipeline_info.start_fb, 1808);
    assert_eq!(pipeline_info.end_fb, 1809);
    assert_eq!(pipeline_info.team, "X");
}

#[test]
fn should_get_shecule_info_with_rounded_plan() {
    let mut item = get_test_item();
    item.end_fb = 1901; //start = 1807

    let pipeline_info = PipelineInfo::from_item(&item);
    let (start, span) = pipeline_info.get_sched(1807);
    assert_eq!(start, 1);
    assert_eq!(span, 7);
}

#[test]
fn should_get_shecule_info_with_unknown_plan() {
    let mut item = get_test_item();
    item.start_fb = 9999;
    item.end_fb = 9999; //start = 1807

    let pipeline_info = PipelineInfo::from_item(&item);
    let (start, span) = pipeline_info.get_sched(1807);
    assert_eq!(start, 20);
    assert_eq!(span, 1);
}

#[test]
fn should_get_shecule_info_with_started_before_first() {
    let mut item = get_test_item();
    item.start_fb = 1801;
    item.end_fb = 1807;

    let pipeline_info = PipelineInfo::from_item(&item);
    let (start, span) = pipeline_info.get_sched(1806);
    assert_eq!(start, 0);
    assert_eq!(span, 2);
}

#[test]
fn should_generate_pipeline_item_without_rounding() {
    check_pipeline_for(
        1808,
        1809,
        "Fid-A-a        |description                   |SW |X       |    |    |x   |x   |    |    ",
    );
}

#[test]
fn should_generate_pipeline_item_with_long_leading() {
    check_pipeline_for(
        1808,
        1901,
        "Fid-A-a        |description                   |SW |X       |    |    |x   |x   |x   |x   ",
    );
}

#[test]
fn should_generate_pipeline_item_with_unplanned() {
    check_pipeline_for(
        9999,
        9999,
        "Fid-A-a        |description                   |SW |X       |    |    |    |    |    |x   ",
    );
}

#[test]
fn should_generate_pipeline_item_with_planned_until_last() {
    check_pipeline_for(
        1808,
        1810,
        "Fid-A-a        |description                   |SW |X       |    |    |x   |x   |x   |    ",
    );
}

#[test]
fn should_generate_pipeline_item_with_planned_no_ending() {
    check_pipeline_for(
        1808,
        9999,
        "Fid-A-a        |description                   |SW |X       |    |    |x   |x   |x   |x   ",
    );
}

#[test]
fn should_generate_pipeline_item_with_start_as_first() {
    check_pipeline_for(
        1806,
        1808,
        "Fid-A-a        |description                   |SW |X       |x   |x   |x   |    |    |    ",
    );
}

#[test]
fn should_generate_pipeline_item_with_done_before_first() {
    check_pipeline_for(
        1801,
        1802,
        "Fid-A-a        |description                   |SW |X       |    |    |    |    |    |    ",
    );
}

#[test]
fn should_generate_pipeline_item_with_start_before_first() {
    check_pipeline_for(
        1801,
        1807,
        "Fid-A-a        |description                   |SW |X       |x   |x   |    |    |    |    ",
    );
}

fn check_pipeline_for(start: u32, end: u32, expected: &str) {
    let mut item = get_test_item();
    item.start_fb = start;
    item.end_fb = end;
    let p = PipelineInfo::from_item(&item);
    let line = p.generate_schedule_row(1806, 6);
    assert_eq!(line, expected);
}

#[test]
fn should_extract_system_level_split() {
    assert_eq!(get_system_split("Feature-A-b"), "Feature-A");
    assert_eq!(get_system_split("Feature-A-b1"), "Feature-A");
    assert_eq!(get_system_split("Feature-A"), "Feature-A");
    assert_eq!(get_system_split("Feature"), "Feature");
    assert_eq!(get_system_split("Feature-A-b1/b2/b3"), "Feature-A");
}

#[test]
fn system_split_of_odd_identifiers() {
    assert_eq!(get_system_split(""), "");
    assert_eq!(get_system_split("-"), "-");
    assert_eq!(get_system_split("--"), "-");
    assert_eq!(get_system_split("Löwe-老虎-x"), "Löwe-老虎");
}

#[test]
fn row_cuts_columns_by_bytes_and_fills_them_by_characters() {
    let mut item = get_test_item();
    item.sub_id = "Sub-feature-with-a-long-name".to_string();
    item.description = "first line\nsecond line".to_string();
    item.team = "Löwenzahn".to_string();
    item.start_fb = 1806;
    item.end_fb = 1806;
    let p = PipelineInfo::from_item(&item);
    assert_eq!(
        p.generate_schedule_row(1806, 2),
        "Sub-feature-wit|first line                    |SW |Löwenza |x   |    "
    );
    assert_eq!(
        p.generate_schedule_row(1806, 1),
        "Sub-feature-wit|first line                    |SW |Löwenza |x   "
    );
}

#[test]
fn row_of_an_item_that_starts_behind_the_chart_is_marked_at_its_end() {
    let mut item = get_test_item();
    item.start_fb = 1812;
    item.end_fb = 1813;
    let p = PipelineInfo::from_item(&item);
    assert_eq!(
        p.generate_schedule_row(1806, 3),
        "Fid-A-a        |description                   |SW |X       |    |    |x   "
    );
}

#[test]
fn item_that_ends_before_it_starts_takes_one_column() {
    let mut item = get_test_item();
    item.start_fb = 1810;
    item.end_fb = 1808;
    let p = PipelineInfo::from_item(&item);
    assert_eq!(p.get_sched(1806), (4, 1));
    assert_eq!(p.get_sched(1811), (0, 0));
}

#[test]
fn lead_time_counts_both_ends_and_skips_the_unused_numbers() {
    assert_eq!(lead_time(1808, 1808), 1);
    assert_eq!(lead_time(1808, 1809), 2);
    assert_eq!(lead_time(1801, 1812), 12);
    assert_eq!(lead_time(1813, 1901), 2);
    assert_eq!(lead_time(1808, 1901), 7);
    assert_eq!(lead_time(1808, 9999), 8105);
    assert_eq!(TimeLineInfo::get_lead_time(1808, 1901), 7);
}

#[test]
fn lead_time_wraps_around() {
    // Thirteen to eighty-six builds are no span that feature builds can have.
    assert_eq!(lead_time(1808, 1850), 43u32.wrapping_sub(87));
    assert_eq!(lead_time(1809, 1808), 0);
    assert_eq!(lead_time(1810, 1808), u32::MAX - 87);
    assert_eq!(lead_time(0, u32::MAX), 0);
}

#[test]
fn timeline_spans_from_first_start_to_last_end() {
    let info = calculate_timeline(&vec![(1808, 1810), (1806, 1807), (1809, 1901)]);
    assert_eq!(info.start_first, 1806);
    assert_eq!(info.start_last, 1809);
    assert_eq!(info.end_first, 1807);
    assert_eq!(info.end_last, 1901);
    assert_eq!(info.lead_time, 9);
}

#[test]
fn timeline_of_a_single_item() {
    let info = calculate_timeline(&vec![(1808, 1810)]);
    assert_eq!(info.start_first, 1808);
    assert_eq!(info.start_last, 1808);
    assert_eq!(info.end_first, 1810);
    assert_eq!(info.end_last, 1810);
    assert_eq!(info.lead_time, 3);
}

#[test]
fn timeline_info_keeps_what_it_is_given() {
    let info = TimeLineInfo::new(1, 2, 3, 4);
    assert_eq!(
        (info.start_first, info.start_last, info.end_first, info.end_last, info.lead_time),
        (1, 2, 3, 4, 4)
    );
}
