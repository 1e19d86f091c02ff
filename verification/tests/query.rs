use jira_reporter::query::batch::wire_request;
use jira_reporter::query::batch::Query;
use jira_reporter::query::result::QueryResult;

fn create_query() -> (Query, String) {
    (
        Query::new(
            "Project = FPB".to_string(),
            100,
            vec![
                String::from("summary"),
                String::from("status"),
                String::from("assignee"),
            ],
        ),
        r#"{"jql":"Project = FPB","startAt":0,"maxResults":100,"fields":["summary","status","assignee"]}"#
            .to_string(),
    )
}

#[test]
fn shall_create_correct_query() {
    let (qry, expected_json) = create_query();
    if let Ok(json) = qry.to_json() {
        assert_eq!(expected_json, json);
    } else {
        assert!(false, "query failed!");
    }
}

#[test]
fn shall_create_paged_remaining() {
    let (qry, base_json) = create_query();
    let remainings = qry.create_remaining(300);
    assert_eq!(remainings.len(), 2);

    assert_eq!(
        base_json.replace(r#"startAt":0"#, r#"startAt":100"#),
        remainings[0].to_json().unwrap()
    );
    assert_eq!(
        base_json.replace(r#"startAt":0"#, r#"startAt":200"#),
        remainings[1].to_json().unwrap()
    );
}

fn remaining_offsets(page_size: usize, total: usize) -> Vec<usize> {
    let q = Query::new("x".to_string(), page_size, Vec::new());
    q.create_remaining(total)
        .iter()
        .map(|q| q.start_at())
        .collect()
}

#[test]
fn remaining_pages_follow_the_total() {
    assert_eq!(remaining_offsets(100, 250), vec![100, 200]);
    assert_eq!(remaining_offsets(100, 0), Vec::<usize>::new());
    assert_eq!(remaining_offsets(100, 1), Vec::<usize>::new());
    assert_eq!(remaining_offsets(100, 100), Vec::<usize>::new());
    assert_eq!(remaining_offsets(100, 101), vec![100]);
    assert_eq!(remaining_offsets(100, 200), vec![100]);
    assert_eq!(remaining_offsets(100, 201), vec![100, 200]);
    assert_eq!(remaining_offsets(1, 4), vec![1, 2, 3]);
    assert_eq!(remaining_offsets(7, 50).len(), 7);
}

#[test]
fn remaining_pages_near_the_largest_total() {
    let rest = remaining_offsets(usize::MAX / 2, usize::MAX);
    assert_eq!(rest, vec![usize::MAX / 2, usize::MAX - 1]);
}

#[test]
fn remaining_queries_keep_the_template() {
    let (qry, _) = create_query();
    for q in qry.create_remaining(1000) {
        assert_eq!(q.jql(), "Project = FPB");
        assert_eq!(q.max_results(), 100);
        assert_eq!(q.fields().len(), 3);
        assert_eq!(q.start_at() % 100, 0);
    }
}

#[test]
fn request_escapes_what_json_escapes() {
    let q = Query::new(
        "summary ~ \"a\\b\"\n".to_string(),
        5,
        vec!["tab\there".to_string()],
    );
    assert_eq!(
        q.to_json().unwrap(),
        r#"{"jql":"summary ~ \"a\\b\"\n","startAt":0,"maxResults":5,"fields":["tab\there"]}"#
    );
}

#[test]
fn request_without_fields_has_an_empty_list() {
    let q = Query::new("a".to_string(), 12345, Vec::new());
    assert_eq!(
        q.to_json().unwrap(),
        r#"{"jql":"a","startAt":0,"maxResults":12345,"fields":[]}"#
    );
}

#[test]
fn request_is_written_around_given_literals() {
    let body = wire_request(
        "\"x\"",
        18446744073709551615,
        10,
        &vec!["\"a\"".to_string(), "\"b\"".to_string()],
    );
    assert_eq!(
        body,
        r#"{"jql":"x","startAt":18446744073709551615,"maxResults":10,"fields":["a","b"]}"#
    );
}

#[test]
fn moved_query_changes_its_offset_only() {
    let (qry, _) = create_query();
    let moved = qry.at_offset(700);
    assert_eq!(moved.start_at(), 700);
    assert_eq!(moved.jql(), qry.jql());
    assert_eq!(moved.fields(), qry.fields());
    assert_eq!(moved.max_results(), 100);
    assert_eq!(qry.start_at(), 0);
}

#[test]
fn merge_appends_and_overwrites_metadata() {
    let mut acc: QueryResult<u32> = QueryResult::default(100);
    assert_eq!(acc.total, 100);
    assert_eq!(acc.start_at, 0);
    assert_eq!(acc.max_results, 100);
    assert!(acc.issues.is_empty());
    acc.collect_from(QueryResult {
        expand: "names".to_string(),
        start_at: 200,
        max_results: 50,
        total: 230,
        issues: vec![7, 8],
    });
    acc.collect_from(QueryResult {
        expand: "schema".to_string(),
        start_at: 0,
        max_results: 60,
        total: 231,
        issues: vec![1, 7],
    });
    assert_eq!(acc.issues, vec![7, 8, 1, 7]);
    assert_eq!(acc.total, 231);
    assert_eq!(acc.start_at, 0);
    assert_eq!(acc.max_results, 60);
    assert_eq!(acc.expand, "schema");
}
