use jira_reporter::checkers::utils::get_leftmost;
use jira_reporter::checkers::utils::get_releases_from;
use jira_reporter::checkers::utils::get_wrapped_object_attr;
use jira_reporter::checkers::utils::get_wrapped_or_na;
use jira_reporter::checkers::utils::get_wrapped_string;
use jira_reporter::checkers::utils::Field;

#[test]
fn should_trim_newlines() {
    assert_eq!(get_leftmost("some name \n really long", 10), "some name ");
}

#[test]
fn should_trim_width_no_newline() {
    assert_eq!(get_leftmost("some name really lone", 10), "some name ");
}

#[test]
fn should_trim_shorter_string_newline() {
    assert_eq!(get_leftmost("some\nname", 10), "some");
}

#[test]
fn should_trim_shorter_string_no_newline() {
    assert_eq!(get_leftmost("some name", 10), "some name");
}

#[test]
fn should_get_leftmost_handle_unicode_str() {
    assert_eq!(get_leftmost("Some", 2), "So");
    assert_eq!(get_leftmost("Some", 10), "Some");
    assert_eq!(get_leftmost("Löwe 老虎", 2), "Lö");
    assert_eq!(get_leftmost("Löwe 老虎", 5), "Löwe");
}

#[test]
fn leftmost_at_the_edges() {
    assert_eq!(get_leftmost("", 0), "");
    assert_eq!(get_leftmost("", 3), "");
    assert_eq!(get_leftmost("abc", 0), "");
    assert_eq!(get_leftmost("\nabc", 2), "");
    assert_eq!(get_leftmost("老虎", 0), "");
    assert_eq!(get_leftmost("老虎", 1), "老");
    assert_eq!(get_leftmost("老虎", 3), "老");
    assert_eq!(get_leftmost("老虎", 4), "老虎");
    assert_eq!(get_leftmost("ab\n", 2), "ab");
    assert_eq!(get_leftmost("abc\n", 2), "ab");
}

fn text(value: &str) -> Field {
    Field::Text(value.to_string())
}

fn object(attrs: Vec<(&str, Field)>) -> Field {
    Field::Object(attrs.into_iter().map(|(k, v)| (k.to_string(), v)).collect())
}

#[test]
fn releases_are_joined_by_commas() {
    let release = Field::List(vec![
        object(vec![("id", text("1")), ("value", text("5G19"))]),
        object(vec![("value", text(""))]),
        text("stray"),
        object(vec![("name", text("unnamed"))]),
        object(vec![("value", Field::Null)]),
        object(vec![("value", text("5G Future Release"))]),
    ]);
    assert_eq!(get_releases_from(&release), "5G19,5G Future Release");
    assert_eq!(get_releases_from(&Field::List(Vec::new())), "");
    assert_eq!(
        get_releases_from(&Field::List(vec![object(vec![("value", text("one"))])])),
        "one"
    );
    assert_eq!(get_releases_from(&Field::Null), "");
    assert_eq!(get_releases_from(&text("5G19")), "");
}

#[test]
fn attribute_of_an_object_is_read_as_text() {
    let status = object(vec![
        ("id", text("10044")),
        ("name", text("New")),
        ("name", text("Shadowed")),
        ("flag", Field::Flag(true)),
    ]);
    assert_eq!(get_wrapped_object_attr(&status, "name"), "New");
    assert_eq!(get_wrapped_object_attr(&status, "id"), "10044");
    assert_eq!(get_wrapped_object_attr(&status, "flag"), "");
    assert_eq!(get_wrapped_object_attr(&status, "missing"), "");
    assert_eq!(get_wrapped_object_attr(&text("New"), "name"), "");
}

#[test]
fn text_is_unwrapped_or_replaced() {
    assert_eq!(get_wrapped_or_na(&text("team")), "team");
    assert_eq!(get_wrapped_or_na(&Field::Null), "NA");
    assert_eq!(
        get_wrapped_or_na(&Field::Number {
            whole: Some(1),
            cut: 1
        }),
        "NA"
    );
    assert_eq!(get_wrapped_string(&text(""), "none"), "");
    assert_eq!(get_wrapped_string(&Field::List(Vec::new()), "none"), "none");
}
