use jira_reporter::checkers::ca::caitem::convert_fb;
use jira_reporter::checkers::ca::caitem::get_substr_until;
use jira_reporter::checkers::ca::caitem::get_substr_until_one_of;
use jira_reporter::checkers::ca::caitem::trim_as_sub_fid;
use jira_reporter::checkers::ca::caitem::trim_leading_puncs;
use jira_reporter::checkers::ca::caitem::Activity;
use jira_reporter::checkers::ca::caitem::CAItem;
use jira_reporter::text::chars_of;
use jira_reporter::text::contains;
use jira_reporter::text::cut_trailing;
use jira_reporter::text::find_member;
use jira_reporter::text::lex_sign;
use jira_reporter::text::matches_at;
use jira_reporter::text::member;
use jira_reporter::text::numeral;
use jira_reporter::text::parse_u32;
use jira_reporter::text::push_decimal;
use jira_reporter::text::push_padded;
use jira_reporter::text::push_padded_left;
use jira_reporter::text::rfind_text;
use jira_reporter::text::same_text;
use jira_reporter::text::skip_leading;
use jira_reporter::text::slice_of;
use jira_reporter::text::text_of;

fn chars(s: &str) -> Vec<char> {
    s.chars().collect()
}

fn text(v: Vec<char>) -> String {
    v.into_iter().collect()
}

#[test]
fn characters_are_taken_one_by_one() {
    assert_eq!(chars_of("Löwe 老虎"), chars("Löwe 老虎"));
    assert_eq!(chars_of(""), Vec::<char>::new());
    assert_eq!(text_of(&chars("Löwe 老虎"), 1, 6), "öwe 老");
    assert_eq!(text_of(&chars("abc"), 2, 2), "");
    assert_eq!(slice_of(&chars("abc"), 0, 3), chars("abc"));
    assert_eq!(slice_of(&chars("abc"), 1, 2), chars("b"));
}

#[test]
fn numbers_are_written_in_decimal() {
    let mut out = "n=".to_string();
    push_decimal(&mut out, 0);
    push_decimal(&mut out, 7);
    push_decimal(&mut out, 10);
    push_decimal(&mut out, 18446744073709551615);
    assert_eq!(out, "n=071018446744073709551615");
    assert_eq!(text(numeral(0)), "0");
    assert_eq!(text(numeral(-1)), "-1");
    assert_eq!(text(numeral(1203)), "1203");
    assert_eq!(text(numeral(i64::MAX)), "9223372036854775807");
    assert_eq!(text(numeral(i64::MIN)), "-9223372036854775808");
}

#[test]
fn numbers_are_read_as_the_standard_library_reads_them() {
    for s in [
        "0", "7", "1808", "0001808", "+5", "+0", "4294967295", "4294967296", "99999999999999999999",
        "", "+", "-", "-1", "++1", "+-1", "1+", " 1", "1 ", "1_0", "0x10", "१", "1.0", "NA",
    ] {
        assert_eq!(parse_u32(&chars(s)), u32::from_str_radix(s, 10).ok(), "{:?}", s);
    }
    assert_eq!(parse_u32(&chars("1808")), Some(1808));
    assert_eq!(parse_u32(&chars("4294967295")), Some(u32::MAX));
    assert_eq!(parse_u32(&chars("4294967296")), None);
}

#[test]
fn feature_build_defaults_to_9999() {
    assert_eq!(convert_fb("1808"), 1808);
    assert_eq!(convert_fb("NA"), 9999);
    assert_eq!(convert_fb(""), 9999);
    assert_eq!(convert_fb("18.08"), 9999);
    assert_eq!(convert_fb("+1808"), 1808);
}

#[test]
fn columns_are_filled_with_spaces() {
    let mut out = String::new();
    push_padded(&mut out, &chars("ab"), 4);
    out.push('|');
    push_padded(&mut out, &chars("abcdef"), 4);
    out.push('|');
    push_padded(&mut out, &chars(""), 0);
    out.push('|');
    push_padded(&mut out, &chars("老虎"), 3);
    out.push('|');
    push_padded_left(&mut out, &chars("42"), 4);
    out.push('|');
    push_padded_left(&mut out, &chars("12345"), 4);
    out.push('|');
    push_padded_left(&mut out, &chars(""), 2);
    assert_eq!(out, "ab  |abcdef||老虎 |  42|12345|  ");
}

#[test]
fn texts_are_searched() {
    let s = chars("Feature-A-a-OM-CP3");
    assert!(member(&chars(" \t"), '\t'));
    assert!(!member(&chars(" \t"), 'x'));
    assert!(!member(&chars(""), 'x'));
    assert_eq!(find_member(&s, &chars("-")), 7);
    assert_eq!(find_member(&s, &chars("3P")), 16);
    assert_eq!(find_member(&s, &chars("xyz")), s.len());
    assert_eq!(skip_leading(&chars("  - x "), &chars(" -")), 4);
    assert_eq!(skip_leading(&chars("   "), &chars(" ")), 3);
    assert_eq!(skip_leading(&chars("x  "), &chars(" ")), 0);
    assert_eq!(cut_trailing(&chars(" x -:"), &chars(" -:")), 2);
    assert_eq!(cut_trailing(&chars("---"), &chars("-")), 0);
    assert_eq!(cut_trailing(&chars("x"), &chars("-")), 1);
    assert!(matches_at(&s, &chars("-A"), 7));
    assert!(!matches_at(&s, &chars("-A"), 8));
    assert!(!matches_at(&s, &chars("CP34"), 15));
    assert!(matches_at(&s, &chars(""), 18));
    assert!(!matches_at(&s, &chars(""), 19));
    assert_eq!(rfind_text(&s, &chars("-")), Some(14));
    assert_eq!(rfind_text(&s, &chars("-A")), Some(7));
    assert_eq!(rfind_text(&s, &chars("-a-")), Some(9));
    assert_eq!(rfind_text(&s, &chars("F")), Some(0));
    assert_eq!(rfind_text(&s, &chars("x")), None);
    assert_eq!(rfind_text(&s, &chars("")), Some(18));
    assert_eq!(rfind_text(&chars(""), &chars("x")), None);
    assert!(contains(&s, &chars("OM")));
    assert!(contains(&s, &chars("")));
    assert!(contains(&s, &chars("Feature-A-a-OM-CP3")));
    assert!(!contains(&s, &chars("Feature-A-a-OM-CP34")));
    assert!(!contains(&s, &chars("om")));
    assert!(contains(&chars(""), &chars("")));
}

#[test]
fn texts_are_compared_by_code_point() {
    assert!(same_text("Löwe", "Löwe"));
    assert!(!same_text("Löwe", "Lowe"));
    assert!(!same_text("a", "ab"));
    assert!(same_text("", ""));
    for (a, b) in [
        ("", ""),
        ("", "a"),
        ("a", ""),
        ("abc", "abd"),
        ("abc", "ab"),
        ("B", "a"),
        ("z", "ö"),
        ("ö", "老"),
        ("老", "\u{10000}"),
        ("\u{ffff}", "\u{10000}"),
        ("same", "same"),
    ] {
        let expected = match a.cmp(b) {
            std::cmp::Ordering::Less => -1,
            std::cmp::Ordering::Equal => 0,
            std::cmp::Ordering::Greater => 1,
        };
        assert_eq!(lex_sign(&chars(a), &chars(b)), expected, "{:?} {:?}", a, b);
    }
}

#[test]
fn decorations_are_cut_in_their_order() {
    assert_eq!(text(trim_leading_puncs(&chars(" -\t\n x - "))), "x - ");
    assert_eq!(text(trim_leading_puncs(&chars("- -"))), "");
    assert_eq!(text(get_substr_until(&chars("a-OM-b-OM-c"), &chars("-OM"))), "a-OM-b");
    assert_eq!(text(get_substr_until(&chars("abc"), &chars("-OM"))), "abc");
    assert_eq!(
        text(get_substr_until_one_of(
            &chars("a-X-b-Y-c-X"),
            &vec![chars("-Y"), chars("-X")]
        )),
        "a"
    );
    assert_eq!(
        text(get_substr_until_one_of(
            &chars("a-X-b-Y-c-X"),
            &vec![chars("-X"), chars("-Y")]
        )),
        "a-X-b"
    );
    assert_eq!(text(get_substr_until_one_of(&chars("abc"), &Vec::new())), "abc");
    assert_eq!(text(trim_as_sub_fid(&chars("F-A-CP3-EFS"))), "F-A");
    assert_eq!(text(trim_as_sub_fid(&chars("F-A-EFS-CP3"))), "F-A");
    assert_eq!(text(trim_as_sub_fid(&chars("F-OAMX"))), "F");
    assert_eq!(text(trim_as_sub_fid(&chars("F-ei::--"))), "F-ei");
    assert_eq!(text(trim_as_sub_fid(&chars("-EI"))), "");
}

#[test]
fn summary_is_cut_at_the_first_blank() {
    assert_eq!(CAItem::get_summary(""), ("", ""));
    assert_eq!(CAItem::get_summary(" - "), ("", ""));
    assert_eq!(CAItem::get_summary("id"), ("id", ""));
    assert_eq!(CAItem::get_summary("id\tdesc"), ("id", "desc"));
    assert_eq!(CAItem::get_summary("id\ndesc more"), ("id\ndesc", "more"));
    assert_eq!(CAItem::get_summary("id:  -- desc - more "), ("id", "desc - more "));
    assert_eq!(CAItem::get_summary("Löwe-OM 老虎"), ("Löwe", "老虎"));
}

#[test]
fn activity_is_told_from_its_name() {
    assert_eq!(CAItem::get_type("NA"), Activity::NA);
    assert_eq!(CAItem::get_type("EFS"), Activity::EFS);
    assert_eq!(CAItem::get_type("Entity Specification"), Activity::EFS);
    assert_eq!(CAItem::get_type("ET"), Activity::ET);
    assert_eq!(CAItem::get_type("Entity Testing"), Activity::ET);
    assert_eq!(CAItem::get_type("EFS and ET"), Activity::EFS);
    assert_eq!(CAItem::get_type("SW"), Activity::SW);
    assert_eq!(CAItem::get_type(""), Activity::SW);
    assert_eq!(CAItem::get_type("NA "), Activity::SW);
    assert_eq!(CAItem::get_type("BUDGET"), Activity::ET);
    assert_eq!(Activity::EFS.name(), "EFS");
    assert_eq!(Activity::SW.name(), "SW");
    assert_eq!(Activity::ET.name(), "ET");
    assert_eq!(Activity::NA.name(), "NA");
    assert!(Activity::EFS < Activity::SW && Activity::SW < Activity::ET && Activity::ET < Activity::NA);
}
