use jira_reporter::fetch::login::new_login;
use jira_reporter::fetch::login::Login;

#[test]
fn shall_load_cred_from_contents() {
    let contents = vec![
        9, 53, 50, 55, 53, 55, 51, 55, 52, 53, 50, 54, 102, 54, 51, 54, 98, 55, 51, 50, 49,
    ];
    let login = new_login("Rust".to_string(), "Rocks!".to_string());
    if let Some(result) = Login::load_from_vec(contents) {
        assert_eq!(login, result);
    } else {
        assert!(false, "not parsed!");
    }
}

#[test]
fn shall_write_cred_properly() {
    //9 '5' '2' '7' '5' '7' '3' '7' '4' => 52 75 73 74 => Rust
    //  '5' '2' '6' 'f' '6' '3' '6' 'b' '7' '3' '2' '1' => Rocks!
    let contents = vec![
        9, 53, 50, 55, 53, 55, 51, 55, 52, 53, 50, 54, 102, 54, 51, 54, 98, 55, 51, 50, 49,
    ];
    let login = new_login("Rust".to_string(), "Rocks!".to_string());
    let mut saved = Vec::new();
    login.save_to_temp(&mut saved);
    assert_eq!(contents, saved);
}

#[test]
fn stored_credentials_are_appended() {
    let login = new_login("ö".to_string(), "pass".to_string());
    let mut saved = vec![1, 2];
    login.save_to_temp(&mut saved);
    assert_eq!(saved, b"\x01\x02\x05c3b670617373".to_vec());
}

#[test]
fn long_user_name_leaves_the_low_bits_of_its_length() {
    let login = new_login("u".repeat(130), String::new());
    let mut saved = Vec::new();
    login.save_to_temp(&mut saved);
    assert_eq!(saved[0], 5);
    assert_eq!(saved.len(), 261);
}

#[test]
fn saved_credentials_load_again() {
    let login = new_login("jörg".to_string(), "pässwörd".to_string());
    let mut saved = Vec::new();
    login.save_to_temp(&mut saved);
    assert_eq!(Login::load_from_vec(saved), Some(login));
}

#[test]
fn upper_case_digits_are_read_too() {
    let login = Login::load_from_vec(b"\x034A6B6c6D".to_vec());
    assert_eq!(login, Some(new_login("J".to_string(), "klm".to_string())));
}

#[test]
fn malformed_credentials_are_refused() {
    // Too short.
    assert_eq!(Login::load_from_vec(Vec::new()), None);
    assert_eq!(Login::load_from_vec(b"\x016a".to_vec()), None);
    // An even number of bytes.
    assert_eq!(Login::load_from_vec(b"\x036a6b6".to_vec()), None);
    // The password begins too late, or nowhere.
    assert_eq!(Login::load_from_vec(b"\x056a6b6c6d".to_vec()), None);
    assert_eq!(Login::load_from_vec(b"\x046a6b6c6d".to_vec()), None);
    assert_eq!(Login::load_from_vec(b"\x006a6b6c6d".to_vec()), None);
    // A user name of an odd number of digits.
    assert_eq!(Login::load_from_vec(b"\x026a6b6c6d6e".to_vec()), None);
    // What is no hex digit.
    assert_eq!(Login::load_from_vec(b"\x036g6b6c6d".to_vec()), None);
    assert_eq!(Login::load_from_vec(b"\x036a6b6c6x".to_vec()), None);
    // What is no text.
    assert_eq!(Login::load_from_vec(b"\x03ff6b6c6d".to_vec()), None);
    assert_eq!(Login::load_from_vec(b"\x036a6bc36d".to_vec()), None);
}

#[test]
fn empty_user_name_is_read() {
    assert_eq!(
        Login::load_from_vec(b"\x016a6b".to_vec()),
        Some(new_login(String::new(), "jk".to_string()))
    );
}

#[test]
fn login_is_handed_on_as_it_is() {
    let basic = new_login("Rust".to_string(), "Rocks!".to_string()).to_basic();
    assert_eq!(basic.username, "Rust");
    assert_eq!(basic.password, Some("Rocks!".to_string()));
}

#[test]
fn credentials_with_a_short_password_do_not_load_again() {
    // The password must be at least two bytes longer than the user name.
    for (name, word) in [("admin", "admin"), ("admin", "admin1"), ("ab", "c")] {
        let mut saved = Vec::new();
        new_login(name.to_string(), word.to_string()).save_to_temp(&mut saved);
        assert_eq!(Login::load_from_vec(saved), None);
    }
    let mut saved = Vec::new();
    new_login("admin".to_string(), "admin12".to_string()).save_to_temp(&mut saved);
    assert_eq!(
        Login::load_from_vec(saved),
        Some(new_login("admin".to_string(), "admin12".to_string()))
    );
}
