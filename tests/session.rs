use subst_cipher::entry::{input_complete, parse_file_name, parse_key, parse_mode, Mode};
use subst_cipher::session::{Action, Stage, User};

fn asked(a: Action) -> String {
    match a {
        Action::Ask(t) => t,
        _ => panic!("expected a question"),
    }
}

#[test]
fn keys_split_at_the_first_equals_sign() {
    assert_eq!(parse_key("abc=xyz"), Some(("abc".to_string(), "xyz".to_string())));
    assert_eq!(parse_key("ab=cd=ef"), Some(("ab".to_string(), "cd".to_string())));
    assert_eq!(parse_key("=x"), Some(("".to_string(), "x".to_string())));
    assert_eq!(parse_key("abc"), None);
}

#[test]
fn blank_line_ends_input() {
    assert!(!input_complete(""));
    assert!(!input_complete("hello\n"));
    assert!(input_complete("hello\n\n"));
    assert!(input_complete("hello\r\n\r\n"));
    assert!(!input_complete("hello\r\nworld\r\n"));
}

#[test]
fn modes_are_named_in_any_case() {
    assert_eq!(parse_mode("e\n"), Some(Mode::Encode));
    assert_eq!(parse_mode("  Encode \n"), Some(Mode::Encode));
    assert_eq!(parse_mode("EN"), Some(Mode::Encode));
    assert_eq!(parse_mode("d\n"), Some(Mode::Decode));
    assert_eq!(parse_mode("Decode"), Some(Mode::Decode));
    assert_eq!(parse_mode("de"), Some(Mode::Decode));
    assert_eq!(parse_mode("x"), None);
}

#[test]
fn file_names_get_a_txt_suffix() {
    assert_eq!(parse_file_name("notes\n"), Some("notes.txt".to_string()));
    assert_eq!(parse_file_name("no\n"), None);
    assert_eq!(parse_file_name(" NO \n"), None);
}

#[test]
fn encode_session_with_own_key_and_no_file() {
    let (mut u, a) = User::start();
    assert_eq!(asked(a), "Encode or Decode?");
    assert_eq!(asked(u.step("what\n")), "Invalid option... Try again\nEncode or Decode?");
    asked(u.step("e\n"));
    assert_eq!(u.stage(), Stage::FileName(Mode::Encode));
    assert_eq!(asked(u.step("no\n")), "Would you like to insert your own key?");
    assert_eq!(asked(u.step("yes\n")), "Input key (format: abc=xyz)");
    assert_eq!(
        asked(u.step("abc=xy\n")),
        "Key error: unequal lengths\nWould you like to insert your own key?"
    );
    assert_eq!(u.stage(), Stage::OwnKey);
    asked(u.step("y\n"));
    asked(u.step("abc=xyz\n"));
    assert_eq!(u.stage(), Stage::Data(Mode::Encode));
    asked(u.step("Cab\n"));
    match u.step("\n") {
        Action::Show(t) => assert_eq!(t, "Key: abc=xyz\nEncode input: Cab\nEncode output: zxy"),
        _ => panic!("expected the report"),
    }
    assert_eq!(u.stage(), Stage::Done);
}

#[test]
fn decode_session_records_in_a_file() {
    let (mut u, _) = User::start();
    asked(u.step("decode\n"));
    match u.step("log\n") {
        Action::Open(name, text) => {
            assert_eq!(name, "log.txt");
            assert_eq!(text, "Input key (format: abc=xyz)");
        }
        _ => panic!("expected the file to be opened"),
    }
    assert_eq!(asked(u.step("abc\n")), "Key error: no '=' in key\nInput key (format: abc=xyz)");
    assert_eq!(asked(u.step("abc=xyz\n")), "Input encoded data... Press enter twice to finish");
    asked(u.step("zxy\n"));
    match u.step("\n") {
        Action::Save(name, t) => {
            assert_eq!(name, "log.txt");
            assert_eq!(t, "--\nzxy\n-Key: abc=xyz-\ncab\n--\n");
        }
        _ => panic!("expected the transcript"),
    }
}

#[test]
fn encode_session_with_scrambled_key() {
    let (mut u, _) = User::start();
    asked(u.step("en\n"));
    asked(u.step("no\n"));
    assert_eq!(
        asked(u.step("N\n")),
        "Input data for encryption... Press enter twice to finish"
    );
    asked(u.step("abc\n"));
    match u.step("\n") {
        Action::Show(t) => {
            assert!(t.starts_with("Key: abcdefghijklmnopqrstuvwxyz="));
            assert!(t.contains("Encode input: abc\nEncode output: "));
        }
        _ => panic!("expected the report"),
    }
}

#[test]
fn own_key_question_repeats_on_an_unclear_answer() {
    let (mut u, _) = User::start();
    asked(u.step("E\n"));
    match u.step("NO\n") {
        Action::Ask(t) => assert_eq!(t, "Would you like to insert your own key?"),
        _ => panic!("expected a question"),
    }
    assert_eq!(
        asked(u.step("maybe\n")),
        "Invalid option... Try again\nWould you like to insert your own key?"
    );
    assert_eq!(u.stage(), Stage::OwnKey);
}

#[test]
fn decode_key_with_unequal_halves_is_asked_again() {
    let (mut u, _) = User::start();
    assert_eq!(
        asked(u.step(" Decode \n")),
        "Input name for text file... Or 'no' to not use a file"
    );
    asked(u.step("no\n"));
    assert_eq!(
        asked(u.step("\u{e9}=ab\n")),
        "Key error: unequal lengths\nInput key (format: abc=xyz)"
    );
    assert_eq!(u.stage(), Stage::Key(Mode::Decode));
}
