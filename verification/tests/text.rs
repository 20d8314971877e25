use csvtosql::text::{
    byte_count, chars_of, lower_char, push_chars, push_text, same_chars, same_chars_ignoring_case,
};

#[test]
fn characters_of_a_text() {
    assert_eq!(chars_of("aé€"), vec!['a', 'é', '€']);
    assert_eq!(chars_of(""), Vec::<char>::new());
}

#[test]
fn bytes_of_a_text() {
    assert_eq!(byte_count(""), 0);
    assert_eq!(byte_count("abc"), 3);
    assert_eq!(byte_count("aé€"), 6);
}

#[test]
fn lowering_a_character() {
    assert_eq!(lower_char('A'), 'a');
    assert_eq!(lower_char('Z'), 'z');
    assert_eq!(lower_char('m'), 'm');
    assert_eq!(lower_char('@'), '@');
    assert_eq!(lower_char('['), '[');
    assert_eq!(lower_char('É'), 'É');
}

#[test]
fn comparing_characters() {
    assert!(same_chars(&chars_of("abc"), &chars_of("abc")));
    assert!(!same_chars(&chars_of("abc"), &chars_of("abd")));
    assert!(!same_chars(&chars_of("abc"), &chars_of("ab")));
    assert!(!same_chars(&chars_of("abc"), &chars_of("ABC")));
    assert!(same_chars(&chars_of(""), &chars_of("")));
}

#[test]
fn comparing_characters_ignoring_case() {
    assert!(same_chars_ignoring_case(&chars_of("True"), &chars_of("tRUE")));
    assert!(!same_chars_ignoring_case(&chars_of("True"), &chars_of("Tru")));
    assert!(!same_chars_ignoring_case(&chars_of("é"), &chars_of("É")));
    assert!(!same_chars_ignoring_case(&chars_of("k"), &chars_of("\u{212A}")));
    let cases = [("inf", "INF"), ("a", "b"), ("", ""), ("x", ""), ("[", "{"), ("@", "`")];
    for (a, b) in cases.iter() {
        assert_eq!(same_chars_ignoring_case(&chars_of(a), &chars_of(b)), a.eq_ignore_ascii_case(b));
    }
}

#[test]
fn adding_to_a_buffer() {
    let mut buf = String::from("ab");
    push_chars(&mut buf, &vec!['c', 'é']);
    assert_eq!(buf, "abcé");
    push_text(&mut buf, "-ok");
    assert_eq!(buf, "abcé-ok");
    push_chars(&mut buf, &Vec::new());
    push_text(&mut buf, "");
    assert_eq!(buf, "abcé-ok");
}
