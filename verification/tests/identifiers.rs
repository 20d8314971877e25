use csvtosql::ident::{is_reserved_word, normalize, sanitize_char, RESERVED};

fn is_identifier(s: &str) -> bool {
    s.chars().all(|c| c.is_ascii_lowercase() || c.is_ascii_digit() || c == '_')
}

#[test]
fn normalize_replaces_percent_and_space() {
    assert_eq!(normalize("Sales %"), "sales_p");
}

#[test]
fn normalize_replaces_hyphen_and_lowers() {
    assert_eq!(normalize("User-ID"), "user_id");
}

#[test]
fn normalize_keeps_letters_and_digits() {
    assert_eq!(normalize("abcXYZ019"), "abcxyz019");
}

#[test]
fn normalize_maps_each_character_to_one() {
    assert_eq!(normalize("prix (€) été"), "prix______t_");
    assert_eq!(normalize("a\tb\nc"), "a_b_c");
    assert_eq!(normalize("100%"), "100p");
}

#[test]
fn normalize_of_empty_header_is_empty() {
    assert_eq!(normalize(""), "");
}

#[test]
fn normalize_suffixes_every_reserved_word() {
    assert_eq!(RESERVED.len(), 116);
    for k in RESERVED.iter() {
        assert_eq!(normalize(k), format!("{}_", k));
    }
}

#[test]
fn normalize_suffixes_reserved_word_in_any_case() {
    assert_eq!(normalize("SELECT"), "select_");
    assert_eq!(normalize("Order"), "order_");
    assert_eq!(normalize("current_date"), "current_date_");
}

#[test]
fn normalize_leaves_other_words_alone() {
    assert_eq!(normalize("selected"), "selected");
    assert_eq!(normalize("orders"), "orders");
    assert_eq!(normalize("select_"), "select_");
    assert_eq!(normalize("name"), "name");
}

#[test]
fn normalize_word_that_becomes_reserved() {
    // a header that is no reserved word itself, but whose cleaned form is
    assert_eq!(normalize("current date"), "current_date_");
}

#[test]
fn normalize_gives_identifier_characters_only() {
    let headers = [
        "Sales %", "User-ID", "  ", "ΑΒΓ", "naïve", "a.b.c", "x'y\"z", "Ünïcödé", "9 lives",
        "\u{0130}", "\u{212A}", "TABLE", "%", "_",
    ];
    for h in headers.iter() {
        let id = normalize(h);
        assert!(is_identifier(&id));
        assert!(!id.is_empty());
        assert!(id.chars().count() >= h.chars().count());
    }
}

#[test]
fn sanitize_char_cases() {
    assert_eq!(sanitize_char('a'), 'a');
    assert_eq!(sanitize_char('Z'), 'z');
    assert_eq!(sanitize_char('A'), 'a');
    assert_eq!(sanitize_char('7'), '7');
    assert_eq!(sanitize_char('%'), 'p');
    assert_eq!(sanitize_char(' '), '_');
    assert_eq!(sanitize_char('_'), '_');
    assert_eq!(sanitize_char('é'), '_');
    assert_eq!(sanitize_char('@'), '_');
    assert_eq!(sanitize_char('['), '_');
    assert_eq!(sanitize_char('`'), '_');
    assert_eq!(sanitize_char('{'), '_');
    assert_eq!(sanitize_char('/'), '_');
    assert_eq!(sanitize_char(':'), '_');
}

#[test]
fn reserved_word_lookup() {
    let word: Vec<char> = "where".chars().collect();
    assert!(is_reserved_word(&word));
    let first: Vec<char> = "add".chars().collect();
    assert!(is_reserved_word(&first));
    let last: Vec<char> = "without".chars().collect();
    assert!(is_reserved_word(&last));
    let other: Vec<char> = "wherever".chars().collect();
    assert!(!is_reserved_word(&other));
    let upper: Vec<char> = "WHERE".chars().collect();
    assert!(!is_reserved_word(&upper));
    let empty: Vec<char> = Vec::new();
    assert!(!is_reserved_word(&empty));
}
