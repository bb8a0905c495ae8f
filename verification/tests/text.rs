use kube_minion::text::{
    chars_of, contains, contains_all, decimal_string, is_white_space, join, lines,
    parse_decimal_u16, push_text, trim,
};

#[test]
fn contains_finds_a_part_anywhere() {
    assert!(contains("minikube tunnel -c", "tunnel"));
    assert!(contains("abc", ""));
    assert!(contains("abc", "abc"));
    assert!(!contains("abc", "abcd"));
    assert!(!contains("tunne", "tunnel"));
}

#[test]
fn join_puts_the_separator_between_neighbours() {
    let parts = vec![String::from("socat"), String::from("-V"), String::from("x")];
    assert_eq!(join(&parts, " "), "socat -V x");
    assert_eq!(join(&Vec::new(), " "), "");
    assert_eq!(join(&vec![String::from("one")], ", "), "one");
}

#[test]
fn trim_agrees_with_std() {
    for s in [
        "  a b \n",
        "\t\r\n",
        "",
        "x",
        "\u{3000}x\u{a0}",
        " \u{1680}mid dle\u{2028} ",
    ] {
        assert_eq!(trim(s), s.trim());
    }
}

#[test]
fn decimal_string_agrees_with_std() {
    for n in [0u64, 7, 10, 99, 100, 8080, 51515, 65535, u64::MAX] {
        assert_eq!(decimal_string(n), n.to_string());
    }
}

#[test]
fn parse_decimal_u16_accepts_digits_within_range() {
    assert_eq!(parse_decimal_u16("9000"), Some(9000));
    assert_eq!(parse_decimal_u16("0080"), Some(80));
    assert_eq!(parse_decimal_u16("65535"), Some(65535));
    assert_eq!(parse_decimal_u16("65536"), None);
    assert_eq!(parse_decimal_u16("99999999999999999999999"), None);
    assert_eq!(parse_decimal_u16(""), None);
    assert_eq!(parse_decimal_u16("12a"), None);
    assert_eq!(parse_decimal_u16("+5"), None);
}

#[test]
fn lines_agrees_with_std() {
    for s in [
        "",
        "a",
        "a\n",
        "a\nb",
        "a\r\nb\r\n",
        "\n\n",
        "a\r",
        "a\r\n\rb",
        "x\n\ny\n",
    ] {
        let expected: Vec<String> = s.lines().map(String::from).collect();
        assert_eq!(lines(s), expected);
    }
}

#[test]
fn white_space_is_what_std_takes_for_it() {
    for code in 0..=0x10ffffu32 {
        if let Some(c) = char::from_u32(code) {
            assert_eq!(is_white_space(c), c.is_whitespace(), "U+{:04X}", code);
        }
    }
}

#[test]
fn chars_of_keeps_every_character_in_order() {
    assert_eq!(chars_of("añ→z"), vec!['a', 'ñ', '→', 'z']);
    assert_eq!(chars_of(""), Vec::<char>::new());
}

#[test]
fn contains_all_needs_every_needle() {
    let needles = vec![
        String::from("docker@127.0.0.1"),
        String::from("-L 127.0.0.1:"),
    ];
    assert!(contains_all(
        "ssh docker@127.0.0.1 -L 127.0.0.1:80:x:80",
        &needles
    ));
    assert!(!contains_all(
        "ssh docker@127.0.0.1 -L 10.0.0.1:80:x:80",
        &needles
    ));
    assert!(contains_all("anything", &Vec::new()));
}

#[test]
fn push_text_copies_its_argument() {
    let mut items = vec![String::from("a")];
    push_text(&mut items, "b");
    assert_eq!(items, vec!["a", "b"]);
}
