use remail_smtp::address::{read_path, read_recipient, read_sender};
use remail_smtp::text::{chars_of, is_blank_char, join_parts, to_ascii_upper, Line};

#[test]
fn blanks_are_unicode_white_space() {
    for c in [
        ' ', '\t', '\n', '\u{b}', '\u{c}', '\r', '\u{85}', '\u{a0}', '\u{1680}', '\u{2000}',
        '\u{2005}', '\u{200a}', '\u{2028}', '\u{2029}', '\u{202f}', '\u{205f}', '\u{3000}',
    ] {
        assert!(is_blank_char(c), "{:?}", c);
    }
    for c in ['a', '.', '\u{8}', '\u{e}', '\u{200b}', '\u{1f}', '\u{feff}', '<'] {
        assert!(!is_blank_char(c), "{:?}", c);
    }
    for n in 0u32..0x3100 {
        if let Some(c) = char::from_u32(n) {
            assert_eq!(is_blank_char(c), c.is_whitespace(), "{:?}", c);
        }
    }
}

#[test]
fn upper_case_touches_ascii_letters_only() {
    assert_eq!(to_ascii_upper('a'), 'A');
    assert_eq!(to_ascii_upper('z'), 'Z');
    assert_eq!(to_ascii_upper('M'), 'M');
    assert_eq!(to_ascii_upper(':'), ':');
    assert_eq!(to_ascii_upper('`'), '`');
    assert_eq!(to_ascii_upper('{'), '{');
    assert_eq!(to_ascii_upper('\u{e9}'), '\u{e9}');
    assert_eq!(to_ascii_upper('\u{131}'), '\u{131}');
}

#[test]
fn characters_of_a_string() {
    assert_eq!(chars_of(""), Vec::<char>::new());
    assert_eq!(chars_of("a\u{e9}\u{1f600}z"), vec!['a', '\u{e9}', '\u{1f600}', 'z']);
}

#[test]
fn line_positions_count_characters() {
    let line = Line::new("\u{e9}t\u{e9}: x@y");
    assert_eq!(line.len(), 8);
    assert!(!line.is_empty());
    assert_eq!(line.char_at(2), '\u{e9}');
    assert_eq!(line.find_char(':', 0), 3);
    assert_eq!(line.find_char('#', 0), 8);
    assert_eq!(line.find_char('\u{e9}', 1), 2);
    assert_eq!(line.find_last_char('\u{e9}'), Some(2));
    assert_eq!(line.find_last_char('#'), None);
    assert_eq!(line.slice(0, 3), "\u{e9}t\u{e9}");
    assert_eq!(line.slice(5, 8), "x@y");
    assert_eq!(line.slice(4, 4), "");
    assert_eq!(line.to_text(), "\u{e9}t\u{e9}: x@y");
    assert!(Line::new("").is_empty());
}

#[test]
fn keywords_ignore_ascii_case() {
    assert!(Line::new("mail from:<x>").has_keyword("MAIL FROM:"));
    assert!(Line::new("MAIL FROM:").has_keyword("MAIL FROM:"));
    assert!(!Line::new("MAIL FROM").has_keyword("MAIL FROM:"));
    assert!(!Line::new("MAIL  FROM:").has_keyword("MAIL FROM:"));
    assert!(Line::new("data").eq_ignore_case("DATA"));
    assert!(!Line::new("data ").eq_ignore_case("DATA"));
    assert!(!Line::new("dat").eq_ignore_case("DATA"));
    assert!(!Line::new("MA\u{131}L FROM:").has_keyword("MAIL FROM:"));
}

#[test]
fn words_and_blanks() {
    let line = Line::new("ab  \tcd e");
    assert_eq!(line.skip_blanks(0), 0);
    assert_eq!(line.skip_word(0), 2);
    assert_eq!(line.skip_blanks(2), 5);
    assert_eq!(line.skip_word(5), 7);
    assert_eq!(line.skip_blanks(7), 8);
    assert_eq!(line.skip_word(8), 9);
    assert_eq!(line.skip_blanks(9), 9);
}

#[test]
fn folded_parts_are_joined_with_one_space() {
    assert_eq!(join_parts(&vec![]), "");
    assert_eq!(join_parts(&vec!["one".to_string()]), "one");
    assert_eq!(
        join_parts(&vec!["one".to_string(), "".to_string(), " three".to_string()]),
        "one   three"
    );
}

#[test]
fn path_arguments() {
    let table = [
        ("RCPT TO:<a@b.com>", Some("a@b.com")),
        ("RCPT TO:   <a@b.com>   later", Some("a@b.com")),
        ("RCPT TO:a@b.com", Some("a@b.com")),
        ("RCPT TO:<>", Some("")),
        ("RCPT TO:", Some("")),
        ("RCPT TO:    ", Some("")),
        ("RCPT TO:<a@b.com", None),
        ("RCPT TO:a@b.com>", None),
        ("RCPT TO:<", None),
        ("RCPT TO:>", None),
        ("RCPT TO:<a b>", None),
        ("RCPT TO:<<a>>", Some("<a>")),
    ];
    for (line, expected) in table {
        assert_eq!(
            read_path(&Line::new(line), 8),
            expected.map(|s| s.to_string()),
            "{:?}",
            line
        );
    }
}

#[test]
fn validated_arguments() {
    assert_eq!(
        read_recipient(&Line::new("RCPT TO:<a@b.com>"), 8).unwrap().as_str(),
        "a@b.com"
    );
    assert!(read_recipient(&Line::new("RCPT TO:<>"), 8).is_err());
    assert!(read_recipient(&Line::new("RCPT TO:<a@b.com"), 8).is_err());
    assert!(read_recipient(&Line::new("RCPT TO:<a.b.com>"), 8).is_err());
    assert_eq!(
        read_sender(&Line::new("MAIL FROM:<a@b.com>"), 10)
            .unwrap()
            .unwrap()
            .as_str(),
        "a@b.com"
    );
    assert!(read_sender(&Line::new("MAIL FROM:<>"), 10).unwrap().is_none());
    assert!(read_sender(&Line::new("MAIL FROM:<a@>"), 10).is_err());
}
