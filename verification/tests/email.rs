use remail_smtp::email::{find_subject, join_lines};
use remail_smtp::{Mailbox, NewEmail, NonEmptyVec};

fn mailbox(text: &str) -> Mailbox {
    Mailbox::new(text).unwrap()
}

fn field(name: &str, value: &str) -> (String, String) {
    (name.to_string(), value.to_string())
}

#[test]
fn subject_is_the_first_field_of_that_name() {
    let headers = vec![
        field("To", "x"),
        field("SUBJECT", "first"),
        field("Subject", "second"),
    ];
    assert_eq!(find_subject(&headers), "first");
    assert_eq!(find_subject(&vec![field("sUbJeCt", "mixed")]), "mixed");
}

#[test]
fn subject_is_empty_without_such_a_field() {
    assert_eq!(find_subject(&vec![]), "");
    assert_eq!(
        find_subject(&vec![field("Subjec", "a"), field("Subjects", "b"), field("X", "c")]),
        ""
    );
}

#[test]
fn body_lines_are_joined_with_crlf() {
    assert_eq!(join_lines(&vec![]), "");
    assert_eq!(join_lines(&vec!["one".to_string()]), "one\r\n");
    assert_eq!(
        join_lines(&vec!["one".to_string(), "".to_string(), "three".to_string()]),
        "one\r\n\r\nthree\r\n"
    );
}

#[test]
fn message_is_assembled_from_its_parts() {
    let email = NewEmail::from_raw_message(
        Some(mailbox("s@a.com")),
        NonEmptyVec::with_tail(mailbox("r@b.com"), vec![mailbox("q@b.com")]),
        vec![field("Cc", "x@y.com"), field("subject", "Hi")],
        vec!["Hello".to_string(), "World".to_string()],
    );
    assert_eq!(email.from, Some(mailbox("s@a.com")));
    assert_eq!(email.to.len(), 2);
    assert_eq!(email.to.get(0).as_str(), "r@b.com");
    assert_eq!(email.to.get(1).as_str(), "q@b.com");
    assert_eq!(email.subject, "Hi");
    assert_eq!(email.headers, vec![field("Cc", "x@y.com"), field("subject", "Hi")]);
    assert_eq!(email.body, "Hello\r\nWorld\r\n");
}

#[test]
fn sender_and_recipients_as_stored() {
    let email = NewEmail::from_raw_message(
        Some(mailbox("s@a.com")),
        NonEmptyVec::with_tail(mailbox("r@b.com"), vec![mailbox("q@b.com"), mailbox("p@c.org")]),
        vec![],
        vec![],
    );
    assert_eq!(email.sender_text(), "s@a.com");
    assert_eq!(email.recipients_text(), "r@b.com, q@b.com, p@c.org");

    let email = NewEmail::from_raw_message(
        None,
        NonEmptyVec::new(mailbox("r@b.com")),
        vec![],
        vec![],
    );
    assert_eq!(email.sender_text(), "");
    assert_eq!(email.recipients_text(), "r@b.com");
}
