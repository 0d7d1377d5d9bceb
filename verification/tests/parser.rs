use remail_smtp::{
    Mailbox, Message, MessageParser, MessageParserError, MessageParserEvent, NonEmptyVec,
};
use std::io::{BufRead, BufReader};

fn source(input: &str) -> Vec<Result<String, String>> {
    BufReader::new(input.as_bytes())
        .lines()
        .map(|line| line.map_err(|e| e.to_string()))
        .collect()
}

fn mailbox(text: &str) -> Mailbox {
    Mailbox::new(text).unwrap()
}

fn assert_event(
    expected: MessageParserEvent,
    actual: Option<Result<MessageParserEvent, MessageParserError>>,
) {
    match actual {
        Some(Ok(event)) => assert_eq!(expected, event),
        Some(Err(err)) => assert!(false, "Expected {:?} but got error: {:?}", expected, err),
        None => assert_eq!(Some(expected), None),
    }
}

#[test]
fn test_message_parser() {
    let input = "HELO example.com\r\nMAIL FROM: <test@example.com>\r\nRCPT TO: <test@example.com>\r\nDATA\r\nHello, world!\r\n.\r\n";
    let mut parser = MessageParser::new(source(input));

    assert_event(
        MessageParserEvent::From(Some(mailbox("test@example.com"))),
        parser.next(),
    );
    assert_event(
        MessageParserEvent::To(mailbox("test@example.com")),
        parser.next(),
    );
    assert_event(
        MessageParserEvent::Body(vec!["Hello, world!".to_string()]),
        parser.next(),
    );
    assert_event(MessageParserEvent::Done(Message {}), parser.next());
}

#[test]
fn test_mail_from() {
    let table = vec![
        (
            "MAIL FROM: <test@example.com>",
            Some(mailbox("test@example.com")),
        ),
        (
            "MAIL FROM:<test@example.com>",
            Some(mailbox("test@example.com")),
        ),
        ("MAIL FROM: <>", None),
        ("MAIL FROM:<>", None),
        (
            "MAIL FROM: <test+tag@example.com>",
            Some(mailbox("test+tag@example.com")),
        ),
        (
            "MAIL FROM: <test@example.com> param1=ignored",
            Some(mailbox("test@example.com")),
        ),
    ];

    for (input, expected) in table {
        let input = vec!["HELO example.com", input].join("\r\n");
        let mut parser = MessageParser::new(source(&input));
        let actual = parser.next();
        assert_event(MessageParserEvent::From(expected.clone()), actual);
        assert_eq!(expected.as_ref(), parser.from());
    }
}

#[test]
fn test_rcpt_to() {
    let table = vec![
        (
            "RCPT TO: <test@example.com>",
            NonEmptyVec::new(mailbox("test@example.com")),
        ),
        (
            "RCPT TO:<test@example.com>",
            NonEmptyVec::new(mailbox("test@example.com")),
        ),
        (
            "RCPT TO: <test+tag@example.com>",
            NonEmptyVec::new(mailbox("test+tag@example.com")),
        ),
        (
            "RCPT TO: <test@example.com> param1=ignored",
            NonEmptyVec::new(mailbox("test@example.com")),
        ),
        (
            "RCPT TO: <test@example.com>\r\nRCPT TO: <test2@example.com>",
            NonEmptyVec::with_tail(
                mailbox("test@example.com"),
                vec![mailbox("test2@example.com")],
            ),
        ),
    ];

    for (input, expected) in table {
        let input = vec!["HELO example.com", "MAIL FROM:<>", input].join("\r\n");

        let mut parser = MessageParser::new(source(&input));
        // skip mail from
        parser.next();

        for i in 0..(expected.len()) {
            let actual = parser.next();
            assert_event(MessageParserEvent::To(expected.get(i).clone()), actual);
        }

        assert_eq!(Some(&expected), parser.to());
    }
}

#[test]
fn test_headers() {
    let table = vec![
        (
            "Subject: Test\r\n",
            vec![("Subject".to_string(), "Test".to_string())],
        ),
        (
            "Subject:Test\r\n",
            vec![("Subject".to_string(), "Test".to_string())],
        ),
        (
            "Subject:Test \r\n",
            vec![("Subject".to_string(), "Test ".to_string())],
        ),
        (
            "Subject: Test\r\nCc: john@example.com\r\n",
            vec![
                ("Subject".to_string(), "Test".to_string()),
                ("Cc".to_string(), "john@example.com".to_string()),
            ],
        ),
        (
            // leading space
            "Subject:  Test\r\n",
            vec![("Subject".to_string(), " Test".to_string())],
        ),
        (
            // folded multi line headers with empty first line
            "Subject:\r\n Test\r\n",
            vec![("Subject".to_string(), " Test".to_string())],
        ),
        (
            // folded multi line headers with leading space first line
            "Subject: \r\n Test\r\n",
            vec![("Subject".to_string(), " Test".to_string())],
        ),
        (
            // folded multi line headers with non empty first line
            "Subject: First\r\n Second\r\n",
            vec![("Subject".to_string(), "First Second".to_string())],
        ),
        (
            // folded multi line headers with empty lines in between line
            "Subject: First\r\n \r\n Second\r\n",
            vec![("Subject".to_string(), "First  Second".to_string())],
        ),
    ];

    for (input, expected) in table {
        let input = vec![
            "HELO example.com",
            "MAIL FROM: <>",
            "RCPT TO: <jane@example.com>",
            "DATA",
            input,
        ]
        .join("\r\n");

        let mut parser = MessageParser::new(source(&input));

        // skip mail from
        parser.next();
        // skip rcpt to
        parser.next();

        for i in 0..(expected.len()) {
            let actual = parser.next();
            assert_event(
                MessageParserEvent::Header(expected[i].0.clone(), expected[i].1.clone()),
                actual,
            );
        }

        assert_eq!(&expected, parser.headers());
    }
}
