use remail_smtp::{
    HandlerAction, Mailbox, MessageParserState, NewEmail, NonEmptyVec, Reply, SmtpHandler,
};

fn mailbox(text: &str) -> Mailbox {
    Mailbox::new(text).unwrap()
}

fn greeted() -> SmtpHandler {
    let mut handler = SmtpHandler::new();
    assert_eq!(
        handler.handle_line("HELO example.com"),
        HandlerAction::Continue(Some(Reply::Hello))
    );
    handler
}

fn with_sender() -> SmtpHandler {
    let mut handler = greeted();
    assert_eq!(
        handler.handle_line("MAIL FROM:<s@a.com>"),
        HandlerAction::Continue(Some(Reply::Okay))
    );
    handler
}

fn with_recipient() -> SmtpHandler {
    let mut handler = with_sender();
    assert_eq!(
        handler.handle_line("RCPT TO:<r@b.com>"),
        HandlerAction::Continue(Some(Reply::Okay))
    );
    handler
}

fn in_data() -> SmtpHandler {
    let mut handler = with_recipient();
    assert_eq!(
        handler.handle_line("DATA"),
        HandlerAction::Continue(Some(Reply::StartMailInput))
    );
    handler
}

#[test]
fn test_smtp_handler_simple_case() {
    let expected = NewEmail {
        from: Some(mailbox("sender@example.com")),
        to: NonEmptyVec::new(mailbox("recipient@example.com")),
        subject: "Test Email".to_string(),
        headers: vec![("Subject".to_string(), "Test Email".to_string())],
        body: "Hello, world!\r\n".to_string(),
    };
    let mut handler = SmtpHandler::new();
    assert_eq!(handler.greeting().line(), "220 smt.example.com ESMTP Remail\r\n");

    let message = vec![
        "HELO example.com\r\n",
        "MAIL FROM: <sender@example.com>\r\n",
        "RCPT TO: <recipient@example.com>\r\n",
        "DATA\r\n",
        "Subject: Test Email\r\n",
        "\r\n",
        "Hello, world!\r\n",
        ".\r\n",
    ]
    .concat();

    let mut stored = None;
    let mut replies = Vec::new();
    for line in message.lines() {
        match handler.handle_line(line) {
            HandlerAction::Continue(Some(reply)) => replies.push(reply.line()),
            HandlerAction::Continue(None) => {}
            HandlerAction::Persist(email) => {
                stored = Some(email);
                replies.push(handler.stored(true).line());
            }
            HandlerAction::Close(reply) => panic!("unexpected close with {:?}", reply),
        }
    }
    assert_eq!(stored, Some(expected));
    assert_eq!(
        replies,
        vec![
            "250 Hello\r\n",
            "250 OK\r\n",
            "250 OK\r\n",
            "354 Start mail input; end with <CRLF>.<CRLF>\r\n",
            "250 OK: Message accepted for delivery\r\n",
        ]
    );
    assert_eq!(handler.state(), MessageParserState::Done);
}

#[test]
fn reply_codes_and_lines() {
    let table = [
        (Reply::ServiceReady, 220, "220 smt.example.com ESMTP Remail\r\n"),
        (Reply::Hello, 250, "250 Hello\r\n"),
        (Reply::Okay, 250, "250 OK\r\n"),
        (
            Reply::StartMailInput,
            354,
            "354 Start mail input; end with <CRLF>.<CRLF>\r\n",
        ),
        (Reply::Accepted, 250, "250 OK: Message accepted for delivery\r\n"),
        (Reply::UnrecognizedCommand, 500, "500 Unrecognized command\r\n"),
        (
            Reply::SyntaxError,
            501,
            "501 Syntax error in parameters or arguments\r\n",
        ),
        (Reply::BadSequence, 503, "503 Bad sequence of commands\r\n"),
        (Reply::InternalError, 550, "550 Internal server error\r\n"),
    ];
    for (reply, code, line) in table {
        assert_eq!(reply.code(), code);
        assert_eq!(reply.line(), line);
        assert!(reply.line().starts_with(&format!("{} ", code)));
    }
}

#[test]
fn unrecognized_greeting_gets_500() {
    for line in ["", "HEL", "QUIT", "MAIL FROM:<s@a.com>"] {
        let mut handler = SmtpHandler::new();
        assert_eq!(
            handler.handle_line(line),
            HandlerAction::Close(Reply::UnrecognizedCommand)
        );
        assert_eq!(handler.state(), MessageParserState::Aborted);
    }
}

#[test]
fn out_of_sequence_commands() {
    let mut handler = greeted();
    assert_eq!(
        handler.handle_line("RCPT TO: <r@b.com>"),
        HandlerAction::Close(Reply::BadSequence)
    );
    let mut handler = greeted();
    assert_eq!(
        handler.handle_line("NOOP"),
        HandlerAction::Close(Reply::UnrecognizedCommand)
    );
    let mut handler = with_sender();
    assert_eq!(
        handler.handle_line("MAIL FROM:<x@y.com>"),
        HandlerAction::Close(Reply::BadSequence)
    );
    let mut handler = with_sender();
    assert_eq!(
        handler.handle_line("DATA"),
        HandlerAction::Close(Reply::UnrecognizedCommand)
    );
    let mut handler = with_recipient();
    assert_eq!(
        handler.handle_line("QUIT"),
        HandlerAction::Close(Reply::BadSequence)
    );
}

#[test]
fn bad_addresses_get_501() {
    let mut handler = greeted();
    assert_eq!(
        handler.handle_line("MAIL FROM:<nobody>"),
        HandlerAction::Close(Reply::SyntaxError)
    );
    let mut handler = greeted();
    assert_eq!(
        handler.handle_line("MAIL FROM:<a@b.com"),
        HandlerAction::Close(Reply::SyntaxError)
    );
    let mut handler = with_sender();
    assert_eq!(
        handler.handle_line("RCPT TO:<>"),
        HandlerAction::Close(Reply::SyntaxError)
    );
    let mut handler = with_recipient();
    assert_eq!(
        handler.handle_line("RCPT TO:<nobody>"),
        HandlerAction::Close(Reply::SyntaxError)
    );
}

#[test]
fn null_sender_is_accepted() {
    let mut handler = greeted();
    assert_eq!(
        handler.handle_line("MAIL FROM:<>"),
        HandlerAction::Continue(Some(Reply::Okay))
    );
    handler.handle_line("RCPT TO:<r@b.com>");
    handler.handle_line("DATA");
    handler.handle_line("");
    match handler.handle_line(".") {
        HandlerAction::Persist(email) => {
            assert_eq!(email.from, None);
            assert_eq!(email.subject, "");
            assert_eq!(email.body, "");
            assert!(email.headers.is_empty());
        }
        other => panic!("expected a message, got {:?}", other),
    }
}

#[test]
fn additional_recipients_stay_in_order() {
    let mut handler = with_recipient();
    assert_eq!(
        handler.handle_line("RCPT TO:<second@b.com>"),
        HandlerAction::Continue(Some(Reply::Okay))
    );
    assert_eq!(handler.state(), MessageParserState::RcptTo);
    handler.handle_line("DATA");
    handler.handle_line("");
    match handler.handle_line(".") {
        HandlerAction::Persist(email) => {
            assert_eq!(
                email.to.into_vec(),
                vec![mailbox("r@b.com"), mailbox("second@b.com")]
            );
        }
        other => panic!("expected a message, got {:?}", other),
    }
}

#[test]
fn data_lines_get_no_reply() {
    let mut handler = in_data();
    for line in ["Subject: x", " folded", "X: y", "", "body", "..dot", "more"] {
        assert_eq!(handler.handle_line(line), HandlerAction::Continue(None));
    }
    match handler.handle_line(".") {
        HandlerAction::Persist(email) => {
            assert_eq!(email.subject, "x folded");
            assert_eq!(
                email.headers,
                vec![
                    ("Subject".to_string(), "x folded".to_string()),
                    ("X".to_string(), "y".to_string()),
                ]
            );
            assert_eq!(email.body, "body\r\n.dot\r\nmore\r\n");
        }
        other => panic!("expected a message, got {:?}", other),
    }
    assert_eq!(handler.state(), MessageParserState::End);
}

#[test]
fn malformed_header_gets_501() {
    let mut handler = in_data();
    handler.handle_line("Subject: x");
    assert_eq!(
        handler.handle_line("not a header"),
        HandlerAction::Close(Reply::SyntaxError)
    );
    assert_eq!(handler.state(), MessageParserState::Aborted);
}

#[test]
fn storage_failure_gets_550() {
    let mut handler = in_data();
    handler.handle_line("");
    assert!(matches!(handler.handle_line("."), HandlerAction::Persist(_)));
    assert_eq!(handler.stored(false), Reply::InternalError);
    assert_eq!(handler.state(), MessageParserState::Aborted);
}

#[test]
fn storage_success_gets_250() {
    let mut handler = in_data();
    handler.handle_line("");
    assert!(matches!(handler.handle_line("."), HandlerAction::Persist(_)));
    assert_eq!(handler.stored(true), Reply::Accepted);
    assert_eq!(handler.state(), MessageParserState::Done);
}

#[test]
fn storing_without_a_message_is_a_failure() {
    let mut handler = with_recipient();
    assert_eq!(handler.stored(true), Reply::InternalError);
    assert_eq!(handler.state(), MessageParserState::Aborted);
}

#[test]
fn lines_after_the_end_get_503() {
    let mut handler = in_data();
    handler.handle_line("");
    handler.handle_line(".");
    assert_eq!(
        handler.handle_line("QUIT"),
        HandlerAction::Close(Reply::BadSequence)
    );
}

#[test]
fn single_dot_after_headers_sends_the_message_to_storage() {
    for stored in [true, false] {
        let mut handler = in_data();
        assert_eq!(handler.handle_line("Subject: Hi"), HandlerAction::Continue(None));
        assert_eq!(handler.handle_line(" there"), HandlerAction::Continue(None));
        match handler.handle_line(".") {
            HandlerAction::Persist(email) => {
                assert_eq!(email.from, Some(mailbox("s@a.com")));
                assert_eq!(email.to.into_vec(), vec![mailbox("r@b.com")]);
                assert_eq!(email.subject, "Hi there");
                assert_eq!(
                    email.headers,
                    vec![("Subject".to_string(), "Hi there".to_string())]
                );
                assert_eq!(email.body, "");
            }
            other => panic!("expected a message, got {:?}", other),
        }
        assert_eq!(handler.state(), MessageParserState::End);
        if stored {
            assert_eq!(handler.stored(true), Reply::Accepted);
            assert_eq!(handler.state(), MessageParserState::Done);
        } else {
            assert_eq!(handler.stored(false), Reply::InternalError);
            assert_eq!(handler.state(), MessageParserState::Aborted);
        }
    }
}

#[test]
fn single_dot_right_after_data_sends_an_empty_message() {
    let mut handler = in_data();
    match handler.handle_line(".") {
        HandlerAction::Persist(email) => {
            assert!(email.headers.is_empty());
            assert_eq!(email.body, "");
        }
        other => panic!("expected a message, got {:?}", other),
    }
}

#[test]
fn the_dot_is_never_part_of_the_message() {
    let mut handler = in_data();
    handler.handle_line("A: b");
    handler.handle_line("");
    handler.handle_line("one");
    match handler.handle_line(".") {
        HandlerAction::Persist(email) => {
            assert_eq!(email.body, "one\r\n");
            assert_eq!(email.headers, vec![("A".to_string(), "b".to_string())]);
        }
        other => panic!("expected a message, got {:?}", other),
    }
}
