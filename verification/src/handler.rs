//! The server side of one connection: which reply each line is owed, and
//! when the message goes to storage.
//!
//! The handler performs no input or output. Its caller reads the lines,
//! writes the replies, stores the message, and reports back.

use crate::dialog::{
    consistent, flushed, initial, is_terminal, lemma_on_line_consistent,
    lemma_on_stored_consistent, on_line, on_stored, MessageParserState, Progress,
};
use crate::text::is_end_of_data;
use crate::email::{envelope_of, Envelope, NewEmail};
use crate::event::{Event, Fault, MessageParserError, MessageParserEvent};
use crate::transaction::Transaction;
use vstd::prelude::*;
use vstd::string::*;

verus! {

/// A reply line of the server.
#[derive(Debug, Clone, Copy, PartialEq, Eq, Structural)]
pub enum Reply {
    /// 220, the greeting of a new connection.
    ServiceReady,
    /// 250, after `HELO` or `EHLO`.
    Hello,
    /// 250, after an accepted sender or recipient.
    Okay,
    /// 354, after `DATA`.
    StartMailInput,
    /// 250, after the message was stored.
    Accepted,
    /// 500, the command was not recognised.
    UnrecognizedCommand,
    /// 501, the argument or the header block is malformed.
    SyntaxError,
    /// 503, the command does not fit the state of the dialog.
    BadSequence,
    /// 550, the message could not be stored.
    InternalError,
}

impl Reply {
    /// The numeric code of the reply.
    pub open spec fn spec_code(self) -> u16 {
        match self {
            Reply::ServiceReady => 220,
            Reply::Hello | Reply::Okay | Reply::Accepted => 250,
            Reply::StartMailInput => 354,
            Reply::UnrecognizedCommand => 500,
            Reply::SyntaxError => 501,
            Reply::BadSequence => 503,
            Reply::InternalError => 550,
        }
    }

    /// The reply as it goes over the wire, CR LF included.
    pub open spec fn spec_line(self) -> Seq<char> {
        match self {
            Reply::ServiceReady => "220 smt.example.com ESMTP Remail\r\n"@,
            Reply::Hello => "250 Hello\r\n"@,
            Reply::Okay => "250 OK\r\n"@,
            Reply::StartMailInput => "354 Start mail input; end with <CRLF>.<CRLF>\r\n"@,
            Reply::Accepted => "250 OK: Message accepted for delivery\r\n"@,
            Reply::UnrecognizedCommand => "500 Unrecognized command\r\n"@,
            Reply::SyntaxError => "501 Syntax error in parameters or arguments\r\n"@,
            Reply::BadSequence => "503 Bad sequence of commands\r\n"@,
            Reply::InternalError => "550 Internal server error\r\n"@,
        }
    }

    /// A reply with a code from 500 on ends the dialog.
    pub open spec fn is_failure(self) -> bool {
        self.spec_code() >= 500
    }

    pub fn code(self) -> (r: u16)
        ensures
            r == self.spec_code(),
    {
        match self {
            Reply::ServiceReady => 220,
            Reply::Hello | Reply::Okay | Reply::Accepted => 250,
            Reply::StartMailInput => 354,
            Reply::UnrecognizedCommand => 500,
            Reply::SyntaxError => 501,
            Reply::BadSequence => 503,
            Reply::InternalError => 550,
        }
    }

    pub fn line(self) -> (r: &'static str)
        ensures
            r@ == self.spec_line(),
    {
        match self {
            Reply::ServiceReady => "220 smt.example.com ESMTP Remail\r\n",
            Reply::Hello => "250 Hello\r\n",
            Reply::Okay => "250 OK\r\n",
            Reply::StartMailInput => "354 Start mail input; end with <CRLF>.<CRLF>\r\n",
            Reply::Accepted => "250 OK: Message accepted for delivery\r\n",
            Reply::UnrecognizedCommand => "500 Unrecognized command\r\n",
            Reply::SyntaxError => "501 Syntax error in parameters or arguments\r\n",
            Reply::BadSequence => "503 Bad sequence of commands\r\n",
            Reply::InternalError => "550 Internal server error\r\n",
        }
    }
}

/// What the caller does after a line.
#[derive(Debug, Clone, PartialEq)]
pub enum HandlerAction {
    /// Write the reply, if there is one, and read the next line.
    Continue(Option<Reply>),
    /// Store the message, then report the result with `stored`.
    Persist(NewEmail),
    /// Write the reply and close the connection.
    Close(Reply),
}

/// The view of a `HandlerAction`.
pub enum Action {
    Continue(Option<Reply>),
    Persist(Envelope),
    Close(Reply),
}

impl View for HandlerAction {
    type V = Action;

    open spec fn view(&self) -> Action {
        match self {
            HandlerAction::Continue(reply) => Action::Continue(*reply),
            HandlerAction::Persist(email) => Action::Persist(email@),
            HandlerAction::Close(reply) => Action::Close(*reply),
        }
    }
}

/// The reply to a line that is not the command expected in `state`: 500
/// where the line is too short to hold the expected keyword, or where a
/// greeting was expected; 503 otherwise.
pub open spec fn rejection(state: MessageParserState, line: Seq<char>) -> Reply {
    match state {
        MessageParserState::Start => Reply::UnrecognizedCommand,
        MessageParserState::Helo => if line.len() < "MAIL FROM:"@.len() {
            Reply::UnrecognizedCommand
        } else {
            Reply::BadSequence
        },
        MessageParserState::MailFrom => if line.len() < "RCPT TO:"@.len() {
            Reply::UnrecognizedCommand
        } else {
            Reply::BadSequence
        },
        _ => Reply::BadSequence,
    }
}

/// The reply that reports `fault`, raised by `line` in `state`.
pub open spec fn reply_for_fault(state: MessageParserState, line: Seq<char>, fault: Fault) -> Reply {
    match fault {
        Fault::UnrecognizedCommand(_) => rejection(state, line),
        Fault::InvalidFromEmailAddress(_) => Reply::SyntaxError,
        Fault::InvalidToEmailAddress(_) => Reply::SyntaxError,
        Fault::InvalidHeader(_) => Reply::SyntaxError,
        Fault::UnexpectedDataAfterEnd(_) => Reply::BadSequence,
        Fault::IO(_) => Reply::InternalError,
        Fault::UnexpectedEnd => Reply::InternalError,
    }
}

/// What the caller does after `line` arrived in transaction `before`:
/// - a fault is reported with its reply, and the connection closes;
/// - an accepted greeting, sender, recipient or `DATA` gets its reply;
/// - the end of the data sends the message to storage;
/// - header and body lines get no reply.
pub open spec fn action_for(before: Progress, line: Seq<char>) -> Action {
    let (after, outcome) = on_line(before, line);
    match outcome {
        Some(Err(fault)) => Action::Close(reply_for_fault(before.state, line, fault)),
        Some(Ok(Event::From(_))) => Action::Continue(Some(Reply::Okay)),
        Some(Ok(Event::To(_))) => Action::Continue(Some(Reply::Okay)),
        Some(Ok(Event::Body(_))) => Action::Persist(
            envelope_of(after.from, after.to, after.headers, after.body),
        ),
        Some(Ok(_)) => Action::Continue(None),
        None => if before.state == MessageParserState::Start {
            Action::Continue(Some(Reply::Hello))
        } else if before.state == MessageParserState::RcptTo {
            Action::Continue(Some(Reply::StartMailInput))
        } else {
            Action::Continue(None)
        },
    }
}

/// The reply after the attempt to store the message.
pub open spec fn reply_for_stored(before: Progress, stored: bool) -> Reply {
    if stored && before.state == MessageParserState::End {
        Reply::Accepted
    } else {
        Reply::InternalError
    }
}

/// The code that a reply line opens with.
pub open spec fn leading_code(line: Seq<char>) -> int {
    (line[0] as int - '0' as int) * 100 + (line[1] as int - '0' as int) * 10 + (line[2] as int
        - '0' as int)
}

/// Every reply line opens with the three digits of its code and a space,
/// and ends with CR LF.
pub proof fn lemma_reply_line(reply: Reply)
    ensures
        reply.spec_line().len() >= 6,
        leading_code(reply.spec_line()) == reply.spec_code(),
        reply.spec_line()[3] == ' ',
        reply.spec_line()[reply.spec_line().len() - 2] == '\r',
        reply.spec_line().last() == '\n',
{
    reveal_strlit("220 smt.example.com ESMTP Remail\r\n");
    reveal_strlit("250 Hello\r\n");
    reveal_strlit("250 OK\r\n");
    reveal_strlit("354 Start mail input; end with <CRLF>.<CRLF>\r\n");
    reveal_strlit("250 OK: Message accepted for delivery\r\n");
    reveal_strlit("500 Unrecognized command\r\n");
    reveal_strlit("501 Syntax error in parameters or arguments\r\n");
    reveal_strlit("503 Bad sequence of commands\r\n");
    reveal_strlit("550 Internal server error\r\n");
}

/// What the handler never does: it closes a connection only with a
/// failure reply and an abandoned transaction; it continues only with a
/// reply that is no failure; and it sends to storage only a transaction
/// whose data has just ended with the single dot, with at least one
/// recipient.
pub proof fn lemma_action_for(before: Progress, line: Seq<char>)
    requires
        consistent(before),
    ensures
        match action_for(before, line) {
            Action::Close(reply) => reply.is_failure() && on_line(before, line).0.state
                == MessageParserState::Aborted,
            Action::Continue(Some(reply)) => !reply.is_failure() && !is_terminal(
                on_line(before, line).0.state,
            ),
            Action::Continue(None) => !is_terminal(on_line(before, line).0.state),
            Action::Persist(message) => {
                &&& on_line(before, line).0.state == MessageParserState::End
                &&& is_end_of_data(line)
                &&& message.to.len() >= 1
                &&& message.to == before.to
                &&& message.from == before.from
            },
        },
{
    lemma_on_line_consistent(before, line);
}

/// Inside the data the single dot always sends the message to storage:
/// sender and recipients as named, the header fields with the one still
/// open completed, the body lines read so far, and never the dot itself.
/// The reply then depends on storage alone: 250 once the message is
/// stored, 550 where it is not.
pub proof fn lemma_dot_is_stored(before: Progress)
    requires
        consistent(before),
        before.state == MessageParserState::Headers || before.state == MessageParserState::Body,
    ensures
        action_for(before, seq!['.']) == Action::Persist(
            envelope_of(before.from, before.to, flushed(before).headers, before.body),
        ),
        before.to.len() >= 1,
        reply_for_stored(on_line(before, seq!['.']).0, true) == Reply::Accepted,
        reply_for_stored(on_line(before, seq!['.']).0, false) == Reply::InternalError,
        on_stored(on_line(before, seq!['.']).0, true).state == MessageParserState::Done,
        on_stored(on_line(before, seq!['.']).0, false).state == MessageParserState::Aborted,
{
}

/// The handler of one connection.
pub struct SmtpHandler {
    transaction: Transaction,
}

impl View for SmtpHandler {
    type V = Progress;

    closed spec fn view(&self) -> Progress {
        self.transaction@
    }
}

impl SmtpHandler {
    /// The transaction is one that a dialog can reach.
    pub open spec fn wf(&self) -> bool {
        consistent(self@)
    }

    pub fn new() -> (r: Self)
        ensures
            r@ == initial(),
            r.wf(),
    {
        SmtpHandler { transaction: Transaction::new() }
    }

    /// The reply that opens the connection.
    pub fn greeting(&self) -> (r: Reply)
        ensures
            r == Reply::ServiceReady,
    {
        Reply::ServiceReady
    }

    /// The state of the dialog.
    pub fn state(&self) -> (s: MessageParserState)
        ensures
            s == self@.state,
    {
        self.transaction.state()
    }

    fn rejection(state: MessageParserState, text: &str) -> (r: Reply)
        ensures
            r == rejection(state, text@),
    {
        proof {
            reveal_strlit("MAIL FROM:");
            reveal_strlit("RCPT TO:");
        }
        match state {
            MessageParserState::Start => Reply::UnrecognizedCommand,
            MessageParserState::Helo => if text.unicode_len() < 10 {
                Reply::UnrecognizedCommand
            } else {
                Reply::BadSequence
            },
            MessageParserState::MailFrom => if text.unicode_len() < 8 {
                Reply::UnrecognizedCommand
            } else {
                Reply::BadSequence
            },
            _ => Reply::BadSequence,
        }
    }

    fn reply_for_error(state: MessageParserState, text: &str, error: &MessageParserError) -> (r:
        Reply)
        ensures
            r == reply_for_fault(state, text@, error@),
    {
        match error {
            MessageParserError::UnrecognizedCommand(_) => Self::rejection(state, text),
            MessageParserError::InvalidFromEmailAddress(_) => Reply::SyntaxError,
            MessageParserError::InvalidToEmailAddress(_) => Reply::SyntaxError,
            MessageParserError::InvalidHeader(_) => Reply::SyntaxError,
            MessageParserError::UnexpectedDataAfterEnd(_) => Reply::BadSequence,
            MessageParserError::IO(_) => Reply::InternalError,
            MessageParserError::UnexpectedEnd => Reply::InternalError,
        }
    }

    /// Takes the next line of the peer, its terminator already removed,
    /// and says what the caller does next.
    pub fn handle_line(&mut self, text: &str) -> (r: HandlerAction)
        requires
            old(self).wf(),
        ensures
            final(self).wf(),
            final(self)@ == on_line(old(self)@, text@).0,
            r@ == action_for(old(self)@, text@),
    {
        proof {
            lemma_on_line_consistent(self@, text@);
        }
        let state = self.transaction.state();
        match self.transaction.accept_line(text) {
            Some(Err(error)) => HandlerAction::Close(Self::reply_for_error(state, text, &error)),
            Some(Ok(MessageParserEvent::From(_))) => HandlerAction::Continue(Some(Reply::Okay)),
            Some(Ok(MessageParserEvent::To(_))) => HandlerAction::Continue(Some(Reply::Okay)),
            Some(Ok(MessageParserEvent::Body(_))) => {
                match self.transaction.message() {
                    Some(email) => HandlerAction::Persist(email),
                    None => {
                        assert(false);
                        unreached()
                    },
                }
            },
            Some(Ok(_)) => HandlerAction::Continue(None),
            None => match state {
                MessageParserState::Start => HandlerAction::Continue(Some(Reply::Hello)),
                MessageParserState::RcptTo => HandlerAction::Continue(Some(Reply::StartMailInput)),
                _ => HandlerAction::Continue(None),
            },
        }
    }

    /// Takes the result of storing the message that `handle_line` handed
    /// out, and gives the reply that ends the dialog.
    pub fn stored(&mut self, stored: bool) -> (r: Reply)
        requires
            old(self).wf(),
        ensures
            final(self).wf(),
            final(self)@ == on_stored(old(self)@, stored),
            r == reply_for_stored(old(self)@, stored),
    {
        proof {
            lemma_on_stored_consistent(self@, stored);
        }
        let accepted = stored && self.transaction.state() == MessageParserState::End;
        self.transaction.accept_stored(stored);
        if accepted {
            Reply::Accepted
        } else {
            Reply::InternalError
        }
    }
}

} // verus!
