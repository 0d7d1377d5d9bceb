//! The dialog of one mail transaction as a mathematical state machine:
//! what each line, the end of the input, or a failure of the line source
//! does to the transaction, and what it yields.

use crate::address::{is_mailbox, recipient_argument, sender_argument, AddressFault};
use crate::event::{Event, Fault, Outcome};
use crate::text::{
    find_char, has_keyword, eq_ignore_case, is_end_of_data, is_fold_mark, join_with_space,
    strip_fold_mark, unstuffed,
};
use vstd::prelude::*;

verus! {

/// Where a dialog stands.
#[derive(Debug, Clone, Copy, PartialEq, Eq, Structural)]
pub enum MessageParserState {
    /// Nothing received yet; `HELO` or `EHLO` is expected.
    Start,
    /// Greeted; `MAIL FROM:` is expected.
    Helo,
    /// The sender is known; `RCPT TO:` is expected.
    MailFrom,
    /// At least one recipient is known; `RCPT TO:` or `DATA` is expected.
    RcptTo,
    /// Inside the data, reading the header block.
    Headers,
    /// Inside the data, reading body lines.
    Body,
    /// The data ended; nothing more is expected.
    End,
    /// The input ended after a complete transaction.
    Done,
    /// The dialog was abandoned after a fault.
    Aborted,
}

/// The transaction built so far.
pub struct Progress {
    pub state: MessageParserState,
    /// The sender; `None` before `MAIL FROM:` and for the null sender.
    pub from: Option<Seq<char>>,
    /// The recipients, in the order in which they were named.
    pub to: Seq<Seq<char>>,
    /// The header field that later lines may still continue: its name and
    /// the parts of its value.
    pub open: Option<(Seq<char>, Seq<Seq<char>>)>,
    /// The completed header fields.
    pub headers: Seq<(Seq<char>, Seq<char>)>,
    /// The body lines, dots unstuffed.
    pub body: Seq<Seq<char>>,
}

/// The transaction before any input.
pub open spec fn initial() -> Progress {
    Progress {
        state: MessageParserState::Start,
        from: None,
        to: Seq::empty(),
        open: None,
        headers: Seq::empty(),
        body: Seq::empty(),
    }
}

/// No input moves the dialog on from here.
pub open spec fn is_terminal(state: MessageParserState) -> bool {
    state == MessageParserState::Done || state == MessageParserState::Aborted
}

/// The dialog is abandoned with `fault`.
pub open spec fn abort(p: Progress, fault: Fault) -> (Progress, Outcome) {
    (Progress { state: MessageParserState::Aborted, ..p }, Some(Err(fault)))
}

/// In `Start`: a line that begins with `HELO` or `EHLO` greets.
pub open spec fn greet(p: Progress, line: Seq<char>) -> (Progress, Outcome) {
    if has_keyword(line, "HELO"@) || has_keyword(line, "EHLO"@) {
        (Progress { state: MessageParserState::Helo, ..p }, None)
    } else {
        abort(p, Fault::UnrecognizedCommand(line))
    }
}

/// The step that a `MAIL FROM:` command takes once its argument is read:
/// a sender, null or not, is recorded and reported; an argument that
/// names none is a fault.
pub open spec fn with_sender(p: Progress, sender: Result<Option<Seq<char>>, AddressFault>) -> (
    Progress,
    Outcome,
) {
    match sender {
        Ok(named) => (
            Progress { state: MessageParserState::MailFrom, from: named, ..p },
            Some(Ok(Event::From(named))),
        ),
        Err(fault) => abort(p, Fault::InvalidFromEmailAddress(fault)),
    }
}

/// The step that a `RCPT TO:` command takes once its argument is read: a
/// recipient is added after those already known and reported; an
/// argument that names none is a fault.
pub open spec fn with_recipient(p: Progress, recipient: Result<Seq<char>, AddressFault>) -> (
    Progress,
    Outcome,
) {
    match recipient {
        Ok(named) => (
            Progress { state: MessageParserState::RcptTo, to: p.to.push(named), ..p },
            Some(Ok(Event::To(named))),
        ),
        Err(fault) => abort(p, Fault::InvalidToEmailAddress(fault)),
    }
}

/// In `Helo`: `MAIL FROM:` names the sender. An empty argument, with or
/// without brackets, is the null sender.
pub open spec fn mail_from(p: Progress, line: Seq<char>) -> (Progress, Outcome) {
    if has_keyword(line, "MAIL FROM:"@) {
        with_sender(p, sender_argument(line, "MAIL FROM:"@.len() as int))
    } else {
        abort(p, Fault::UnrecognizedCommand(line))
    }
}

/// A line that begins with `RCPT TO:` adds a recipient.
pub open spec fn add_recipient(p: Progress, line: Seq<char>) -> (Progress, Outcome) {
    with_recipient(p, recipient_argument(line, "RCPT TO:"@.len() as int))
}

/// In `MailFrom`: `RCPT TO:` names the first recipient.
pub open spec fn first_recipient(p: Progress, line: Seq<char>) -> (Progress, Outcome) {
    if has_keyword(line, "RCPT TO:"@) {
        add_recipient(p, line)
    } else {
        abort(p, Fault::UnrecognizedCommand(line))
    }
}

/// In `RcptTo`: `DATA` opens the data, `RCPT TO:` names one more recipient.
pub open spec fn recipient_or_data(p: Progress, line: Seq<char>) -> (Progress, Outcome) {
    if eq_ignore_case(line, "DATA"@) {
        (Progress { state: MessageParserState::Headers, ..p }, None)
    } else if has_keyword(line, "RCPT TO:"@) {
        add_recipient(p, line)
    } else {
        abort(p, Fault::UnrecognizedCommand(line))
    }
}

/// A header line read as a field: the name before the first colon, which
/// must not be empty, and the value after it, less one leading space or
/// tab. `None` where the line is no field.
pub open spec fn header_field(line: Seq<char>) -> Option<(Seq<char>, Seq<char>)> {
    let colon = find_char(line, ':', 0);
    if 0 < colon < line.len() {
        Some((line.take(colon), strip_fold_mark(line.skip(colon + 1))))
    } else {
        None
    }
}

/// Whether `line` holds a colon.
pub open spec fn has_colon(line: Seq<char>) -> bool {
    find_char(line, ':', 0) < line.len()
}

/// The transaction with its open header field, if any, completed.
pub open spec fn flushed(p: Progress) -> Progress {
    match p.open {
        Some((name, parts)) => Progress {
            open: None,
            headers: p.headers.push((name, join_with_space(parts))),
            ..p
        },
        None => p,
    }
}

/// What completing the open header field yields.
pub open spec fn flush_outcome(p: Progress) -> Outcome {
    match p.open {
        Some((name, parts)) => Some(Ok(Event::Header(name, join_with_space(parts)))),
        None => None,
    }
}

/// The field that a line completes without reporting it: inside the
/// header block the single dot ends the data and yields the body, so the
/// field that it completes is reported before the line is taken.
pub open spec fn completes_unreported(p: Progress, line: Seq<char>) -> bool {
    p.state == MessageParserState::Headers && p.open is Some && is_end_of_data(line)
}

/// In `Body`: a single dot ends the data; any other line joins the body
/// with one leading dot removed.
pub open spec fn body_line(p: Progress, line: Seq<char>) -> (Progress, Outcome) {
    if is_end_of_data(line) {
        (Progress { state: MessageParserState::End, ..p }, Some(Ok(Event::Body(p.body))))
    } else {
        (Progress { body: p.body.push(unstuffed(line)), ..p }, None)
    }
}

/// In `Headers`:
/// - a single dot ends the data, as it does in the body: the open field
///   is completed first, and the message has no body lines but those
///   already read;
/// - an empty line completes the open field and begins the body;
/// - a line that opens with a space or tab continues the open field with
///   what follows that one character, and is a fault where no field is open;
/// - a field completes the open field and becomes the open one;
/// - a line without a colon is a fault while a field is open; where the
///   data has no header block at all, it is the first body line;
/// - a line that opens with a colon is a fault.
pub open spec fn header_line(p: Progress, line: Seq<char>) -> (Progress, Outcome) {
    if is_end_of_data(line) {
        body_line(Progress { state: MessageParserState::Body, ..flushed(p) }, line)
    } else if line.len() == 0 {
        (Progress { state: MessageParserState::Body, ..flushed(p) }, flush_outcome(p))
    } else if is_fold_mark(line[0]) {
        match p.open {
            Some((name, parts)) => (
                Progress { open: Some((name, parts.push(line.skip(1)))), ..p },
                None,
            ),
            None => abort(p, Fault::InvalidHeader(line)),
        }
    } else {
        match header_field(line) {
            Some((name, value)) => (
                Progress { open: Some((name, seq![value])), ..flushed(p) },
                flush_outcome(p),
            ),
            None => {
                if p.open is None && !has_colon(line) {
                    body_line(Progress { state: MessageParserState::Body, ..p }, line)
                } else {
                    abort(p, Fault::InvalidHeader(line))
                }
            },
        }
    }
}

/// What a line does to the transaction.
pub open spec fn on_line(p: Progress, line: Seq<char>) -> (Progress, Outcome) {
    match p.state {
        MessageParserState::Start => greet(p, line),
        MessageParserState::Helo => mail_from(p, line),
        MessageParserState::MailFrom => first_recipient(p, line),
        MessageParserState::RcptTo => recipient_or_data(p, line),
        MessageParserState::Headers => header_line(p, line),
        MessageParserState::Body => body_line(p, line),
        MessageParserState::End | MessageParserState::Done | MessageParserState::Aborted => abort(
            p,
            Fault::UnexpectedDataAfterEnd(line),
        ),
    }
}

/// What the end of the input does to the transaction. A header field
/// that is still open is completed first; the end is reported after it.
pub open spec fn on_end(p: Progress) -> (Progress, Outcome) {
    match p.state {
        MessageParserState::End => (
            Progress { state: MessageParserState::Done, ..p },
            Some(Ok(Event::Done)),
        ),
        MessageParserState::Done | MessageParserState::Aborted => (p, None),
        MessageParserState::Headers => {
            if p.open is Some {
                (flushed(p), flush_outcome(p))
            } else {
                abort(p, Fault::UnexpectedEnd)
            }
        },
        _ => abort(p, Fault::UnexpectedEnd),
    }
}

/// What a failure of the line source does to the transaction.
pub open spec fn on_failure(p: Progress, reason: Seq<char>) -> (Progress, Outcome) {
    abort(p, Fault::IO(reason))
}

/// A step that yields a fault abandons the dialog, and only the end of
/// the input after the data yields `Done`.
pub proof fn lemma_fault_aborts(p: Progress, line: Seq<char>, reason: Seq<char>)
    ensures
        on_line(p, line).1 matches Some(Err(_)) ==> on_line(p, line).0.state
            == MessageParserState::Aborted,
        on_end(p).1 matches Some(Err(_)) ==> on_end(p).0.state == MessageParserState::Aborted,
        on_failure(p, reason).0.state == MessageParserState::Aborted,
        on_line(p, line).1 != Some(Ok::<Event, Fault>(Event::Done)),
        on_end(p).1 == Some(Ok::<Event, Fault>(Event::Done)) ==> on_end(p).0.state
            == MessageParserState::Done,
{
}

/// What the result of storing the message does to a transaction whose
/// data has ended: stored, the transaction is done; otherwise it is
/// abandoned. A transaction whose data has not ended is abandoned.
pub open spec fn on_stored(p: Progress, stored: bool) -> Progress {
    if stored && p.state == MessageParserState::End {
        Progress { state: MessageParserState::Done, ..p }
    } else {
        Progress { state: MessageParserState::Aborted, ..p }
    }
}

/// What holds of every transaction that a dialog can reach:
/// - no sender or recipient is known before its command was accepted;
/// - at least one recipient is known once `RCPT TO:` was accepted, and so
///   throughout the data and after it;
/// - header fields and body lines exist only once the data has begun;
/// - a header field can be open only inside the header block, and holds
///   a name and at least one part;
/// - no header field has an empty name.
/// Nothing is promised of an abandoned transaction but the last point.
pub open spec fn consistent(p: Progress) -> bool {
    &&& match p.state {
        MessageParserState::Start | MessageParserState::Helo => p.from is None && p.to.len() == 0,
        MessageParserState::MailFrom => p.to.len() == 0,
        MessageParserState::Aborted => true,
        _ => p.to.len() >= 1,
    }
    &&& match p.state {
        MessageParserState::Start
        | MessageParserState::Helo
        | MessageParserState::MailFrom
        | MessageParserState::RcptTo => p.headers.len() == 0 && p.body.len() == 0,
        MessageParserState::Headers => p.body.len() == 0,
        _ => true,
    }
    &&& match p.open {
        Some((name, parts)) => {
            &&& p.state == MessageParserState::Headers || p.state == MessageParserState::Aborted
            &&& name.len() > 0
            &&& parts.len() >= 1
        },
        None => true,
    }
    &&& forall|i: int| 0 <= i < p.headers.len() ==> (#[trigger] p.headers[i]).0.len() > 0
}

/// Every sender and recipient that the transaction holds is a mailbox: a
/// text that is not empty and of valid address syntax.
pub open spec fn holds_mailboxes(p: Progress) -> bool {
    &&& p.from is Some ==> is_mailbox(p.from->Some_0)
    &&& forall|i: int| 0 <= i < p.to.len() ==> is_mailbox(#[trigger] p.to[i])
}

/// A dialog records only mailboxes: whatever arrives, only a validated
/// address becomes the sender or a recipient.
pub proof fn lemma_holds_mailboxes(p: Progress, line: Seq<char>, reason: Seq<char>)
    requires
        holds_mailboxes(p),
    ensures
        holds_mailboxes(initial()),
        holds_mailboxes(on_line(p, line).0),
        holds_mailboxes(on_end(p).0),
        holds_mailboxes(on_failure(p, reason).0),
{
}

/// A dialog starts in a consistent transaction.
pub proof fn lemma_initial_consistent()
    ensures
        consistent(initial()),
{
}

/// No line leads out of the consistent transactions.
pub proof fn lemma_on_line_consistent(p: Progress, line: Seq<char>)
    requires
        consistent(p),
    ensures
        consistent(on_line(p, line).0),
{
    let q = on_line(p, line).0;
    if p.state == MessageParserState::Headers {
        let f = flushed(p);
        assert(forall|i: int| 0 <= i < f.headers.len() ==> (#[trigger] f.headers[i]).0.len() > 0);
    }
    assert(forall|i: int| 0 <= i < q.headers.len() ==> (#[trigger] q.headers[i]).0.len() > 0);
}

/// Naming a sender where the dialog expects one, or a recipient where it
/// expects one, does not lead out of the consistent transactions.
pub proof fn lemma_named_consistent(
    p: Progress,
    sender: Result<Option<Seq<char>>, AddressFault>,
    recipient: Result<Seq<char>, AddressFault>,
)
    requires
        consistent(p),
    ensures
        p.state == MessageParserState::Helo ==> consistent(with_sender(p, sender).0),
        p.state == MessageParserState::MailFrom || p.state == MessageParserState::RcptTo
            ==> consistent(with_recipient(p, recipient).0),
{
}

/// Completing the open header field does not lead out of the consistent
/// transactions.
pub proof fn lemma_flushed_consistent(p: Progress)
    requires
        consistent(p),
    ensures
        consistent(flushed(p)),
{
    let q = flushed(p);
    assert(forall|i: int| 0 <= i < q.headers.len() ==> (#[trigger] q.headers[i]).0.len() > 0);
}

/// The end of the input does not lead out of the consistent transactions.
pub proof fn lemma_on_end_consistent(p: Progress)
    requires
        consistent(p),
    ensures
        consistent(on_end(p).0),
{
    let q = on_end(p).0;
    assert(forall|i: int| 0 <= i < q.headers.len() ==> (#[trigger] q.headers[i]).0.len() > 0);
}

/// A failure of the line source does not lead out of the consistent
/// transactions.
pub proof fn lemma_on_failure_consistent(p: Progress, reason: Seq<char>)
    requires
        consistent(p),
    ensures
        consistent(on_failure(p, reason).0),
{
}

/// The result of storing does not lead out of the consistent transactions.
pub proof fn lemma_on_stored_consistent(p: Progress, stored: bool)
    requires
        consistent(p),
    ensures
        consistent(on_stored(p, stored)),
{
}

} // verus!
