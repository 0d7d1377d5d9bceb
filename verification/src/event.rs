//! What the protocol engine reports: events, errors, and their
//! mathematical views.

use crate::address::{AddressError, AddressFault, Mailbox};
use crate::text::texts;
use vstd::prelude::*;

verus! {

/// A completed mail transaction. It carries no data of its own: the
/// parts of the message were reported by the events before it.
#[derive(Debug, Clone, PartialEq, Eq)]
pub struct Message {}

/// One step of progress in a mail transaction.
#[derive(Debug, Clone, PartialEq, Eq)]
pub enum MessageParserEvent {
    /// The sender was named; `None` is the null sender of `MAIL FROM:<>`.
    From(Option<Mailbox>),
    /// A recipient was named.
    To(Mailbox),
    /// A header field is complete: its name and its unfolded value.
    Header(String, String),
    /// The data ended: the body lines, dots unstuffed.
    Body(Vec<String>),
    /// The input ended after a complete transaction.
    Done(Message),
}

/// Why a dialog was abandoned.
#[derive(Debug)]
pub enum MessageParserError {
    /// The line source failed; the text describes the failure.
    IO(String),
    /// The line is not the command that the dialog expects next. A known
    /// command out of sequence is reported in the same way.
    UnrecognizedCommand(String),
    InvalidFromEmailAddress(AddressError),
    InvalidToEmailAddress(AddressError),
    /// The input ended inside an unfinished transaction.
    UnexpectedEnd,
    /// A line arrived after the end of the data.
    UnexpectedDataAfterEnd(String),
    /// A line of the header block is neither a field nor a continuation.
    InvalidHeader(String),
}

/// The view of a `MessageParserEvent`.
pub enum Event {
    From(Option<Seq<char>>),
    To(Seq<char>),
    Header(Seq<char>, Seq<char>),
    Body(Seq<Seq<char>>),
    Done,
}

/// The view of a `MessageParserError`.
pub enum Fault {
    IO(Seq<char>),
    UnrecognizedCommand(Seq<char>),
    InvalidFromEmailAddress(AddressFault),
    InvalidToEmailAddress(AddressFault),
    UnexpectedEnd,
    UnexpectedDataAfterEnd(Seq<char>),
    InvalidHeader(Seq<char>),
}

/// What one step yields: nothing, an event, or the fault that ends the
/// dialog.
pub type Outcome = Option<Result<Event, Fault>>;

/// The outcome of a step that yields `event`.
pub open spec fn yields(event: Event) -> Outcome {
    Some(Ok(event))
}

/// The outcome of a step that ends the dialog with `fault`.
pub open spec fn fails(fault: Fault) -> Outcome {
    Some(Err(fault))
}

/// The outcome of a step that yields nothing.
pub open spec fn silent() -> Outcome {
    None
}

impl View for MessageParserEvent {
    type V = Event;

    open spec fn view(&self) -> Event {
        match self {
            MessageParserEvent::From(None) => Event::From(None),
            MessageParserEvent::From(Some(sender)) => Event::From(Some(sender@)),
            MessageParserEvent::To(recipient) => Event::To(recipient@),
            MessageParserEvent::Header(name, value) => Event::Header(name@, value@),
            MessageParserEvent::Body(lines) => Event::Body(texts(lines@)),
            MessageParserEvent::Done(_) => Event::Done,
        }
    }
}

impl View for MessageParserError {
    type V = Fault;

    open spec fn view(&self) -> Fault {
        match self {
            MessageParserError::IO(reason) => Fault::IO(reason@),
            MessageParserError::UnrecognizedCommand(line) => Fault::UnrecognizedCommand(line@),
            MessageParserError::InvalidFromEmailAddress(e) => Fault::InvalidFromEmailAddress(e@),
            MessageParserError::InvalidToEmailAddress(e) => Fault::InvalidToEmailAddress(e@),
            MessageParserError::UnexpectedEnd => Fault::UnexpectedEnd,
            MessageParserError::UnexpectedDataAfterEnd(line) => Fault::UnexpectedDataAfterEnd(
                line@,
            ),
            MessageParserError::InvalidHeader(line) => Fault::InvalidHeader(line@),
        }
    }
}

/// The view of what a step returned.
pub open spec fn outcome_of(r: Option<Result<MessageParserEvent, MessageParserError>>) -> Outcome {
    match r {
        None => None,
        Some(Ok(event)) => Some(Ok(event@)),
        Some(Err(error)) => Some(Err(error@)),
    }
}

} // verus!
