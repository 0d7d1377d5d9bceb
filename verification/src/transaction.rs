//! The transaction of one dialog, built line by line.

use crate::address::{
    mailbox_texts, read_recipient, read_sender, recipient_view, sender_view, AddressError,
    AddressFault, Mailbox,
};
use crate::dialog::{
    consistent, lemma_flushed_consistent, lemma_named_consistent, lemma_on_end_consistent,
    lemma_on_failure_consistent, lemma_on_line_consistent, lemma_on_stored_consistent, abort, add_recipient, body_line, first_recipient, flush_outcome, flushed, greet,
    header_line, initial, mail_from, on_end, on_failure, on_line, on_stored,
    recipient_or_data, with_recipient, with_sender, MessageParserState, Progress,
};
use crate::email::{envelope_of, names_present, NewEmail};
use crate::event::{outcome_of, Message, MessageParserError, MessageParserEvent};
use crate::non_empty_vec::NonEmptyVec;
use crate::text::{
    field_texts, has_keyword, join_parts, strip_fold_mark, texts, unstuffed, Line,
};
use vstd::prelude::*;
use vstd::string::*;

verus! {

/// The mutable aggregate that one dialog builds: sender, recipients,
/// header fields and body, with the state of the dialog.
pub struct Transaction {
    state: MessageParserState,
    from: Option<Mailbox>,
    to: Option<NonEmptyVec<Mailbox>>,
    current_header: Option<(String, NonEmptyVec<String>)>,
    headers: Vec<(String, String)>,
    body: Vec<String>,
}

impl View for Transaction {
    type V = Progress;

    closed spec fn view(&self) -> Progress {
        Progress {
            state: self.state,
            from: match self.from {
                Some(sender) => Some(sender@),
                None => None,
            },
            to: match self.to {
                Some(list) => mailbox_texts(list@),
                None => Seq::empty(),
            },
            open: match self.current_header {
                Some((name, parts)) => Some((name@, texts(parts@))),
                None => None,
            },
            headers: field_texts(self.headers@),
            body: texts(self.body@),
        }
    }
}

/// A copy of a list of mailboxes.
fn copy_mailboxes(list: &NonEmptyVec<Mailbox>) -> (r: NonEmptyVec<Mailbox>)
    ensures
        mailbox_texts(r@) == mailbox_texts(list@),
{
    let items = list.iter();
    proof {
        list.lemma_non_empty();
    }
    let mut r = NonEmptyVec::new(items[0].clone());
    let mut i: usize = 1;
    while i < items.len()
        invariant
            1 <= i <= items@.len(),
            items@.len() == list@.len(),
            forall|k: int| 0 <= k < items@.len() ==> *#[trigger] items@[k] == list@[k],
            r@ =~= list@.take(i as int),
        decreases items@.len() - i,
    {
        r.push(items[i].clone());
        i += 1;
    }
    assert(list@.take(list@.len() as int) =~= list@);
    r
}

/// A copy of a list of header fields.
fn copy_fields(fields: &Vec<(String, String)>) -> (r: Vec<(String, String)>)
    ensures
        r@ == fields@,
{
    let mut r: Vec<(String, String)> = Vec::new();
    let mut i: usize = 0;
    while i < fields.len()
        invariant
            i <= fields@.len(),
            r@ =~= fields@.take(i as int),
        decreases fields@.len() - i,
    {
        r.push((fields[i].0.clone(), fields[i].1.clone()));
        i += 1;
    }
    assert(fields@.take(fields@.len() as int) =~= fields@);
    r
}

impl Transaction {
    /// The transaction is one that a dialog can reach.
    pub open spec fn wf(&self) -> bool {
        consistent(self@)
    }

    pub fn new() -> (r: Self)
        ensures
            r@ == initial(),
            r.wf(),
    {
        let r = Transaction {
            state: MessageParserState::Start,
            from: None,
            to: None,
            current_header: None,
            headers: Vec::new(),
            body: Vec::new(),
        };
        assert(r@.headers =~= initial().headers);
        assert(r@.body =~= initial().body);
        r
    }

    pub fn state(&self) -> (s: MessageParserState)
        ensures
            s == self@.state,
    {
        self.state
    }

    /// The sender, once it is known and not null.
    pub fn sender(&self) -> (r: Option<&Mailbox>)
        ensures
            r is Some <==> self@.from is Some,
            r is Some ==> r->Some_0@ == self@.from->Some_0,
    {
        self.from.as_ref()
    }

    /// The recipients named so far, first one first.
    pub fn recipients(&self) -> (r: Option<&NonEmptyVec<Mailbox>>)
        ensures
            r is None ==> self@.to.len() == 0,
            r is Some ==> mailbox_texts(r->Some_0@) == self@.to,
    {
        self.to.as_ref()
    }

    /// The completed header fields, in the order of the data.
    pub fn headers(&self) -> (r: &Vec<(String, String)>)
        ensures
            field_texts(r@) == self@.headers,
    {
        &self.headers
    }

    /// The body lines read so far.
    pub fn body(&self) -> (r: &Vec<String>)
        ensures
            texts(r@) == self@.body,
    {
        &self.body
    }

    /// The message that the transaction holds: sender, recipients, header
    /// fields and body as they stand. `None` while no recipient is known.
    /// No header field of the message has an empty name.
    pub fn message(&self) -> (r: Option<NewEmail>)
        requires
            self.wf(),
        ensures
            r is Some <==> self@.to.len() > 0,
            r is Some ==> r->Some_0.wf() && names_present(r->Some_0@.headers),
            r is Some ==> r->Some_0@ == envelope_of(
                self@.from,
                self@.to,
                self@.headers,
                self@.body,
            ),
    {
        let to = match &self.to {
            Some(list) => {
                proof {
                    list.lemma_non_empty();
                }
                copy_mailboxes(list)
            },
            None => {
                return None;
            },
        };
        let from = match &self.from {
            Some(sender) => Some(sender.clone()),
            None => None,
        };
        let headers = copy_fields(&self.headers);
        let body = self.body.clone();
        assert(texts(body@) =~= texts(self.body@));
        Some(NewEmail::from_raw_message(from, to, headers, body))
    }

    /// Takes the result of storing the message.
    pub fn accept_stored(&mut self, stored: bool)
        ensures
            final(self)@ == on_stored(old(self)@, stored),
            old(self).wf() ==> final(self).wf(),
    {
        proof {
            if self.wf() {
                lemma_on_stored_consistent(self@, stored);
            }
        }
        if stored && self.state == MessageParserState::End {
            self.state = MessageParserState::Done;
        } else {
            self.state = MessageParserState::Aborted;
        }
    }

    fn abandon(&mut self, error: MessageParserError) -> (r: Option<
        Result<MessageParserEvent, MessageParserError>,
    >)
        ensures
            (final(self)@, outcome_of(r)) == abort(old(self)@, error@),
    {
        self.state = MessageParserState::Aborted;
        Some(Err(error))
    }

    fn greet(&mut self, line: &Line) -> (r: Option<Result<MessageParserEvent, MessageParserError>>)
        ensures
            (final(self)@, outcome_of(r)) == greet(old(self)@, line@),
    {
        if line.has_keyword("HELO") || line.has_keyword("EHLO") {
            self.state = MessageParserState::Helo;
            None
        } else {
            self.abandon(MessageParserError::UnrecognizedCommand(line.to_text()))
        }
    }

    /// Takes the sender that a `MAIL FROM:` command named, or the reason
    /// why it named none. The dialog expects that command.
    pub fn accept_sender(&mut self, sender: Result<Option<Mailbox>, AddressError>) -> (r: Option<
        Result<MessageParserEvent, MessageParserError>,
    >)
        requires
            old(self)@.state == MessageParserState::Helo,
        ensures
            (final(self)@, outcome_of(r)) == with_sender(old(self)@, sender_view(sender)),
            old(self).wf() ==> final(self).wf(),
    {
        proof {
            if self.wf() {
                lemma_named_consistent(self@, sender_view(sender), Err(AddressFault::Syntax));
            }
        }
        match sender {
            Ok(Some(named)) => {
                self.from = Some(named.clone());
                self.state = MessageParserState::MailFrom;
                Some(Ok(MessageParserEvent::From(Some(named))))
            },
            Ok(None) => {
                self.from = None;
                self.state = MessageParserState::MailFrom;
                Some(Ok(MessageParserEvent::From(None)))
            },
            Err(error) => self.abandon(MessageParserError::InvalidFromEmailAddress(error)),
        }
    }

    /// Takes the recipient that a `RCPT TO:` command named, or the reason
    /// why it named none. The dialog expects that command.
    pub fn accept_recipient(&mut self, recipient: Result<Mailbox, AddressError>) -> (r: Option<
        Result<MessageParserEvent, MessageParserError>,
    >)
        requires
            old(self)@.state == MessageParserState::MailFrom || old(self)@.state
                == MessageParserState::RcptTo,
        ensures
            (final(self)@, outcome_of(r)) == with_recipient(old(self)@, recipient_view(recipient)),
            old(self).wf() ==> final(self).wf(),
    {
        proof {
            if self.wf() {
                lemma_named_consistent(self@, Err(AddressFault::Syntax), recipient_view(recipient));
            }
        }
        match recipient {
            Ok(named) => {
                let event = MessageParserEvent::To(named.clone());
                match self.to.take() {
                    Some(mut list) => {
                        let ghost before = list@;
                        list.push(named);
                        assert(mailbox_texts(list@) =~= mailbox_texts(before).push(named@));
                        self.to = Some(list);
                    },
                    None => {
                        let list = NonEmptyVec::new(named);
                        assert(mailbox_texts(list@) =~= Seq::<Seq<char>>::empty().push(named@));
                        self.to = Some(list);
                    },
                }
                self.state = MessageParserState::RcptTo;
                Some(Ok(event))
            },
            Err(error) => self.abandon(MessageParserError::InvalidToEmailAddress(error)),
        }
    }

    fn mail_from(&mut self, line: &Line) -> (r: Option<
        Result<MessageParserEvent, MessageParserError>,
    >)
        requires
            old(self)@.state == MessageParserState::Helo,
        ensures
            (final(self)@, outcome_of(r)) == mail_from(old(self)@, line@),
    {
        proof {
            reveal_strlit("MAIL FROM:");
        }
        if line.has_keyword("MAIL FROM:") {
            self.accept_sender(read_sender(line, 10))
        } else {
            self.abandon(MessageParserError::UnrecognizedCommand(line.to_text()))
        }
    }

    fn add_recipient(&mut self, line: &Line) -> (r: Option<
        Result<MessageParserEvent, MessageParserError>,
    >)
        requires
            old(self)@.state == MessageParserState::MailFrom || old(self)@.state
                == MessageParserState::RcptTo,
            has_keyword(line@, "RCPT TO:"@),
        ensures
            (final(self)@, outcome_of(r)) == add_recipient(old(self)@, line@),
    {
        proof {
            reveal_strlit("RCPT TO:");
        }
        self.accept_recipient(read_recipient(line, 8))
    }

    fn first_recipient(&mut self, line: &Line) -> (r: Option<
        Result<MessageParserEvent, MessageParserError>,
    >)
        requires
            old(self)@.state == MessageParserState::MailFrom,
        ensures
            (final(self)@, outcome_of(r)) == first_recipient(old(self)@, line@),
    {
        if line.has_keyword("RCPT TO:") {
            self.add_recipient(line)
        } else {
            self.abandon(MessageParserError::UnrecognizedCommand(line.to_text()))
        }
    }

    fn recipient_or_data(&mut self, line: &Line) -> (r: Option<
        Result<MessageParserEvent, MessageParserError>,
    >)
        requires
            old(self)@.state == MessageParserState::RcptTo,
        ensures
            (final(self)@, outcome_of(r)) == recipient_or_data(old(self)@, line@),
    {
        if line.eq_ignore_case("DATA") {
            self.state = MessageParserState::Headers;
            None
        } else if line.has_keyword("RCPT TO:") {
            self.add_recipient(line)
        } else {
            self.abandon(MessageParserError::UnrecognizedCommand(line.to_text()))
        }
    }

    /// Whether a header field is open.
    pub fn has_open_field(&self) -> (b: bool)
        ensures
            b == (self@.open is Some),
    {
        self.current_header.is_some()
    }

    /// Completes the open header field, if there is one, and reports it.
    pub fn complete_field(&mut self) -> (r: Option<Result<MessageParserEvent, MessageParserError>>)
        ensures
            final(self)@ == flushed(old(self)@),
            outcome_of(r) == flush_outcome(old(self)@),
            old(self).wf() ==> final(self).wf(),
    {
        proof {
            if self.wf() {
                lemma_flushed_consistent(self@);
            }
        }
        match self.current_header.take() {
            Some((name, parts)) => {
                let parts = parts.into_vec();
                let value = join_parts(&parts);
                self.headers.push((name.clone(), value.clone()));
                assert(field_texts(self.headers@) =~= field_texts(old(self).headers@).push(
                    (name@, value@),
                ));
                Some(Ok(MessageParserEvent::Header(name, value)))
            },
            None => None,
        }
    }

    fn body_line(&mut self, line: &Line) -> (r: Option<
        Result<MessageParserEvent, MessageParserError>,
    >)
        ensures
            (final(self)@, outcome_of(r)) == body_line(old(self)@, line@),
    {
        let n = line.len();
        if n == 1 && line.char_at(0) == '.' {
            assert(line@ =~= seq!['.']);
            self.state = MessageParserState::End;
            let lines = self.body.clone();
            assert(texts(lines@) =~= texts(self.body@));
            Some(Ok(MessageParserEvent::Body(lines)))
        } else {
            let content = if n > 0 && line.char_at(0) == '.' {
                line.slice(1, n)
            } else {
                line.to_text()
            };
            assert(content@ =~= unstuffed(line@));
            self.body.push(content);
            assert(texts(self.body@) =~= texts(old(self).body@).push(unstuffed(line@)));
            None
        }
    }

    fn header_line(&mut self, line: &Line) -> (r: Option<
        Result<MessageParserEvent, MessageParserError>,
    >)
        ensures
            (final(self)@, outcome_of(r)) == header_line(old(self)@, line@),
    {
        let n = line.len();
        if n == 1 && line.char_at(0) == '.' {
            assert(line@ =~= seq!['.']);
            let _ = self.complete_field();
            self.state = MessageParserState::Body;
            return self.body_line(line);
        }
        if n == 0 {
            let r = self.complete_field();
            self.state = MessageParserState::Body;
            return r;
        }
        let first = line.char_at(0);
        if first == ' ' || first == '\t' {
            return match self.current_header.take() {
                Some((name, mut parts)) => {
                    let ghost before = parts@;
                    let part = line.slice(1, n);
                    assert(part@ =~= line@.skip(1));
                    parts.push(part);
                    assert(texts(parts@) =~= texts(before).push(line@.skip(1)));
                    self.current_header = Some((name, parts));
                    None
                },
                None => self.abandon(MessageParserError::InvalidHeader(line.to_text())),
            };
        }
        let colon = line.find_char(':', 0);
        if 0 < colon && colon < n {
            let name = line.slice(0, colon);
            let start = if colon + 1 < n && (line.char_at(colon + 1) == ' ' || line.char_at(
                colon + 1,
            ) == '\t') {
                colon + 2
            } else {
                colon + 1
            };
            let value = line.slice(start, n);
            proof {
                let rest = line@.skip(colon + 1);
                assert(name@ =~= line@.take(colon as int));
                if rest.len() > 0 {
                    assert(rest[0] == line@[colon + 1]);
                }
                assert(value@ =~= strip_fold_mark(rest));
            }
            let r = self.complete_field();
            let parts = NonEmptyVec::new(value);
            assert(texts(parts@) =~= seq![value@]);
            self.current_header = Some((name, parts));
            r
        } else if colon >= n && self.current_header.is_none() {
            self.state = MessageParserState::Body;
            self.body_line(line)
        } else {
            self.abandon(MessageParserError::InvalidHeader(line.to_text()))
        }
    }

    /// Takes the next line of the dialog, its terminator already removed.
    ///
    /// Returns the event that the line completes, the error that ends the
    /// dialog, or `None` where the line was absorbed without either.
    /// Where the single dot ends the data while a header field is open,
    /// that field is completed and joins the header fields, and the body
    /// is returned; a caller that wants the field reported by itself
    /// calls `complete_field` before it hands in the dot, as the parser
    /// does.
    pub fn accept_line(&mut self, text: &str) -> (r: Option<
        Result<MessageParserEvent, MessageParserError>,
    >)
        ensures
            (final(self)@, outcome_of(r)) == on_line(old(self)@, text@),
            old(self).wf() ==> final(self).wf(),
    {
        proof {
            if self.wf() {
                lemma_on_line_consistent(self@, text@);
            }
        }
        let line = Line::new(text);
        match self.state {
            MessageParserState::Start => self.greet(&line),
            MessageParserState::Helo => self.mail_from(&line),
            MessageParserState::MailFrom => self.first_recipient(&line),
            MessageParserState::RcptTo => self.recipient_or_data(&line),
            MessageParserState::Headers => self.header_line(&line),
            MessageParserState::Body => self.body_line(&line),
            MessageParserState::End | MessageParserState::Done | MessageParserState::Aborted => {
                self.abandon(MessageParserError::UnexpectedDataAfterEnd(line.to_text()))
            },
        }
    }

    /// Takes the end of the input.
    pub fn accept_end(&mut self) -> (r: Option<Result<MessageParserEvent, MessageParserError>>)
        ensures
            (final(self)@, outcome_of(r)) == on_end(old(self)@),
            old(self).wf() ==> final(self).wf(),
    {
        proof {
            if self.wf() {
                lemma_on_end_consistent(self@);
            }
        }
        match self.state {
            MessageParserState::End => {
                self.state = MessageParserState::Done;
                Some(Ok(MessageParserEvent::Done(Message {  })))
            },
            MessageParserState::Done | MessageParserState::Aborted => None,
            MessageParserState::Headers => {
                if self.current_header.is_some() {
                    self.complete_field()
                } else {
                    self.abandon(MessageParserError::UnexpectedEnd)
                }
            },
            _ => self.abandon(MessageParserError::UnexpectedEnd),
        }
    }

    /// Takes a failure of the line source, described by `reason`.
    pub fn accept_failure(&mut self, reason: String) -> (r: Option<
        Result<MessageParserEvent, MessageParserError>,
    >)
        ensures
            (final(self)@, outcome_of(r)) == on_failure(old(self)@, reason@),
            old(self).wf() ==> final(self).wf(),
    {
        proof {
            if self.wf() {
                lemma_on_failure_consistent(self@, reason@);
            }
        }
        self.abandon(MessageParserError::IO(reason))
    }
}

} // verus!
