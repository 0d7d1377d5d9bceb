//! The message that a completed transaction hands to storage.

use crate::address::{mailbox_texts, Mailbox};
use crate::non_empty_vec::NonEmptyVec;
use crate::text::{eq_ignore_case, field_texts, texts, Line};
use vstd::prelude::*;
use vstd::string::*;

verus! {

/// The subject of a message: the value of the first header field at or
/// after position `from` whose name is `Subject`, ASCII case ignored, or
/// the empty text where there is none.
pub open spec fn subject_from(headers: Seq<(Seq<char>, Seq<char>)>, from: int) -> Seq<char>
    decreases headers.len() - from,
{
    if 0 <= from < headers.len() {
        if eq_ignore_case(headers[from].0, "Subject"@) {
            headers[from].1
        } else {
            subject_from(headers, from + 1)
        }
    } else {
        Seq::empty()
    }
}

/// The subject of a message with these header fields.
pub open spec fn subject_of(headers: Seq<(Seq<char>, Seq<char>)>) -> Seq<char> {
    subject_from(headers, 0)
}

/// The body as one text: each line followed by CR LF.
pub open spec fn joined_lines(lines: Seq<Seq<char>>) -> Seq<char>
    decreases lines.len(),
{
    if lines.len() == 0 {
        Seq::empty()
    } else {
        joined_lines(lines.drop_last()) + lines.last() + "\r\n"@
    }
}

/// The subject is the value of the first field named `Subject`.
pub proof fn lemma_subject_is_first(headers: Seq<(Seq<char>, Seq<char>)>, i: int)
    requires
        0 <= i < headers.len(),
        eq_ignore_case(headers[i].0, "Subject"@),
        forall|j: int| 0 <= j < i ==> !eq_ignore_case(#[trigger] headers[j].0, "Subject"@),
    ensures
        subject_of(headers) == headers[i].1,
{
    lemma_subject_from(headers, i, 0);
}

proof fn lemma_subject_from(headers: Seq<(Seq<char>, Seq<char>)>, i: int, from: int)
    requires
        0 <= from <= i < headers.len(),
        eq_ignore_case(headers[i].0, "Subject"@),
        forall|j: int| from <= j < i ==> !eq_ignore_case(#[trigger] headers[j].0, "Subject"@),
    ensures
        subject_from(headers, from) == headers[i].1,
    decreases i - from,
{
    if from < i {
        lemma_subject_from(headers, i, from + 1);
    }
}

/// Without a field named `Subject` the subject is empty.
pub proof fn lemma_subject_absent(headers: Seq<(Seq<char>, Seq<char>)>, from: int)
    requires
        0 <= from,
        forall|j: int|
            from <= j < headers.len() ==> !eq_ignore_case(#[trigger] headers[j].0, "Subject"@),
    ensures
        subject_from(headers, from) == Seq::<char>::empty(),
    decreases headers.len() - from,
{
    if from < headers.len() {
        lemma_subject_absent(headers, from + 1);
    }
}

/// The sender as storage holds it: the address, or the empty text for
/// the null sender.
pub open spec fn sender_text(from: Option<Seq<char>>) -> Seq<char> {
    match from {
        Some(address) => address,
        None => Seq::empty(),
    }
}

/// The recipients as storage holds them: one text, the addresses in
/// order with a comma and a space between them.
pub open spec fn recipients_text(to: Seq<Seq<char>>) -> Seq<char>
    decreases to.len(),
{
    if to.len() == 0 {
        Seq::empty()
    } else if to.len() == 1 {
        to[0]
    } else {
        recipients_text(to.drop_last()) + ", "@ + to.last()
    }
}

/// Every header field has a name.
pub open spec fn names_present(headers: Seq<(Seq<char>, Seq<char>)>) -> bool {
    forall|i: int| 0 <= i < headers.len() ==> (#[trigger] headers[i]).0.len() > 0
}

/// A message as storage receives it.
#[derive(Debug, Clone, PartialEq)]
pub struct NewEmail {
    /// The sender; `None` is the null sender.
    pub from: Option<Mailbox>,
    /// The recipients, in the order in which they were named.
    pub to: NonEmptyVec<Mailbox>,
    pub subject: String,
    pub headers: Vec<(String, String)>,
    pub body: String,
}

/// The view of a `NewEmail`.
pub struct Envelope {
    pub from: Option<Seq<char>>,
    pub to: Seq<Seq<char>>,
    pub subject: Seq<char>,
    pub headers: Seq<(Seq<char>, Seq<char>)>,
    pub body: Seq<char>,
}

impl View for NewEmail {
    type V = Envelope;

    open spec fn view(&self) -> Envelope {
        Envelope {
            from: match self.from {
                Some(sender) => Some(sender@),
                None => None,
            },
            to: mailbox_texts(self.to@),
            subject: self.subject@,
            headers: field_texts(self.headers@),
            body: self.body@,
        }
    }
}

/// The message made of these parts.
pub open spec fn envelope_of(
    from: Option<Seq<char>>,
    to: Seq<Seq<char>>,
    headers: Seq<(Seq<char>, Seq<char>)>,
    body_lines: Seq<Seq<char>>,
) -> Envelope {
    Envelope {
        from,
        to,
        subject: subject_of(headers),
        headers,
        body: joined_lines(body_lines),
    }
}

/// Finds the subject among the header fields.
pub fn find_subject(headers: &Vec<(String, String)>) -> (r: String)
    ensures
        r@ == subject_of(field_texts(headers@)),
{
    let mut i: usize = 0;
    while i < headers.len()
        invariant
            i <= headers@.len(),
            subject_from(field_texts(headers@), i as int) == subject_of(field_texts(headers@)),
        decreases headers@.len() - i,
    {
        let name = Line::new(headers[i].0.as_str());
        if name.eq_ignore_case("Subject") {
            return headers[i].1.clone();
        }
        i += 1;
    }
    String::new()
}

/// Joins the body lines into one text, each line followed by CR LF.
pub fn join_lines(lines: &Vec<String>) -> (r: String)
    ensures
        r@ == joined_lines(texts(lines@)),
{
    let mut r = String::new();
    let mut i: usize = 0;
    while i < lines.len()
        invariant
            i <= lines@.len(),
            r@ == joined_lines(texts(lines@).take(i as int)),
        decreases lines@.len() - i,
    {
        proof {
            let after = texts(lines@).take(i + 1);
            assert(after.drop_last() =~= texts(lines@).take(i as int));
            assert(after.last() == lines@[i as int]@);
        }
        r.append(lines[i].as_str());
        r.append("\r\n");
        i += 1;
    }
    assert(texts(lines@).take(lines@.len() as int) =~= texts(lines@));
    r
}

impl NewEmail {
    /// No header field of the message has an empty name.
    pub open spec fn wf(&self) -> bool {
        names_present(field_texts(self.headers@))
    }

    /// The sender as storage holds it.
    pub fn sender_text(&self) -> (r: String)
        ensures
            r@ == sender_text(self@.from),
    {
        match &self.from {
            Some(sender) => sender.to_string(),
            None => String::new(),
        }
    }

    /// The recipients as storage holds them.
    pub fn recipients_text(&self) -> (r: String)
        ensures
            r@ == recipients_text(self@.to),
    {
        let items = self.to.iter();
        let ghost to = self@.to;
        let mut r = String::new();
        let mut i: usize = 0;
        while i < items.len()
            invariant
                i <= items@.len(),
                items@.len() == to.len(),
                forall|k: int| 0 <= k < items@.len() ==> (#[trigger] items@[k])@ == to[k],
                r@ == recipients_text(to.take(i as int)),
            decreases items@.len() - i,
        {
            proof {
                let after = to.take(i + 1);
                assert(after.drop_last() =~= to.take(i as int));
                assert(after.last() == to[i as int]);
                if i == 0 {
                    assert(r@ =~= Seq::<char>::empty());
                }
            }
            if i > 0 {
                r.append(", ");
            }
            r.append(items[i].as_str());
            assert(r@ =~= recipients_text(to.take(i + 1)));
            i += 1;
        }
        assert(to.take(to.len() as int) =~= to);
        r
    }

    /// Assembles the message of a completed transaction: the subject is
    /// taken from the header fields, the body lines are joined. Every
    /// header field must have a name.
    pub fn from_raw_message(
        from: Option<Mailbox>,
        to: NonEmptyVec<Mailbox>,
        headers: Vec<(String, String)>,
        body_lines: Vec<String>,
    ) -> (r: Self)
        requires
            names_present(field_texts(headers@)),
        ensures
            r.wf(),
            names_present(r@.headers),
            r.from == from,
            r.to == to,
            r.headers == headers,
            r@ == envelope_of(
                match from {
                    Some(sender) => Some(sender@),
                    None => None,
                },
                mailbox_texts(to@),
                field_texts(headers@),
                texts(body_lines@),
            ),
    {
        let subject = find_subject(&headers);
        let body = join_lines(&body_lines);
        NewEmail { from, to, subject, headers, body }
    }
}

} // verus!
