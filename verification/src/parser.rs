//! The parser over a whole input: it takes lines from a source that was
//! read beforehand and hands out the events of the dialog one by one.

use crate::address::{mailbox_texts, Mailbox};
use crate::dialog::{
    completes_unreported, consistent, flush_outcome, flushed, initial, is_terminal,
    lemma_fault_aborts, lemma_on_end_consistent, lemma_on_failure_consistent,
    lemma_on_line_consistent, on_end, on_failure, on_line, MessageParserState, Progress,
};
use crate::event::{outcome_of, Event, Fault, MessageParserError, MessageParserEvent, Outcome};
use crate::non_empty_vec::NonEmptyVec;
use crate::text::{ends_data, field_texts, join_with_space, texts};
use crate::transaction::Transaction;
use vstd::prelude::*;

verus! {

/// One item of the line source: a line without its terminator, or the
/// description of a failed read.
pub type SourceItem = Result<Seq<char>, Seq<char>>;

/// The views of the items of a line source.
pub open spec fn source_items(items: Seq<Result<String, String>>) -> Seq<SourceItem> {
    items.map_values(
        |item: Result<String, String>|
            match item {
                Ok(line) => Ok(line@),
                Err(reason) => Err(reason@),
            },
    )
}

/// A parser between two calls: the transaction so far and the input not
/// yet taken.
pub struct Parsing {
    pub progress: Progress,
    pub rest: Seq<SourceItem>,
}

/// What one item of the source does to the transaction.
pub open spec fn on_item(p: Progress, item: SourceItem) -> (Progress, Outcome) {
    match item {
        Ok(line) => on_line(p, line),
        Err(reason) => on_failure(p, reason),
    }
}

/// The next item is a line that completes the open header field without
/// reporting it: the single dot inside the header block.
pub open spec fn reports_first(p: Progress, item: SourceItem) -> bool {
    match item {
        Ok(line) => completes_unreported(p, line),
        Err(_) => false,
    }
}

/// Everything that a line yields: the header field that it completes
/// without reporting it, if any, and then what the line itself yields.
pub open spec fn reported(p: Progress, line: Seq<char>) -> Seq<Result<Event, Fault>> {
    let first = if completes_unreported(p, line) {
        seq![Ok::<Event, Fault>(Event::Header(p.open->Some_0.0, join_with_space(p.open->Some_0.1)))]
    } else {
        Seq::empty()
    };
    match on_line(p, line).1 {
        Some(result) => first.push(result),
        None => first,
    }
}

/// One call of `next`: input is taken until a line yields an event or a
/// fault, or until the input has ended. Where the single dot ends the
/// data while a header field is open, that field is reported first and
/// the dot is left for the next call, which yields the body. A parser in
/// a terminal state takes nothing and yields nothing.
pub open spec fn pull(v: Parsing) -> (Parsing, Outcome)
    decreases v.rest.len(),
{
    if is_terminal(v.progress.state) {
        (v, None)
    } else if v.rest.len() == 0 {
        let (progress, outcome) = on_end(v.progress);
        (Parsing { progress, rest: v.rest }, outcome)
    } else if reports_first(v.progress, v.rest[0]) {
        (Parsing { progress: flushed(v.progress), rest: v.rest }, flush_outcome(v.progress))
    } else {
        let (progress, outcome) = on_item(v.progress, v.rest[0]);
        let next = Parsing { progress, rest: v.rest.skip(1) };
        if outcome is Some {
            (next, outcome)
        } else {
            pull(next)
        }
    }
}

/// A bound on the number of calls of `next` that can still yield
/// something: three for each item not yet taken, and what the end of the
/// input can still yield.
pub open spec fn reach(v: Parsing) -> nat {
    3 * v.rest.len() + if is_terminal(v.progress.state) {
        0nat
    } else if v.progress.state == MessageParserState::Headers && v.progress.open is Some {
        2nat
    } else {
        1nat
    }
}

/// A call of `next` that yields something brings the parser closer to
/// its end.
pub proof fn lemma_pull_reach(v: Parsing)
    ensures
        pull(v).1 is Some ==> reach(pull(v).0) < reach(v),
        pull(v).1 is None ==> is_terminal(pull(v).0.progress.state),
    decreases v.rest.len(),
{
    if !is_terminal(v.progress.state) && v.rest.len() > 0 && !reports_first(
        v.progress,
        v.rest[0],
    ) {
        let (progress, outcome) = on_item(v.progress, v.rest[0]);
        if outcome is None {
            lemma_pull_reach(Parsing { progress, rest: v.rest.skip(1) });
        }
    }
}

/// Everything that the calls of `next` yield, from the first call to the
/// one before it returns `None`.
pub open spec fn events(v: Parsing) -> Seq<Result<Event, Fault>>
    decreases reach(v),
{
    let (next, outcome) = pull(v);
    match outcome {
        Some(result) => {
            proof {
                lemma_pull_reach(v);
            }
            seq![result] + events(next)
        },
        None => Seq::empty(),
    }
}

/// Source items that are all lines.
pub open spec fn as_items(lines: Seq<Seq<char>>) -> Seq<SourceItem> {
    lines.map_values(|line: Seq<char>| Ok(line))
}

/// The parser at the start of a dialog with these lines as its input.
pub open spec fn dialog(lines: Seq<Seq<char>>) -> Parsing {
    Parsing { progress: initial(), rest: as_items(lines) }
}

/// The views of what the calls of `next` returned.
pub open spec fn results_of(
    results: Seq<Result<MessageParserEvent, MessageParserError>>,
) -> Seq<Result<Event, Fault>> {
    results.map_values(
        |r: Result<MessageParserEvent, MessageParserError>|
            match r {
                Ok(event) => Ok(event@),
                Err(error) => Err(error@),
            },
    )
}

/// A parser in a terminal state yields nothing more.
pub proof fn lemma_events_terminal(v: Parsing)
    requires
        is_terminal(v.progress.state),
    ensures
        events(v) == Seq::<Result<Event, Fault>>::empty(),
{
}

/// The events of a parser with input left: what its first item yields,
/// if anything, and then the events of the parser after that item.
pub proof fn lemma_events_item(v: Parsing)
    requires
        !is_terminal(v.progress.state),
        v.rest.len() > 0,
        !reports_first(v.progress, v.rest[0]),
    ensures
        events(v) == ({
            let (progress, outcome) = on_item(v.progress, v.rest[0]);
            let next = Parsing { progress, rest: v.rest.skip(1) };
            match outcome {
                Some(result) => seq![result] + events(next),
                None => events(next),
            }
        }),
{
}

/// The events of a parser whose next line is the single dot while a
/// header field is open: that field, then the body, then the events of
/// the parser after the dot.
pub proof fn lemma_events_dot(v: Parsing)
    requires
        !is_terminal(v.progress.state),
        v.rest.len() > 0,
        reports_first(v.progress, v.rest[0]),
    ensures
        events(v) == reported(v.progress, seq!['.']) + events(
            Parsing { progress: on_line(v.progress, seq!['.']).0, rest: v.rest.skip(1) },
        ),
        reported(v.progress, seq!['.']) == seq![
            Ok::<Event, Fault>(
                Event::Header(
                    v.progress.open->Some_0.0,
                    join_with_space(v.progress.open->Some_0.1),
                ),
            ),
            Ok::<Event, Fault>(Event::Body(v.progress.body)),
        ],
{
    let dot = seq!['.'];
    let line = v.rest[0]->Ok_0;
    assert(line =~= dot);
    let second = Parsing { progress: flushed(v.progress), rest: v.rest };
    lemma_pull_reach(v);
    assert(events(v) == seq![flush_outcome(v.progress)->Some_0] + events(second));
    lemma_events_item(second);
    let last = Parsing { progress: on_line(v.progress, dot).0, rest: v.rest.skip(1) };
    assert(on_line(flushed(v.progress), dot) == on_line(v.progress, dot));
    assert(events(second) == seq![Ok::<Event, Fault>(Event::Body(v.progress.body))] + events(
        last,
    ));
    assert(seq![flush_outcome(v.progress)->Some_0] + (seq![
        Ok::<Event, Fault>(Event::Body(v.progress.body)),
    ] + events(last)) =~= reported(v.progress, dot) + events(last));
    assert(reported(v.progress, dot) =~= seq![
        Ok::<Event, Fault>(
            Event::Header(v.progress.open->Some_0.0, join_with_space(v.progress.open->Some_0.1)),
        ),
        Ok::<Event, Fault>(Event::Body(v.progress.body)),
    ]);
}

/// The events of a parser whose input has ended: what the end yields, and
/// then the events of the parser after it.
pub proof fn lemma_events_end(v: Parsing)
    requires
        !is_terminal(v.progress.state),
        v.rest.len() == 0,
    ensures
        events(v) == ({
            let (progress, outcome) = on_end(v.progress);
            let next = Parsing { progress, rest: v.rest };
            match outcome {
                Some(result) => seq![result] + events(next),
                None => events(next),
            }
        }),
{
}

/// No call of `next` leads out of the consistent transactions: a parser
/// that has reached the data knows at least one recipient.
pub proof fn lemma_pull_consistent(v: Parsing)
    requires
        consistent(v.progress),
    ensures
        consistent(pull(v).0.progress),
    decreases v.rest.len(),
{
    if !is_terminal(v.progress.state) {
        if v.rest.len() == 0 {
            lemma_on_end_consistent(v.progress);
        } else if reports_first(v.progress, v.rest[0]) {
            lemma_on_end_consistent(v.progress);
        } else {
            match v.rest[0] {
                Ok(line) => lemma_on_line_consistent(v.progress, line),
                Err(reason) => lemma_on_failure_consistent(v.progress, reason),
            }
            let (progress, outcome) = on_item(v.progress, v.rest[0]);
            if outcome is None {
                lemma_pull_consistent(Parsing { progress, rest: v.rest.skip(1) });
            }
        }
    }
}

/// A call of `next` that yields a fault or `Done` leaves the parser in a
/// terminal state.
pub proof fn lemma_pull_last(v: Parsing)
    ensures
        pull(v).1 matches Some(Err(_)) ==> is_terminal(pull(v).0.progress.state),
        pull(v).1 == Some(Ok::<Event, Fault>(Event::Done)) ==> is_terminal(
            pull(v).0.progress.state,
        ),
    decreases v.rest.len(),
{
    if !is_terminal(v.progress.state) {
        if v.rest.len() == 0 {
            lemma_fault_aborts(v.progress, Seq::empty(), Seq::empty());
        } else if reports_first(v.progress, v.rest[0]) {
        } else {
            let (progress, outcome) = on_item(v.progress, v.rest[0]);
            match v.rest[0] {
                Ok(line) => lemma_fault_aborts(v.progress, line, Seq::empty()),
                Err(reason) => lemma_fault_aborts(v.progress, Seq::empty(), reason),
            }
            if outcome is None {
                lemma_pull_last(Parsing { progress, rest: v.rest.skip(1) });
            }
        }
    }
}

/// Every fault is terminal: nothing follows a fault, and nothing follows
/// `Done`. So a dialog that yields a fault never completes.
pub proof fn lemma_fault_is_last(v: Parsing)
    ensures
        forall|i: int|
            0 <= i < events(v).len() && (#[trigger] events(v)[i]) is Err ==> i == events(v).len()
                - 1,
        forall|i: int|
            0 <= i < events(v).len() && (#[trigger] events(v)[i]) == Ok::<Event, Fault>(
                Event::Done,
            ) ==> i == events(v).len() - 1,
    decreases reach(v),
{
    let (next, outcome) = pull(v);
    if outcome is Some {
        lemma_pull_reach(v);
        lemma_pull_last(v);
        lemma_fault_is_last(next);
        let result = outcome->Some_0;
        if result is Err || result == Ok::<Event, Fault>(Event::Done) {
            lemma_events_terminal(next);
        }
        assert forall|i: int|
            0 <= i < events(v).len() && ((#[trigger] events(v)[i]) is Err || events(v)[i] == Ok::<
                Event,
                Fault,
            >(Event::Done)) implies i == events(v).len() - 1 by {
            if i > 0 {
                assert(events(v)[i] == events(next)[i - 1]);
            }
        }
    }
}

/// An event parser over the lines of one dialog.
pub struct MessageParser {
    source: Vec<Result<String, String>>,
    position: usize,
    transaction: Transaction,
}

impl View for MessageParser {
    type V = Parsing;

    closed spec fn view(&self) -> Parsing {
        Parsing {
            progress: self.transaction@,
            rest: if self.position <= self.source@.len() {
                source_items(self.source@).skip(self.position as int)
            } else {
                Seq::empty()
            },
        }
    }
}

impl MessageParser {
    /// A parser at the start of a dialog whose input is `source`: the
    /// lines in the order read, each without its terminator, and in
    /// place of a line that could not be read the reason of the failure.
    pub fn new(source: Vec<Result<String, String>>) -> (r: Self)
        ensures
            r@ == (Parsing { progress: initial(), rest: source_items(source@) }),
    {
        let r = MessageParser { source, position: 0, transaction: Transaction::new() };
        assert(r@.rest =~= source_items(source@));
        r
    }

    /// The next event of the dialog, the error that ends it, or `None`
    /// once the dialog is over.
    pub fn next(&mut self) -> (r: Option<Result<MessageParserEvent, MessageParserError>>)
        ensures
            (final(self)@, outcome_of(r)) == pull(old(self)@),
    {
        loop
            invariant
                pull(self@) == pull(old(self)@),
            decreases self.source@.len() - self.position,
        {
            let state = self.transaction.state();
            if state == MessageParserState::Done || state == MessageParserState::Aborted {
                return None;
            }
            if self.position >= self.source.len() {
                assert(self@.rest.len() == 0);
                return self.transaction.accept_end();
            }
            let ghost before = self@;
            assert(before.rest.len() > 0);
            assert(before.rest[0] == source_items(self.source@)[self.position as int]);
            let r = match &self.source[self.position] {
                Ok(line) => {
                    if state == MessageParserState::Headers && self.transaction.has_open_field()
                        && ends_data(line.as_str()) {
                        return self.transaction.complete_field();
                    }
                    self.transaction.accept_line(line.as_str())
                },
                Err(reason) => self.transaction.accept_failure(reason.clone()),
            };
            self.position = self.position + 1;
            proof {
                assert(self@.rest =~= before.rest.skip(1));
            }
            if r.is_some() {
                return r;
            }
        }
    }

    /// Everything that is left of the dialog: what the calls of `next`
    /// return until the dialog is over, in order.
    pub fn collect(&mut self) -> (r: Vec<Result<MessageParserEvent, MessageParserError>>)
        ensures
            results_of(r@) == events(old(self)@),
            is_terminal(final(self)@.progress.state),
            events(final(self)@).len() == 0,
    {
        let mut r: Vec<Result<MessageParserEvent, MessageParserError>> = Vec::new();
        loop
            invariant
                results_of(r@) + events(self@) == events(old(self)@),
            ensures
                results_of(r@) =~= events(old(self)@),
                is_terminal(self@.progress.state),
                events(self@).len() == 0,
            decreases reach(self@),
        {
            let ghost before = self@;
            let ghost collected = r@;
            proof {
                lemma_pull_reach(before);
            }
            match self.next() {
                Some(result) => {
                    r.push(result);
                    assert(results_of(r@) =~= results_of(collected) + seq![
                        results_of(r@).last(),
                    ]);
                    assert(results_of(r@) + events(self@) =~= results_of(collected) + events(
                        before,
                    ));
                },
                None => {
                    break ;
                },
            }
        }
        r
    }

    /// The state of the dialog.
    pub fn state(&self) -> (s: MessageParserState)
        ensures
            s == self@.progress.state,
    {
        self.transaction.state()
    }

    /// The sender, once it is known and not null.
    pub fn from(&self) -> (r: Option<&Mailbox>)
        ensures
            r is Some <==> self@.progress.from is Some,
            r is Some ==> r->Some_0@ == self@.progress.from->Some_0,
    {
        self.transaction.sender()
    }

    /// The recipients named so far, first one first.
    pub fn to(&self) -> (r: Option<&NonEmptyVec<Mailbox>>)
        ensures
            r is None ==> self@.progress.to.len() == 0,
            r is Some ==> mailbox_texts(r->Some_0@) == self@.progress.to,
    {
        self.transaction.recipients()
    }

    /// The completed header fields, in the order of the data.
    pub fn headers(&self) -> (r: &Vec<(String, String)>)
        ensures
            field_texts(r@) == self@.progress.headers,
    {
        self.transaction.headers()
    }

    /// The body lines read so far.
    pub fn body(&self) -> (r: &Vec<String>)
        ensures
            texts(r@) == self@.progress.body,
    {
        self.transaction.body()
    }
}

} // verus!
