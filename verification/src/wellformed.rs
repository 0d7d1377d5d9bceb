//! Well-formed dialogs and what the parser yields for them.

use crate::address::{recipient_argument, sender_argument, AddressFault};
use crate::dialog::{
    completes_unreported, has_colon, header_field, initial, is_terminal, on_end, on_line,
    MessageParserState, Progress,
};
use crate::event::{Event, Fault};
use crate::parser::{
    as_items, dialog, events, lemma_events_dot, lemma_events_end, lemma_events_item,
    lemma_events_terminal, reported, Parsing, SourceItem,
};
use crate::text::{
    eq_ignore_case, find_char, has_keyword, is_end_of_data, is_fold_mark, join_with_space,
    unstuffed,
};
use vstd::prelude::*;

verus! {

/// A greeting: `HELO` or `EHLO`, in any case, and anything after it.
pub open spec fn is_greeting(line: Seq<char>) -> bool {
    has_keyword(line, "HELO"@) || has_keyword(line, "EHLO"@)
}

/// A `MAIL FROM:` command that names `sender`; `None` is the null sender.
pub open spec fn names_sender(line: Seq<char>, sender: Option<Seq<char>>) -> bool {
    &&& has_keyword(line, "MAIL FROM:"@)
    &&& sender_argument(line, "MAIL FROM:"@.len() as int) == Ok::<Option<Seq<char>>, AddressFault>(
        sender,
    )
}

/// A `RCPT TO:` command that names `recipient`.
pub open spec fn names_recipient(line: Seq<char>, recipient: Seq<char>) -> bool {
    &&& has_keyword(line, "RCPT TO:"@)
    &&& recipient_argument(line, "RCPT TO:"@.len() as int) == Ok::<Seq<char>, AddressFault>(
        recipient,
    )
}

/// The `DATA` command, in any case.
pub open spec fn is_data_command(line: Seq<char>) -> bool {
    eq_ignore_case(line, "DATA"@)
}

/// A header line that opens a field.
pub open spec fn is_field_line(line: Seq<char>) -> bool {
    line.len() > 0 && !is_fold_mark(line[0]) && header_field(line) is Some
}

/// A header line that continues the field before it.
pub open spec fn is_continuation_line(line: Seq<char>) -> bool {
    line.len() > 0 && is_fold_mark(line[0])
}

/// A header block: field lines and continuation lines, a field line first.
pub open spec fn is_header_block(lines: Seq<Seq<char>>) -> bool {
    &&& lines.len() > 0 ==> is_field_line(lines[0])
    &&& forall|i: int|
        0 <= i < lines.len() ==> is_field_line(#[trigger] lines[i]) || is_continuation_line(
            lines[i],
        )
}

/// The fields of a header block, each with its name and the parts of its
/// value: the value of its field line, then the content of each
/// continuation line that follows.
pub open spec fn unfolded(lines: Seq<Seq<char>>) -> Seq<(Seq<char>, Seq<Seq<char>>)>
    decreases lines.len(),
{
    if lines.len() == 0 {
        Seq::empty()
    } else {
        let before = unfolded(lines.drop_last());
        let line = lines.last();
        if is_continuation_line(line) {
            if before.len() > 0 {
                before.drop_last().push((before.last().0, before.last().1.push(line.skip(1))))
            } else {
                before
            }
        } else {
            match header_field(line) {
                Some((name, value)) => before.push((name, seq![value])),
                None => before,
            }
        }
    }
}

/// Fields with their parts joined into values.
pub open spec fn joined(fields: Seq<(Seq<char>, Seq<Seq<char>>)>) -> Seq<(Seq<char>, Seq<char>)> {
    fields.map_values(|f: (Seq<char>, Seq<Seq<char>>)| (f.0, join_with_space(f.1)))
}

/// The header fields that a header block denotes.
pub open spec fn block_fields(lines: Seq<Seq<char>>) -> Seq<(Seq<char>, Seq<char>)> {
    joined(unfolded(lines))
}

/// One `To` event for each recipient, in order.
pub open spec fn recipient_events(recipients: Seq<Seq<char>>) -> Seq<Result<Event, Fault>> {
    recipients.map_values(|r: Seq<char>| Ok(Event::To(r)))
}

/// One `Header` event for each field, in order.
pub open spec fn header_events(fields: Seq<(Seq<char>, Seq<char>)>) -> Seq<Result<Event, Fault>> {
    fields.map_values(|f: (Seq<char>, Seq<char>)| Ok(Event::Header(f.0, f.1)))
}

/// The body that these data lines denote: each line with one leading
/// dot removed.
pub open spec fn body_of(lines: Seq<Seq<char>>) -> Seq<Seq<char>> {
    lines.map_values(|line: Seq<char>| unstuffed(line))
}

/// What a run of lines does to a transaction, and what it yields. Lines
/// after a terminal state are not taken.
pub open spec fn feed(p: Progress, lines: Seq<Seq<char>>) -> (Progress, Seq<Result<Event, Fault>>)
    decreases lines.len(),
{
    if lines.len() == 0 || is_terminal(p.state) {
        (p, Seq::empty())
    } else {
        let q = on_line(p, lines[0]).0;
        let (r, later) = feed(q, lines.skip(1));
        (r, reported(p, lines[0]) + later)
    }
}

/// The events of a parser whose input begins with `lines`: what the
/// lines yield, then the events of the parser after them.
pub proof fn lemma_events_feed(
    p: Progress,
    lines: Seq<Seq<char>>,
    more: Seq<SourceItem>,
)
    ensures
        events(Parsing { progress: p, rest: as_items(lines) + more }) == feed(p, lines).1 + events(
            Parsing { progress: feed(p, lines).0, rest: more },
        ),
    decreases lines.len(),
{
    let v = Parsing { progress: p, rest: as_items(lines) + more };
    if lines.len() == 0 {
        assert(as_items(lines) + more =~= more);
        assert(feed(p, lines).1 + events(v) =~= events(v));
    } else if is_terminal(p.state) {
        lemma_events_terminal(v);
        lemma_events_terminal(Parsing { progress: p, rest: more });
        assert(feed(p, lines).1 + events(Parsing { progress: p, rest: more }) =~= events(v));
    } else {
        let line = lines[0];
        let q = on_line(p, line).0;
        assert(v.rest[0] == Ok::<Seq<char>, Seq<char>>(line));
        assert(v.rest.skip(1) =~= as_items(lines.skip(1)) + more);
        if completes_unreported(p, line) {
            assert(line =~= seq!['.']);
            lemma_events_dot(v);
        } else {
            lemma_events_item(v);
            match on_line(p, line).1 {
                Some(result) => {
                    assert(reported(p, line) =~= seq![result]);
                },
                None => {
                    assert(reported(p, line) =~= Seq::<Result<Event, Fault>>::empty());
                },
            }
        }
        lemma_events_feed(q, lines.skip(1), more);
        let next = Parsing { progress: q, rest: v.rest.skip(1) };
        let tail = events(Parsing { progress: feed(p, lines).0, rest: more });
        assert(events(v) == reported(p, line) + events(next)) by {
            if !completes_unreported(p, line) && on_line(p, line).1 is None {
                assert(Seq::<Result<Event, Fault>>::empty() + events(next) =~= events(next));
            }
        }
        assert(reported(p, line) + (feed(q, lines.skip(1)).1 + tail) =~= (reported(p, line)
            + feed(q, lines.skip(1)).1) + tail);
    }
}

/// Feeding two runs of lines one after the other is feeding them joined.
pub proof fn lemma_feed_concat(p: Progress, first: Seq<Seq<char>>, second: Seq<Seq<char>>)
    ensures
        feed(p, first + second) == (
            feed(feed(p, first).0, second).0,
            feed(p, first).1 + feed(feed(p, first).0, second).1,
        ),
    decreases first.len(),
{
    if first.len() == 0 {
        assert(first + second =~= second);
        assert(feed(p, first).1 + feed(p, second).1 =~= feed(p, second).1);
    } else if is_terminal(p.state) {
        assert(feed(p, second).1 =~= Seq::<Result<Event, Fault>>::empty());
        assert(feed(p, first).1 + feed(p, second).1 =~= Seq::<Result<Event, Fault>>::empty());
    } else {
        let q = on_line(p, first[0]).0;
        assert((first + second)[0] == first[0]);
        assert((first + second).skip(1) =~= first.skip(1) + second);
        lemma_feed_concat(q, first.skip(1), second);
        let a = feed(q, first.skip(1));
        let b = feed(a.0, second);
        let now = reported(p, first[0]);
        assert(now + (a.1 + b.1) =~= (now + a.1) + b.1);
    }
}

/// Feeding one line is one step: it yields what the line yields, which
/// is what the step yields unless the line is the single dot that
/// completes an open header field.
pub proof fn lemma_feed_one(p: Progress, line: Seq<char>)
    requires
        !is_terminal(p.state),
    ensures
        feed(p, seq![line]) == (on_line(p, line).0, reported(p, line)),
        !completes_unreported(p, line) ==> reported(p, line) == (match on_line(p, line).1 {
            Some(result) => seq![result],
            None => Seq::empty(),
        }),
{
    let q = on_line(p, line).0;
    assert(seq![line].skip(1) =~= Seq::<Seq<char>>::empty());
    assert(feed(q, seq![line].skip(1)) == (q, Seq::<Result<Event, Fault>>::empty()));
    assert(reported(p, line) + Seq::<Result<Event, Fault>>::empty() =~= reported(p, line));
    if !completes_unreported(p, line) {
        match on_line(p, line).1 {
            Some(result) => {
                assert(reported(p, line) =~= seq![result]);
            },
            None => {
                assert(reported(p, line) =~= Seq::<Result<Event, Fault>>::empty());
            },
        }
    }
}

/// `RCPT TO:` commands after the sender add their recipients in the
/// order given, and yield one `To` event each.
pub proof fn lemma_feed_recipients(
    p: Progress,
    lines: Seq<Seq<char>>,
    recipients: Seq<Seq<char>>,
)
    requires
        p.state == MessageParserState::MailFrom || p.state == MessageParserState::RcptTo,
        lines.len() == recipients.len(),
        forall|i: int| 0 <= i < lines.len() ==> names_recipient(#[trigger] lines[i], recipients[i]),
    ensures
        feed(p, lines).1 == recipient_events(recipients),
        lines.len() == 0 ==> feed(p, lines).0 == p,
        lines.len() > 0 ==> feed(p, lines).0 == (Progress {
            state: MessageParserState::RcptTo,
            to: p.to + recipients,
            ..p
        }),
    decreases lines.len(),
{
    if lines.len() == 0 {
        assert(recipient_events(recipients) =~= Seq::<Result<Event, Fault>>::empty());
    } else {
        reveal_strlit("RCPT TO:");
        reveal_strlit("DATA");
        let line = lines[0];
        assert(names_recipient(line, recipients[0]));
        let (q, outcome) = on_line(p, line);
        assert(q == Progress {
            state: MessageParserState::RcptTo,
            to: p.to.push(recipients[0]),
            ..p
        });
        assert(outcome == Some(Ok::<Event, Fault>(Event::To(recipients[0]))));
        assert forall|i: int| 0 <= i < lines.skip(1).len() implies names_recipient(
            #[trigger] lines.skip(1)[i],
            recipients.skip(1)[i],
        ) by {
            assert(names_recipient(lines[i + 1], recipients[i + 1]));
        }
        lemma_feed_recipients(q, lines.skip(1), recipients.skip(1));
        assert(p.to.push(recipients[0]) + recipients.skip(1) =~= p.to + recipients);
        assert(seq![Ok::<Event, Fault>(Event::To(recipients[0]))] + recipient_events(
            recipients.skip(1),
        ) =~= recipient_events(recipients));
    }
}

/// The lines of a header block leave its last field open, complete the
/// fields before it, and yield one `Header` event for each completed
/// field.
pub proof fn lemma_feed_header_block(p: Progress, lines: Seq<Seq<char>>)
    requires
        p.state == MessageParserState::Headers,
        p.open is None,
        is_header_block(lines),
    ensures
        lines.len() == 0 ==> feed(p, lines) == (p, Seq::<Result<Event, Fault>>::empty()),
        lines.len() > 0 ==> unfolded(lines).len() > 0 && feed(p, lines) == (
            Progress {
                open: Some(unfolded(lines).last()),
                headers: p.headers + joined(unfolded(lines).drop_last()),
                ..p
            },
            header_events(joined(unfolded(lines).drop_last())),
        ),
    decreases lines.len(),
{
    if lines.len() > 0 {
        let init = lines.drop_last();
        let line = lines.last();
        let f = unfolded(lines);
        let g = unfolded(init);
        assert(is_header_block(init)) by {
            if init.len() > 0 {
                assert(init[0] == lines[0]);
            }
            assert forall|i: int| 0 <= i < init.len() implies is_field_line(#[trigger] init[i])
                || is_continuation_line(init[i]) by {
                assert(init[i] == lines[i]);
            }
        }
        assert(is_field_line(line) || is_continuation_line(line));
        lemma_feed_header_block(p, init);
        assert(lines =~= init + seq![line]);
        lemma_feed_concat(p, init, seq![line]);
        let q = feed(p, init).0;
        let before = feed(p, init).1;
        lemma_feed_one(q, line);
        if init.len() == 0 {
            assert(is_field_line(line)) by {
                assert(lines[0] == line);
            }
            assert(q == p);
            let field = header_field(line)->Some_0;
            assert(f =~= seq![(field.0, seq![field.1])]);
            assert(joined(f.drop_last()) =~= Seq::<(Seq<char>, Seq<char>)>::empty());
            assert(p.headers + joined(f.drop_last()) =~= p.headers);
            assert(header_events(joined(f.drop_last())) =~= Seq::<Result<Event, Fault>>::empty());
            assert(before + Seq::<Result<Event, Fault>>::empty() =~= Seq::<
                Result<Event, Fault>,
            >::empty());
        } else {
            let open = g.last();
            if is_continuation_line(line) {
                assert(f.drop_last() =~= g.drop_last());
                assert(before + Seq::<Result<Event, Fault>>::empty() =~= before);
            } else {
                let field = header_field(line)->Some_0;
                assert(f.drop_last() =~= g);
                assert(joined(g) =~= joined(g.drop_last()).push(
                    (open.0, join_with_space(open.1)),
                ));
                assert((p.headers + joined(g.drop_last())).push((open.0, join_with_space(open.1)))
                    =~= p.headers + joined(g));
                assert(before + seq![
                    Ok::<Event, Fault>(Event::Header(open.0, join_with_space(open.1))),
                ] =~= header_events(joined(g)));
            }
        }
    }
}

/// Data lines other than the single dot join the body, each with one
/// leading dot removed, and yield nothing.
pub proof fn lemma_feed_body(p: Progress, lines: Seq<Seq<char>>)
    requires
        p.state == MessageParserState::Body,
        forall|i: int| 0 <= i < lines.len() ==> !is_end_of_data(#[trigger] lines[i]),
    ensures
        feed(p, lines) == (
            Progress { body: p.body + body_of(lines), ..p },
            Seq::<Result<Event, Fault>>::empty(),
        ),
    decreases lines.len(),
{
    if lines.len() == 0 {
        assert(p.body + body_of(lines) =~= p.body);
    } else {
        let (q, outcome) = on_line(p, lines[0]);
        assert(!is_end_of_data(lines[0]));
        assert forall|i: int| 0 <= i < lines.skip(1).len() implies !is_end_of_data(
            #[trigger] lines.skip(1)[i],
        ) by {
            assert(!is_end_of_data(lines[i + 1]));
        }
        lemma_feed_body(q, lines.skip(1));
        assert(p.body.push(unstuffed(lines[0])) + body_of(lines.skip(1)) =~= p.body + body_of(
            lines,
        ));
    }
}

/// The lines of a dialog with a header block: greeting, sender,
/// recipients, `DATA`, the header block, an empty line, the body lines,
/// and the single dot.
pub open spec fn dialog_lines(
    greeting: Seq<char>,
    mail: Seq<char>,
    rcpt_lines: Seq<Seq<char>>,
    data: Seq<char>,
    header_lines: Seq<Seq<char>>,
    body_lines: Seq<Seq<char>>,
) -> Seq<Seq<char>> {
    seq![greeting, mail] + rcpt_lines + seq![data] + header_lines + seq![Seq::<char>::empty()]
        + body_lines + seq![seq!['.']]
}

/// The transaction after the commands of a dialog: greeted, the sender
/// named, the recipients named, the data opened.
proof fn lemma_feed_commands(
    greeting: Seq<char>,
    mail: Seq<char>,
    sender: Option<Seq<char>>,
    rcpt_lines: Seq<Seq<char>>,
    recipients: Seq<Seq<char>>,
    data: Seq<char>,
)
    requires
        is_greeting(greeting),
        names_sender(mail, sender),
        rcpt_lines.len() == recipients.len(),
        recipients.len() >= 1,
        forall|i: int|
            0 <= i < rcpt_lines.len() ==> names_recipient(#[trigger] rcpt_lines[i], recipients[i]),
        is_data_command(data),
    ensures
        feed(initial(), seq![greeting, mail] + rcpt_lines + seq![data]) == (
            Progress {
                state: MessageParserState::Headers,
                from: sender,
                to: recipients,
                ..initial()
            },
            seq![Ok::<Event, Fault>(Event::From(sender))] + recipient_events(recipients),
        ),
{
    let at_start = initial();
    let greeted = Progress { state: MessageParserState::Helo, ..at_start };
    let sender_named = Progress { state: MessageParserState::MailFrom, from: sender, ..at_start };
    let recipients_named = Progress { state: MessageParserState::RcptTo, to: recipients, ..sender_named };
    let data_opened = Progress { state: MessageParserState::Headers, ..recipients_named };
    let from_event = seq![Ok::<Event, Fault>(Event::From(sender))];
    let none = Seq::<Result<Event, Fault>>::empty();

    lemma_feed_one(at_start, greeting);
    assert(on_line(at_start, greeting) == (greeted, None::<Result<Event, Fault>>));
    lemma_feed_one(greeted, mail);
    assert(on_line(greeted, mail) == (sender_named, Some(Ok::<Event, Fault>(Event::From(sender)))));
    lemma_feed_concat(at_start, seq![greeting], seq![mail]);
    assert(seq![greeting] + seq![mail] =~= seq![greeting, mail]);
    assert(none + from_event =~= from_event);
    assert(feed(at_start, seq![greeting, mail]) == (sender_named, from_event));

    lemma_feed_recipients(sender_named, rcpt_lines, recipients);
    assert(sender_named.to + recipients =~= recipients);
    lemma_feed_concat(at_start, seq![greeting, mail], rcpt_lines);
    assert(feed(at_start, seq![greeting, mail] + rcpt_lines) == (
        recipients_named,
        from_event + recipient_events(recipients),
    ));

    lemma_feed_one(recipients_named, data);
    assert(on_line(recipients_named, data) == (data_opened, None::<Result<Event, Fault>>));
    lemma_feed_concat(at_start, seq![greeting, mail] + rcpt_lines, seq![data]);
    assert(from_event + recipient_events(recipients) + none =~= from_event + recipient_events(
        recipients,
    ));
}

/// The transaction after the data of a dialog with a header block: its
/// fields completed, its body read, the data ended.
proof fn lemma_feed_data(p: Progress, header_lines: Seq<Seq<char>>, body_lines: Seq<Seq<char>>)
    requires
        p.state == MessageParserState::Headers,
        p.open is None,
        p.headers.len() == 0,
        p.body.len() == 0,
        is_header_block(header_lines),
        forall|i: int| 0 <= i < body_lines.len() ==> !is_end_of_data(#[trigger] body_lines[i]),
    ensures
        feed(
            p,
            header_lines + seq![Seq::<char>::empty()] + body_lines + seq![seq!['.']],
        ) == (
            Progress {
                state: MessageParserState::End,
                headers: block_fields(header_lines),
                body: body_of(body_lines),
                ..p
            },
            header_events(block_fields(header_lines)) + seq![
                Ok::<Event, Fault>(Event::Body(body_of(body_lines))),
            ],
        ),
{
    let blank = Seq::<char>::empty();
    let dot = seq!['.'];
    let fields = block_fields(header_lines);
    let none = Seq::<Result<Event, Fault>>::empty();

    lemma_feed_header_block(p, header_lines);
    let q1 = feed(p, header_lines).0;
    let e1 = feed(p, header_lines).1;
    let q2 = Progress { state: MessageParserState::Body, headers: fields, ..p };
    assert(on_line(q1, blank).0 == q2 && e1 + (match on_line(q1, blank).1 {
        Some(result) => seq![result],
        None => none,
    }) == header_events(fields)) by {
        let f = unfolded(header_lines);
        if header_lines.len() == 0 {
            assert(f =~= Seq::<(Seq<char>, Seq<Seq<char>>)>::empty());
            assert(fields =~= p.headers);
            assert(e1 + none =~= header_events(fields));
        } else {
            let open = f.last();
            assert(joined(f) =~= joined(f.drop_last()).push((open.0, join_with_space(open.1)))) by {
                assert(f =~= f.drop_last().push(open));
            }
            assert((p.headers + joined(f.drop_last())).push((open.0, join_with_space(open.1)))
                =~= fields);
            assert(e1 + seq![Ok::<Event, Fault>(Event::Header(open.0, join_with_space(open.1)))]
                =~= header_events(fields));
        }
    }
    lemma_feed_one(q1, blank);
    lemma_feed_concat(p, header_lines, seq![blank]);
    assert(feed(p, header_lines + seq![blank]) == (q2, header_events(fields)));

    lemma_feed_body(q2, body_lines);
    let q3 = Progress { body: body_of(body_lines), ..q2 };
    assert(q2.body + body_of(body_lines) =~= body_of(body_lines));
    lemma_feed_concat(p, header_lines + seq![blank], body_lines);
    assert(header_events(fields) + none =~= header_events(fields));
    assert(feed(p, header_lines + seq![blank] + body_lines) == (q3, header_events(fields)));

    lemma_feed_one(q3, dot);
    assert(is_end_of_data(dot));
    lemma_feed_concat(p, header_lines + seq![blank] + body_lines, seq![dot]);
}

/// A well-formed dialog yields exactly one `From`, then one `To` for each
/// recipient in the order submitted, then one `Header` for each field of
/// the header block, then exactly one `Body`, then `Done`; and it leaves
/// the transaction holding that sender, those recipients, those fields
/// and that body.
pub proof fn lemma_well_formed_dialog(
    greeting: Seq<char>,
    mail: Seq<char>,
    sender: Option<Seq<char>>,
    rcpt_lines: Seq<Seq<char>>,
    recipients: Seq<Seq<char>>,
    data: Seq<char>,
    header_lines: Seq<Seq<char>>,
    body_lines: Seq<Seq<char>>,
)
    requires
        is_greeting(greeting),
        names_sender(mail, sender),
        rcpt_lines.len() == recipients.len(),
        recipients.len() >= 1,
        forall|i: int|
            0 <= i < rcpt_lines.len() ==> names_recipient(#[trigger] rcpt_lines[i], recipients[i]),
        is_data_command(data),
        is_header_block(header_lines),
        forall|i: int| 0 <= i < body_lines.len() ==> !is_end_of_data(#[trigger] body_lines[i]),
    ensures
        events(
            dialog(dialog_lines(greeting, mail, rcpt_lines, data, header_lines, body_lines)),
        ) == seq![Ok::<Event, Fault>(Event::From(sender))] + recipient_events(recipients)
            + header_events(block_fields(header_lines)) + seq![
            Ok::<Event, Fault>(Event::Body(body_of(body_lines))),
            Ok::<Event, Fault>(Event::Done),
        ],
        feed(
            initial(),
            dialog_lines(greeting, mail, rcpt_lines, data, header_lines, body_lines),
        ).0 == (Progress {
            state: MessageParserState::End,
            from: sender,
            to: recipients,
            open: None,
            headers: block_fields(header_lines),
            body: body_of(body_lines),
        }),
{
    let commands = seq![greeting, mail] + rcpt_lines + seq![data];
    let content = header_lines + seq![Seq::<char>::empty()] + body_lines + seq![seq!['.']];
    let lines = dialog_lines(greeting, mail, rcpt_lines, data, header_lines, body_lines);
    let p = Progress {
        state: MessageParserState::Headers,
        from: sender,
        to: recipients,
        ..initial()
    };
    let end = Progress {
        state: MessageParserState::End,
        headers: block_fields(header_lines),
        body: body_of(body_lines),
        ..p
    };
    let done = Progress { state: MessageParserState::Done, ..end };
    let none = Seq::<SourceItem>::empty();
    let e1 = seq![Ok::<Event, Fault>(Event::From(sender))] + recipient_events(recipients);
    let e2 = header_events(block_fields(header_lines)) + seq![
        Ok::<Event, Fault>(Event::Body(body_of(body_lines))),
    ];

    lemma_feed_commands(greeting, mail, sender, rcpt_lines, recipients, data);
    lemma_feed_data(p, header_lines, body_lines);
    assert(lines =~= commands + content);
    lemma_feed_concat(initial(), commands, content);
    assert(feed(initial(), lines) == (end, e1 + e2));

    lemma_events_feed(initial(), lines, none);
    assert(as_items(lines) + none =~= as_items(lines));
    let at_end = Parsing { progress: end, rest: none };
    lemma_events_end(at_end);
    assert(on_end(end) == (done, Some(Ok::<Event, Fault>(Event::Done))));
    lemma_events_terminal(Parsing { progress: done, rest: none });
    assert(events(at_end) =~= seq![Ok::<Event, Fault>(Event::Done)]);
    assert(e1 + e2 + seq![Ok::<Event, Fault>(Event::Done)] =~= seq![
        Ok::<Event, Fault>(Event::From(sender)),
    ] + recipient_events(recipients) + header_events(block_fields(header_lines)) + seq![
        Ok::<Event, Fault>(Event::Body(body_of(body_lines))),
        Ok::<Event, Fault>(Event::Done),
    ]);
}

/// The lines of a dialog whose data is a header block alone: greeting,
/// sender, recipients, `DATA`, the header block, and the single dot.
pub open spec fn header_only_dialog_lines(
    greeting: Seq<char>,
    mail: Seq<char>,
    rcpt_lines: Seq<Seq<char>>,
    data: Seq<char>,
    header_lines: Seq<Seq<char>>,
) -> Seq<Seq<char>> {
    seq![greeting, mail] + rcpt_lines + seq![data] + header_lines + seq![seq!['.']]
}

/// The transaction after data that is a header block alone: the single
/// dot completes the last field and ends the data.
proof fn lemma_feed_header_only_data(p: Progress, header_lines: Seq<Seq<char>>)
    requires
        p.state == MessageParserState::Headers,
        p.open is None,
        p.headers.len() == 0,
        p.body.len() == 0,
        header_lines.len() > 0,
        is_header_block(header_lines),
    ensures
        feed(p, header_lines + seq![seq!['.']]) == (
            Progress {
                state: MessageParserState::End,
                headers: block_fields(header_lines),
                ..p
            },
            header_events(block_fields(header_lines)).push(
                Ok::<Event, Fault>(Event::Body(Seq::empty())),
            ),
        ),
{
    let dot = seq!['.'];
    let fields = block_fields(header_lines);
    let f = unfolded(header_lines);
    lemma_feed_header_block(p, header_lines);
    let q = feed(p, header_lines).0;
    let before = feed(p, header_lines).1;
    let open = f.last();
    assert(completes_unreported(q, dot));
    assert(joined(f) =~= joined(f.drop_last()).push((open.0, join_with_space(open.1)))) by {
        assert(f =~= f.drop_last().push(open));
    }
    assert((p.headers + joined(f.drop_last())).push((open.0, join_with_space(open.1)))
        =~= fields);
    assert(p.body =~= Seq::<Seq<char>>::empty());
    lemma_feed_one(q, dot);
    assert(reported(q, dot) =~= seq![
        Ok::<Event, Fault>(Event::Header(open.0, join_with_space(open.1))),
        Ok::<Event, Fault>(Event::Body(p.body)),
    ]);
    lemma_feed_concat(p, header_lines, seq![dot]);
    assert(before + reported(q, dot) =~= header_events(fields).push(
        Ok::<Event, Fault>(Event::Body(Seq::empty())),
    ));
}

/// A well-formed dialog whose data is a header block alone, ended by the
/// single dot with no empty line before it, yields exactly one `From`,
/// then one `To` for each recipient in the order submitted, then one
/// `Header` for each field of the block, the last one too, then exactly
/// one `Body`, which is empty, then `Done`.
pub proof fn lemma_well_formed_header_only_dialog(
    greeting: Seq<char>,
    mail: Seq<char>,
    sender: Option<Seq<char>>,
    rcpt_lines: Seq<Seq<char>>,
    recipients: Seq<Seq<char>>,
    data: Seq<char>,
    header_lines: Seq<Seq<char>>,
)
    requires
        is_greeting(greeting),
        names_sender(mail, sender),
        rcpt_lines.len() == recipients.len(),
        recipients.len() >= 1,
        forall|i: int|
            0 <= i < rcpt_lines.len() ==> names_recipient(#[trigger] rcpt_lines[i], recipients[i]),
        is_data_command(data),
        header_lines.len() > 0,
        is_header_block(header_lines),
    ensures
        events(
            dialog(header_only_dialog_lines(greeting, mail, rcpt_lines, data, header_lines)),
        ) == seq![Ok::<Event, Fault>(Event::From(sender))] + recipient_events(recipients)
            + header_events(block_fields(header_lines)) + seq![
            Ok::<Event, Fault>(Event::Body(Seq::empty())),
            Ok::<Event, Fault>(Event::Done),
        ],
        feed(
            initial(),
            header_only_dialog_lines(greeting, mail, rcpt_lines, data, header_lines),
        ).0 == (Progress {
            state: MessageParserState::End,
            from: sender,
            to: recipients,
            open: None,
            headers: block_fields(header_lines),
            body: Seq::empty(),
        }),
{
    let commands = seq![greeting, mail] + rcpt_lines + seq![data];
    let content = header_lines + seq![seq!['.']];
    let lines = header_only_dialog_lines(greeting, mail, rcpt_lines, data, header_lines);
    let p = Progress {
        state: MessageParserState::Headers,
        from: sender,
        to: recipients,
        ..initial()
    };
    let end = Progress {
        state: MessageParserState::End,
        headers: block_fields(header_lines),
        ..p
    };
    let done = Progress { state: MessageParserState::Done, ..end };
    let none = Seq::<SourceItem>::empty();
    let e1 = seq![Ok::<Event, Fault>(Event::From(sender))] + recipient_events(recipients);
    let e2 = header_events(block_fields(header_lines)).push(
        Ok::<Event, Fault>(Event::Body(Seq::empty())),
    );

    lemma_feed_commands(greeting, mail, sender, rcpt_lines, recipients, data);
    lemma_feed_header_only_data(p, header_lines);
    assert(lines =~= commands + content);
    lemma_feed_concat(initial(), commands, content);
    assert(feed(initial(), lines) == (end, e1 + e2));

    lemma_events_feed(initial(), lines, none);
    assert(as_items(lines) + none =~= as_items(lines));
    let at_end = Parsing { progress: end, rest: none };
    lemma_events_end(at_end);
    assert(on_end(end) == (done, Some(Ok::<Event, Fault>(Event::Done))));
    lemma_events_terminal(Parsing { progress: done, rest: none });
    assert(events(at_end) =~= seq![Ok::<Event, Fault>(Event::Done)]);
    assert(e1 + e2 + seq![Ok::<Event, Fault>(Event::Done)] =~= seq![
        Ok::<Event, Fault>(Event::From(sender)),
    ] + recipient_events(recipients) + header_events(block_fields(header_lines)) + seq![
        Ok::<Event, Fault>(Event::Body(Seq::empty())),
        Ok::<Event, Fault>(Event::Done),
    ]);
}

/// A line that cannot belong to a header block: not empty, no space or
/// tab in front, no colon.
pub open spec fn is_plain_line(line: Seq<char>) -> bool {
    line.len() > 0 && !is_fold_mark(line[0]) && !has_colon(line)
}

/// The lines of a dialog whose data has no header block: greeting,
/// sender, recipients, `DATA`, the body lines, and the single dot.
pub open spec fn plain_dialog_lines(
    greeting: Seq<char>,
    mail: Seq<char>,
    rcpt_lines: Seq<Seq<char>>,
    data: Seq<char>,
    body_lines: Seq<Seq<char>>,
) -> Seq<Seq<char>> {
    seq![greeting, mail] + rcpt_lines + seq![data] + body_lines + seq![seq!['.']]
}

/// The transaction after data that has no header block.
proof fn lemma_feed_plain_data(p: Progress, body_lines: Seq<Seq<char>>)
    requires
        p.state == MessageParserState::Headers,
        p.open is None,
        p.body.len() == 0,
        body_lines.len() > 0 ==> is_plain_line(body_lines[0]),
        forall|i: int| 0 <= i < body_lines.len() ==> !is_end_of_data(#[trigger] body_lines[i]),
    ensures
        feed(p, body_lines + seq![seq!['.']]) == (
            Progress { state: MessageParserState::End, body: body_of(body_lines), ..p },
            seq![Ok::<Event, Fault>(Event::Body(body_of(body_lines)))],
        ),
{
    let dot = seq!['.'];
    let none = Seq::<Result<Event, Fault>>::empty();
    assert(is_plain_line(dot)) by {
        assert(find_char(dot, ':', 0) == 1) by {
            reveal_with_fuel(find_char, 3);
        }
    }
    if body_lines.len() == 0 {
        assert(body_lines + seq![dot] =~= seq![dot]);
        assert(body_of(body_lines) =~= p.body);
        lemma_feed_one(p, dot);
    } else {
        let first = body_lines[0];
        let later = body_lines.skip(1);
        let q1 = Progress { state: MessageParserState::Body, body: seq![unstuffed(first)], ..p };
        assert(!is_end_of_data(first));
        assert(p.body.push(unstuffed(first)) =~= seq![unstuffed(first)]);
        assert(on_line(p, first) == (q1, None::<Result<Event, Fault>>));
        lemma_feed_one(p, first);
        assert forall|i: int| 0 <= i < later.len() implies !is_end_of_data(
            #[trigger] later[i],
        ) by {
            assert(!is_end_of_data(body_lines[i + 1]));
        }
        lemma_feed_body(q1, later);
        let q2 = Progress { body: body_of(body_lines), ..q1 };
        assert(q1.body + body_of(later) =~= body_of(body_lines));
        lemma_feed_concat(p, seq![first], later);
        assert(seq![first] + later =~= body_lines);
        assert(none + none =~= none);
        assert(feed(p, body_lines) == (q2, none));
        lemma_feed_one(q2, dot);
        lemma_feed_concat(p, body_lines, seq![dot]);
        assert(none + seq![Ok::<Event, Fault>(Event::Body(body_of(body_lines)))] =~= seq![
            Ok::<Event, Fault>(Event::Body(body_of(body_lines))),
        ]);
    }
}

/// A well-formed dialog whose data has no header block, its first data
/// line being no header line, yields exactly one `From`, then one `To`
/// for each recipient in the order submitted, no `Header`, exactly one
/// `Body`, then `Done`.
pub proof fn lemma_well_formed_plain_dialog(
    greeting: Seq<char>,
    mail: Seq<char>,
    sender: Option<Seq<char>>,
    rcpt_lines: Seq<Seq<char>>,
    recipients: Seq<Seq<char>>,
    data: Seq<char>,
    body_lines: Seq<Seq<char>>,
)
    requires
        is_greeting(greeting),
        names_sender(mail, sender),
        rcpt_lines.len() == recipients.len(),
        recipients.len() >= 1,
        forall|i: int|
            0 <= i < rcpt_lines.len() ==> names_recipient(#[trigger] rcpt_lines[i], recipients[i]),
        is_data_command(data),
        body_lines.len() > 0 ==> is_plain_line(body_lines[0]),
        forall|i: int| 0 <= i < body_lines.len() ==> !is_end_of_data(#[trigger] body_lines[i]),
    ensures
        events(dialog(plain_dialog_lines(greeting, mail, rcpt_lines, data, body_lines))) == seq![
            Ok::<Event, Fault>(Event::From(sender)),
        ] + recipient_events(recipients) + seq![
            Ok::<Event, Fault>(Event::Body(body_of(body_lines))),
            Ok::<Event, Fault>(Event::Done),
        ],
        feed(initial(), plain_dialog_lines(greeting, mail, rcpt_lines, data, body_lines)).0 == (
        Progress {
            state: MessageParserState::End,
            from: sender,
            to: recipients,
            open: None,
            headers: Seq::empty(),
            body: body_of(body_lines),
        }),
{
    let commands = seq![greeting, mail] + rcpt_lines + seq![data];
    let content = body_lines + seq![seq!['.']];
    let lines = plain_dialog_lines(greeting, mail, rcpt_lines, data, body_lines);
    let p = Progress {
        state: MessageParserState::Headers,
        from: sender,
        to: recipients,
        ..initial()
    };
    let end = Progress { state: MessageParserState::End, body: body_of(body_lines), ..p };
    let done = Progress { state: MessageParserState::Done, ..end };
    let none = Seq::<SourceItem>::empty();
    let e1 = seq![Ok::<Event, Fault>(Event::From(sender))] + recipient_events(recipients);
    let e2 = seq![Ok::<Event, Fault>(Event::Body(body_of(body_lines)))];

    lemma_feed_commands(greeting, mail, sender, rcpt_lines, recipients, data);
    lemma_feed_plain_data(p, body_lines);
    assert(lines =~= commands + content);
    lemma_feed_concat(initial(), commands, content);
    assert(feed(initial(), lines) == (end, e1 + e2));

    lemma_events_feed(initial(), lines, none);
    assert(as_items(lines) + none =~= as_items(lines));
    let at_end = Parsing { progress: end, rest: none };
    lemma_events_end(at_end);
    assert(on_end(end) == (done, Some(Ok::<Event, Fault>(Event::Done))));
    lemma_events_terminal(Parsing { progress: done, rest: none });
    assert(events(at_end) =~= seq![Ok::<Event, Fault>(Event::Done)]);
    assert(e1 + e2 + seq![Ok::<Event, Fault>(Event::Done)] =~= seq![
        Ok::<Event, Fault>(Event::From(sender)),
    ] + recipient_events(recipients) + seq![
        Ok::<Event, Fault>(Event::Body(body_of(body_lines))),
        Ok::<Event, Fault>(Event::Done),
    ]);
}

} // verus!
