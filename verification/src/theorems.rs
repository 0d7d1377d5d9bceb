//! What follows from the rules of the dialog: statements about whole
//! families of lines and of dialogs, each proved from the definitions.

use crate::address::{is_mailbox, path_argument};
use crate::dialog::{
    abort, consistent, flushed, mail_from, on_line, MessageParserState, Progress,
};
use crate::event::{silent, yields, Event, Fault};
use crate::parser::{
    events, lemma_events_item, lemma_events_terminal, Parsing, SourceItem,
};
use crate::text::{
    ascii_upper, eq_ignore_case, has_keyword, is_blank, is_end_of_data, is_fold_mark,
    join_with_space, lemma_join_push, lemma_token_after,
};
use vstd::prelude::*;

verus! {

/// A word in angle brackets names what stands between them, whatever
/// blanks stand before the word and whatever parameters follow it.
pub proof fn lemma_bracketed_path(
    keyword: Seq<char>,
    blanks: Seq<char>,
    address: Seq<char>,
    rest: Seq<char>,
)
    requires
        forall|i: int| 0 <= i < blanks.len() ==> is_blank(#[trigger] blanks[i]),
        forall|i: int| 0 <= i < address.len() ==> !is_blank(#[trigger] address[i]),
        rest.len() > 0 ==> is_blank(rest[0]),
    ensures
        path_argument(
            keyword + blanks + seq!['<'] + address + seq!['>'] + rest,
            keyword.len() as int,
        ) == Some(address),
{
    let word = seq!['<'] + address + seq!['>'];
    assert(keyword + blanks + seq!['<'] + address + seq!['>'] + rest =~= keyword + blanks + word
        + rest);
    assert forall|i: int| 0 <= i < word.len() implies !is_blank(#[trigger] word[i]) by {
        if 0 < i < word.len() - 1 {
            assert(word[i] == address[i - 1]);
        }
    }
    lemma_token_after(keyword, blanks, word, rest);
    assert(word.subrange(1, word.len() - 1) =~= address);
}

/// A word without angle brackets names itself.
pub proof fn lemma_bare_path(
    keyword: Seq<char>,
    blanks: Seq<char>,
    address: Seq<char>,
    rest: Seq<char>,
)
    requires
        forall|i: int| 0 <= i < blanks.len() ==> is_blank(#[trigger] blanks[i]),
        forall|i: int| 0 <= i < address.len() ==> !is_blank(#[trigger] address[i]),
        address.len() > 0,
        address.first() != '<',
        address.last() != '>',
        rest.len() > 0 ==> is_blank(rest[0]),
    ensures
        path_argument(keyword + blanks + address + rest, keyword.len() as int) == Some(address),
{
    lemma_token_after(keyword, blanks, address, rest);
}

/// A line that begins with a keyword, in whatever case, has that keyword.
pub proof fn lemma_keyword_prefix(found: Seq<char>, keyword: Seq<char>, rest: Seq<char>)
    requires
        eq_ignore_case(found, keyword),
    ensures
        has_keyword(found + rest, keyword),
{
    assert((found + rest).take(keyword.len() as int) =~= found);
}

/// The sender is the same however the command is spaced and whatever
/// parameters follow: `MAIL FROM:` in any case, any run of blanks, the
/// address in angle brackets, and then nothing or a blank and anything.
pub proof fn lemma_sender_forms(
    p: Progress,
    keyword: Seq<char>,
    blanks: Seq<char>,
    address: Seq<char>,
    rest: Seq<char>,
)
    requires
        eq_ignore_case(keyword, "MAIL FROM:"@),
        forall|i: int| 0 <= i < blanks.len() ==> is_blank(#[trigger] blanks[i]),
        forall|i: int| 0 <= i < address.len() ==> !is_blank(#[trigger] address[i]),
        is_mailbox(address),
        rest.len() > 0 ==> is_blank(rest[0]),
    ensures
        mail_from(p, keyword + blanks + seq!['<'] + address + seq!['>'] + rest) == (
            Progress { state: MessageParserState::MailFrom, from: Some(address), ..p },
            yields(Event::From(Some(address))),
        ),
{
    let line = keyword + blanks + seq!['<'] + address + seq!['>'] + rest;
    lemma_bracketed_path(keyword, blanks, address, rest);
    lemma_keyword_prefix(keyword, "MAIL FROM:"@, blanks + seq!['<'] + address + seq!['>'] + rest);
    assert(line =~= keyword + (blanks + seq!['<'] + address + seq!['>'] + rest));
}

/// `MAIL FROM:` with empty angle brackets names the null sender, and is
/// no fault.
pub proof fn lemma_null_sender(p: Progress, keyword: Seq<char>, blanks: Seq<char>, rest: Seq<char>)
    requires
        eq_ignore_case(keyword, "MAIL FROM:"@),
        forall|i: int| 0 <= i < blanks.len() ==> is_blank(#[trigger] blanks[i]),
        rest.len() > 0 ==> is_blank(rest[0]),
    ensures
        mail_from(p, keyword + blanks + seq!['<', '>'] + rest) == (
            Progress { state: MessageParserState::MailFrom, from: None, ..p },
            yields(Event::From(None)),
        ),
{
    let line = keyword + blanks + seq!['<', '>'] + rest;
    let address = Seq::<char>::empty();
    lemma_bracketed_path(keyword, blanks, address, rest);
    assert(seq!['<'] + address + seq!['>'] =~= seq!['<', '>']);
    assert(keyword + blanks + seq!['<'] + address + seq!['>'] + rest =~= line);
    lemma_keyword_prefix(keyword, "MAIL FROM:"@, blanks + seq!['<', '>'] + rest);
    assert(line =~= keyword + (blanks + seq!['<', '>'] + rest));
}

/// A recipient named before any sender is a fault, and nothing follows
/// it: the dialog yields that one error and never completes.
pub proof fn lemma_recipient_before_sender(
    p: Progress,
    line: Seq<char>,
    rest: Seq<SourceItem>,
)
    requires
        p.state == MessageParserState::Helo,
        has_keyword(line, "RCPT TO:"@),
    ensures
        on_line(p, line) == abort(p, Fault::UnrecognizedCommand(line)),
        events(Parsing { progress: p, rest: seq![Ok(line)] + rest }) == seq![
            Err::<Event, Fault>(Fault::UnrecognizedCommand(line)),
        ],
{
    reveal_strlit("RCPT TO:");
    reveal_strlit("MAIL FROM:");
    assert(!has_keyword(line, "MAIL FROM:"@)) by {
        if has_keyword(line, "MAIL FROM:"@) {
            let a = line.take("RCPT TO:"@.len() as int);
            let b = line.take("MAIL FROM:"@.len() as int);
            assert(ascii_upper(a[0]) == ascii_upper("RCPT TO:"@[0]));
            assert(ascii_upper(b[0]) == ascii_upper("MAIL FROM:"@[0]));
            assert(a[0] == b[0]);
        }
    }
    let v = Parsing { progress: p, rest: seq![Ok(line)] + rest };
    let next = Parsing { progress: on_line(p, line).0, rest: v.rest.skip(1) };
    lemma_events_item(v);
    lemma_events_terminal(next);
}

/// Inside the data a line that is a single dot always ends the data: it
/// completes the header field that is still open, if any, yields the
/// body as it stands, and is not added to it. In the body, where no
/// field can be open, nothing else changes.
pub proof fn lemma_end_of_data(p: Progress)
    requires
        p.state == MessageParserState::Headers || p.state == MessageParserState::Body,
    ensures
        p.state == MessageParserState::Headers ==> on_line(p, seq!['.']) == (
            Progress { state: MessageParserState::End, ..flushed(p) },
            yields(Event::Body(p.body)),
        ),
        p.state == MessageParserState::Body ==> on_line(p, seq!['.']) == (
            Progress { state: MessageParserState::End, ..p },
            yields(Event::Body(p.body)),
        ),
        consistent(p) && p.state == MessageParserState::Body ==> flushed(p) == p,
        on_line(p, seq!['.']).0.headers == if p.state == MessageParserState::Headers {
            flushed(p).headers
        } else {
            p.headers
        },
        on_line(p, seq!['.']).0.body == p.body,
{
}

/// Inside the body a line that is a dot and more joins the body without
/// that dot; any other line joins it as it is. Neither ends the data.
pub proof fn lemma_body_line(p: Progress, line: Seq<char>)
    requires
        p.state == MessageParserState::Body,
        !is_end_of_data(line),
    ensures
        line.len() > 0 && line[0] == '.' ==> on_line(p, line) == (
            Progress { body: p.body.push(line.skip(1)), ..p },
            silent(),
        ),
        !(line.len() > 0 && line[0] == '.') ==> on_line(p, line) == (
            Progress { body: p.body.push(line), ..p },
            silent(),
        ),
{
}

/// Inside the header block a line that opens with a space or a tab
/// continues the open field: what follows that one character is kept as
/// it is, and the value grows by a single space and that content.
pub proof fn lemma_continuation(
    p: Progress,
    name: Seq<char>,
    parts: Seq<Seq<char>>,
    mark: char,
    content: Seq<char>,
)
    requires
        p.state == MessageParserState::Headers,
        p.open == Some((name, parts)),
        parts.len() >= 1,
        is_fold_mark(mark),
    ensures
        on_line(p, seq![mark] + content) == (
            Progress { open: Some((name, parts.push(content))), ..p },
            silent(),
        ),
        join_with_space(parts.push(content)) == join_with_space(parts) + seq![' '] + content,
{
    assert((seq![mark] + content).skip(1) =~= content);
    lemma_join_push(parts, content);
}

} // verus!
