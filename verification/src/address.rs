//! Mailboxes and the mailbox argument of `MAIL FROM:` and `RCPT TO:`.

use crate::text::{
    ascii_upper, eq_ignore_case, find_last_char, to_ascii_upper, token_after, unbracketed, Line,
};
use vstd::std_specs::cmp::PartialEqSpecImpl;
use email_address::EmailAddress;
use std::str::FromStr;
use vstd::prelude::*;
use vstd::string::*;

verus! {

/// `EmailAddress` of the `email_address` crate, as an opaque value.
#[verifier::external_type_specification]
#[verifier::external_body]
pub struct ExEmailAddress(email_address::EmailAddress);

/// `Error` of the `email_address` crate, as an opaque value: why an
/// address was rejected.
#[verifier::external_type_specification]
#[verifier::external_body]
pub struct ExAddressError(email_address::Error);

/// Whether the `email_address` crate accepts `text` as an address when it
/// parses with its default options.
pub uninterp spec fn address_syntax_ok(text: Seq<char>) -> bool;

/// Calls `EmailAddress::from_str` of the `email_address` crate.
///
/// Trusted, not proved: the call succeeds exactly on the texts that
/// `address_syntax_ok` names, and never on the empty text (parsing looks
/// for an `@` before it accepts anything).
#[verifier::external_body]
fn parse_address(text: &str) -> (r: Result<EmailAddress, email_address::Error>)
    ensures
        r is Ok <==> address_syntax_ok(text@),
        r is Ok ==> text@.len() > 0,
{
    EmailAddress::from_str(text)
}

/// A text that names a mailbox: not empty, and of valid address syntax.
pub open spec fn is_mailbox(text: Seq<char>) -> bool {
    text.len() > 0 && address_syntax_ok(text)
}

/// Two addresses name the same mailbox: their local parts, before the
/// last `@`, are the same text, and their domains, after it, are equal
/// once each ASCII letter is read as upper case.
pub open spec fn same_mailbox(a: Seq<char>, b: Seq<char>) -> bool {
    let i = find_last_char(a, '@', a.len() as int);
    let j = find_last_char(b, '@', b.len() as int);
    if i >= 0 && j >= 0 {
        a.take(i) == b.take(j) && eq_ignore_case(a.skip(i + 1), b.skip(j + 1))
    } else {
        a == b
    }
}

/// A validated address of the form local-part@domain.
///
/// Two mailboxes are equal where `same_mailbox` holds of their texts:
/// the local part is case-sensitive, the domain is not.
#[derive(Debug, Eq)]
pub struct Mailbox {
    text: String,
}

impl View for Mailbox {
    type V = Seq<char>;

    closed spec fn view(&self) -> Seq<char> {
        self.text@
    }
}

impl PartialEq for Mailbox {
    fn eq(&self, other: &Self) -> (r: bool) {
        let a = Line::new(self.text.as_str());
        let b = Line::new(other.text.as_str());
        match (a.find_last_char('@'), b.find_last_char('@')) {
            (Some(i), Some(j)) => {
                if i != j || a.len() != b.len() {
                    proof {
                        if i == j && a@.take(i as int) == b@.take(j as int) {
                            assert(a@.skip(i + 1).len() != b@.skip(j + 1).len());
                        }
                        if i != j {
                            assert(a@.take(i as int).len() != b@.take(j as int).len());
                        }
                    }
                    return false;
                }
                let n = a.len();
                let mut k: usize = 0;
                while k < n
                    invariant
                        a@ == self@,
                        b@ == other@,
                        i == find_last_char(a@, '@', a@.len() as int),
                        j == find_last_char(b@, '@', b@.len() as int),
                        i == j,
                        i < n,
                        n == a@.len(),
                        n == b@.len(),
                        k <= n,
                        forall|m: int| 0 <= m < k && m < i ==> a@[m] == b@[m],
                        forall|m: int|
                            i < m < k ==> ascii_upper(#[trigger] a@[m]) == ascii_upper(b@[m]),
                    decreases n - k,
                {
                    let x = a.char_at(k);
                    let y = b.char_at(k);
                    if k < i && x != y {
                        proof {
                            assert(a@.take(i as int)[k as int] != b@.take(j as int)[k as int]);
                        }
                        return false;
                    }
                    if k > i && to_ascii_upper(x) != to_ascii_upper(y) {
                        proof {
                            assert(a@.skip(i + 1)[k - i - 1] == a@[k as int]);
                            assert(b@.skip(j + 1)[k - j - 1] == b@[k as int]);
                        }
                        return false;
                    }
                    k += 1;
                }
                proof {
                    assert(a@.take(i as int) =~= b@.take(j as int));
                    assert forall|m: int| 0 <= m < a@.skip(i + 1).len() implies ascii_upper(
                        #[trigger] a@.skip(i + 1)[m],
                    ) == ascii_upper(b@.skip(j + 1)[m]) by {
                        assert(a@.skip(i + 1)[m] == a@[m + i + 1]);
                        assert(b@.skip(j + 1)[m] == b@[m + j + 1]);
                    }
                }
                true
            },
            _ => self.text == other.text,
        }
    }
}

impl PartialEqSpecImpl for Mailbox {
    open spec fn obeys_eq_spec() -> bool {
        true
    }

    open spec fn eq_spec(&self, other: &Self) -> bool {
        same_mailbox(self@, other@)
    }
}

impl Clone for Mailbox {
    fn clone(&self) -> (r: Self)
        ensures
            r == *self,
    {
        proof {
            use_type_invariant(self);
        }
        Mailbox { text: self.text.clone() }
    }
}

impl Mailbox {
    #[verifier::type_invariant]
    spec fn inv(self) -> bool {
        is_mailbox(self.text@)
    }

    /// Validates `text` as an address.
    pub fn new(text: &str) -> (r: Result<Mailbox, email_address::Error>)
        ensures
            r is Ok <==> is_mailbox(text@),
            r is Ok ==> r->Ok_0@ == text@,
    {
        match parse_address(text) {
            Ok(_) => Ok(Mailbox { text: text.to_owned() }),
            Err(e) => Err(e),
        }
    }

    /// The address as text. It is never empty and always of valid syntax.
    pub fn as_str(&self) -> (r: &str)
        ensures
            r@ == self@,
            is_mailbox(r@),
    {
        proof {
            use_type_invariant(self);
        }
        self.text.as_str()
    }

    pub fn to_string(&self) -> (r: String)
        ensures
            r@ == self@,
    {
        self.text.clone()
    }
}

/// The texts of a sequence of mailboxes.
pub open spec fn mailbox_texts(mailboxes: Seq<Mailbox>) -> Seq<Seq<char>> {
    mailboxes.map_values(|m: Mailbox| m@)
}

/// Why the argument of `MAIL FROM:` or `RCPT TO:` names no mailbox.
#[derive(Debug)]
pub enum AddressError {
    /// The argument opens with `<` or closes with `>`, but not both.
    UnmatchedBracket,
    /// The address is not of valid syntax.
    Syntax(email_address::Error),
}

/// The view of an `AddressError`: its kind.
pub enum AddressFault {
    UnmatchedBracket,
    Syntax,
}

impl View for AddressError {
    type V = AddressFault;

    open spec fn view(&self) -> AddressFault {
        match self {
            AddressError::UnmatchedBracket => AddressFault::UnmatchedBracket,
            AddressError::Syntax(_) => AddressFault::Syntax,
        }
    }
}

/// The mailbox argument of a command line whose keyword ends before
/// position `from`: the first blank-delimited word after the keyword,
/// without its angle brackets. `None` where the brackets do not match.
/// Whatever follows that word is ignored.
pub open spec fn path_argument(line: Seq<char>, from: int) -> Option<Seq<char>> {
    unbracketed(token_after(line, from))
}

/// The recipient that a command line names after position `from`. An
/// empty argument names none: a recipient cannot be null.
pub open spec fn recipient_argument(line: Seq<char>, from: int) -> Result<Seq<char>, AddressFault> {
    match path_argument(line, from) {
        None => Err(AddressFault::UnmatchedBracket),
        Some(address) => if is_mailbox(address) {
            Ok(address)
        } else {
            Err(AddressFault::Syntax)
        },
    }
}

/// The sender that a command line names after position `from`. An empty
/// argument, with or without brackets, names the null sender.
pub open spec fn sender_argument(line: Seq<char>, from: int) -> Result<
    Option<Seq<char>>,
    AddressFault,
> {
    match path_argument(line, from) {
        None => Err(AddressFault::UnmatchedBracket),
        Some(address) => if address.len() == 0 {
            Ok(None)
        } else if is_mailbox(address) {
            Ok(Some(address))
        } else {
            Err(AddressFault::Syntax)
        },
    }
}

/// The view of a recipient as read from a command line.
pub open spec fn recipient_view(r: Result<Mailbox, AddressError>) -> Result<
    Seq<char>,
    AddressFault,
> {
    match r {
        Ok(recipient) => Ok(recipient@),
        Err(error) => Err(error@),
    }
}

/// The view of a sender as read from a command line.
pub open spec fn sender_view(r: Result<Option<Mailbox>, AddressError>) -> Result<
    Option<Seq<char>>,
    AddressFault,
> {
    match r {
        Ok(Some(sender)) => Ok(Some(sender@)),
        Ok(None) => Ok(None),
        Err(error) => Err(error@),
    }
}

/// Reads the mailbox argument of a command line.
pub fn read_path(line: &Line, from: usize) -> (r: Option<String>)
    requires
        from <= line@.len(),
    ensures
        r is Some <==> path_argument(line@, from as int) is Some,
        r is Some ==> r->Some_0@ == path_argument(line@, from as int)->Some_0,
{
    let start = line.skip_blanks(from);
    let end = line.skip_word(start);
    let ghost word = line@.subrange(start as int, end as int);
    if end - start >= 2 && line.char_at(start) == '<' && line.char_at(end - 1) == '>' {
        let r = line.slice(start + 1, end - 1);
        assert(r@ =~= word.subrange(1, word.len() - 1));
        Some(r)
    } else if end > start && (line.char_at(start) == '<' || line.char_at(end - 1) == '>') {
        None
    } else {
        Some(line.slice(start, end))
    }
}

/// Reads and validates the recipient that a command line names.
pub fn read_recipient(line: &Line, from: usize) -> (r: Result<Mailbox, AddressError>)
    requires
        from <= line@.len(),
    ensures
        recipient_view(r) == recipient_argument(line@, from as int),
{
    match read_path(line, from) {
        None => Err(AddressError::UnmatchedBracket),
        Some(text) => match Mailbox::new(text.as_str()) {
            Ok(recipient) => Ok(recipient),
            Err(e) => Err(AddressError::Syntax(e)),
        },
    }
}

/// Reads and validates the sender that a command line names.
pub fn read_sender(line: &Line, from: usize) -> (r: Result<Option<Mailbox>, AddressError>)
    requires
        from <= line@.len(),
    ensures
        sender_view(r) == sender_argument(line@, from as int),
{
    match read_path(line, from) {
        None => Err(AddressError::UnmatchedBracket),
        Some(text) => {
            if text.as_str().is_empty() {
                Ok(None)
            } else {
                match Mailbox::new(text.as_str()) {
                    Ok(sender) => Ok(Some(sender)),
                    Err(e) => Err(AddressError::Syntax(e)),
                }
            }
        },
    }
}

} // verus!
