//! Character-level rules shared by the command and data lines.
//!
//! Lines are treated as sequences of Unicode scalar values; every length
//! and position in this module counts characters, never bytes.

use vstd::prelude::*;
use vstd::std_specs::iter::IteratorSpec;
use vstd::string::*;

verus! {

/// A character with the Unicode `White_Space` property.
pub open spec fn is_blank(c: char) -> bool {
    let n: u32 = c as u32;
    ||| 0x09 <= n <= 0x0D
    ||| n == 0x20
    ||| n == 0x85
    ||| n == 0xA0
    ||| n == 0x1680
    ||| 0x2000 <= n <= 0x200A
    ||| n == 0x2028
    ||| n == 0x2029
    ||| n == 0x202F
    ||| n == 0x205F
    ||| n == 0x3000
}

/// A space or a horizontal tab: the mark that opens a folded header line.
pub open spec fn is_fold_mark(c: char) -> bool {
    c == ' ' || c == '\t'
}

/// The upper-case form of an ASCII letter; every other character is itself.
pub open spec fn ascii_upper(c: char) -> char {
    if 0x61 <= c as u32 <= 0x7A {
        ((c as u8 - 32) as u8) as char
    } else {
        c
    }
}

/// Two texts are equal once each ASCII letter is read as upper case.
pub open spec fn eq_ignore_case(a: Seq<char>, b: Seq<char>) -> bool {
    &&& a.len() == b.len()
    &&& forall|i: int| 0 <= i < a.len() ==> ascii_upper(#[trigger] a[i]) == ascii_upper(b[i])
}

/// `line` begins with `keyword`, ASCII case ignored.
pub open spec fn has_keyword(line: Seq<char>, keyword: Seq<char>) -> bool {
    &&& line.len() >= keyword.len()
    &&& eq_ignore_case(line.take(keyword.len() as int), keyword)
}

/// The first position at or after `from` whose character is not blank, or
/// the length of `s` where only blanks follow.
pub open spec fn skip_blanks(s: Seq<char>, from: int) -> int
    decreases s.len() - from,
{
    if 0 <= from < s.len() && is_blank(s[from]) {
        skip_blanks(s, from + 1)
    } else {
        from
    }
}

/// The first position at or after `from` whose character is blank, or the
/// length of `s` where no blank follows.
pub open spec fn skip_word(s: Seq<char>, from: int) -> int
    decreases s.len() - from,
{
    if 0 <= from < s.len() && !is_blank(s[from]) {
        skip_word(s, from + 1)
    } else {
        from
    }
}

/// The first blank-delimited word of `s` at or after `from`; empty where
/// only blanks follow.
pub open spec fn token_after(s: Seq<char>, from: int) -> Seq<char> {
    let start = skip_blanks(s, from);
    s.subrange(start, skip_word(s, start))
}

/// A word with its angle brackets removed. A word without brackets is
/// itself; a word with only one of the two has no reading.
pub open spec fn unbracketed(word: Seq<char>) -> Option<Seq<char>> {
    if word.len() >= 2 && word.first() == '<' && word.last() == '>' {
        Some(word.subrange(1, word.len() - 1))
    } else if word.len() > 0 && (word.first() == '<' || word.last() == '>') {
        None
    } else {
        Some(word)
    }
}

/// The first position at or after `from` that holds `c`, or the length of
/// `s` where `c` does not follow.
pub open spec fn find_char(s: Seq<char>, c: char, from: int) -> int
    decreases s.len() - from,
{
    if 0 <= from < s.len() && s[from] != c {
        find_char(s, c, from + 1)
    } else {
        from
    }
}

/// The last position before `before` that holds `c`, or -1 where `c`
/// does not stand before it.
pub open spec fn find_last_char(s: Seq<char>, c: char, before: int) -> int
    decreases before,
{
    if before <= 0 || before > s.len() {
        -1
    } else if s[before - 1] == c {
        before - 1
    } else {
        find_last_char(s, c, before - 1)
    }
}

/// `s` without one leading space or tab, if it has one.
pub open spec fn strip_fold_mark(s: Seq<char>) -> Seq<char> {
    if s.len() > 0 && is_fold_mark(s[0]) {
        s.skip(1)
    } else {
        s
    }
}

/// The parts of a folded value, joined by single spaces.
pub open spec fn join_with_space(parts: Seq<Seq<char>>) -> Seq<char>
    decreases parts.len(),
{
    if parts.len() == 0 {
        Seq::empty()
    } else if parts.len() == 1 {
        parts[0]
    } else {
        join_with_space(parts.drop_last()) + seq![' '] + parts.last()
    }
}

/// A data line as the sender meant it: one leading dot, added for
/// transparency, is removed.
pub open spec fn unstuffed(line: Seq<char>) -> Seq<char> {
    if line.len() > 0 && line[0] == '.' {
        line.skip(1)
    } else {
        line
    }
}

/// The line that ends the data: a single dot.
pub open spec fn is_end_of_data(line: Seq<char>) -> bool {
    line =~= seq!['.']
}

/// The views of a sequence of strings.
pub open spec fn texts(lines: Seq<String>) -> Seq<Seq<char>> {
    lines.map_values(|s: String| s@)
}

/// The texts of a sequence of header fields, each a name and a value.
pub open spec fn field_texts(fields: Seq<(String, String)>) -> Seq<(Seq<char>, Seq<char>)> {
    fields.map_values(|f: (String, String)| (f.0@, f.1@))
}

pub proof fn lemma_skip_blanks(s: Seq<char>, from: int)
    requires
        0 <= from <= s.len(),
    ensures
        from <= skip_blanks(s, from) <= s.len(),
        forall|i: int| from <= i < skip_blanks(s, from) ==> is_blank(#[trigger] s[i]),
        skip_blanks(s, from) < s.len() ==> !is_blank(s[skip_blanks(s, from)]),
    decreases s.len() - from,
{
    if from < s.len() && is_blank(s[from]) {
        lemma_skip_blanks(s, from + 1);
    }
}

pub proof fn lemma_skip_word(s: Seq<char>, from: int)
    requires
        0 <= from <= s.len(),
    ensures
        from <= skip_word(s, from) <= s.len(),
        forall|i: int| from <= i < skip_word(s, from) ==> !is_blank(#[trigger] s[i]),
        skip_word(s, from) < s.len() ==> is_blank(s[skip_word(s, from)]),
    decreases s.len() - from,
{
    if from < s.len() && !is_blank(s[from]) {
        lemma_skip_word(s, from + 1);
    }
}

/// Blanks from `from` up to `to`, and no blank at `to`: skipping blanks
/// from `from` ends at `to`.
pub proof fn lemma_skip_blanks_to(s: Seq<char>, from: int, to: int)
    requires
        0 <= from <= to <= s.len(),
        forall|i: int| from <= i < to ==> is_blank(#[trigger] s[i]),
        to < s.len() ==> !is_blank(s[to]),
    ensures
        skip_blanks(s, from) == to,
    decreases to - from,
{
    if from < to {
        lemma_skip_blanks_to(s, from + 1, to);
    }
}

/// No blank from `from` up to `to`, and a blank or the end at `to`:
/// skipping a word from `from` ends at `to`.
pub proof fn lemma_skip_word_to(s: Seq<char>, from: int, to: int)
    requires
        0 <= from <= to <= s.len(),
        forall|i: int| from <= i < to ==> !is_blank(#[trigger] s[i]),
        to < s.len() ==> is_blank(s[to]),
    ensures
        skip_word(s, from) == to,
    decreases to - from,
{
    if from < to {
        lemma_skip_word_to(s, from + 1, to);
    }
}

/// The first word after a keyword is found whatever blanks stand before
/// it and whatever follows the blank after it.
pub proof fn lemma_token_after(
    keyword: Seq<char>,
    blanks: Seq<char>,
    word: Seq<char>,
    rest: Seq<char>,
)
    requires
        forall|i: int| 0 <= i < blanks.len() ==> is_blank(#[trigger] blanks[i]),
        forall|i: int| 0 <= i < word.len() ==> !is_blank(#[trigger] word[i]),
        rest.len() > 0 ==> is_blank(rest[0]),
        word.len() == 0 ==> forall|i: int| 0 <= i < rest.len() ==> is_blank(#[trigger] rest[i]),
    ensures
        token_after(keyword + blanks + word + rest, keyword.len() as int) == word,
{
    let s = keyword + blanks + word + rest;
    let k = keyword.len() as int;
    let a = k + blanks.len();
    let b = a + word.len();
    assert forall|i: int| k <= i < a implies is_blank(#[trigger] s[i]) by {
        assert(s[i] == blanks[i - k]);
    }
    assert forall|i: int| a <= i < b implies !is_blank(#[trigger] s[i]) by {
        assert(s[i] == word[i - a]);
    }
    if b < s.len() {
        assert(s[b] == rest[0]);
    }
    if word.len() > 0 {
        assert(s[a] == word[0]);
        lemma_skip_blanks_to(s, k, a);
        lemma_skip_word_to(s, a, b);
        assert(s.subrange(a, b) =~= word);
    } else {
        assert forall|i: int| k <= i < s.len() implies is_blank(#[trigger] s[i]) by {
            if i >= a {
                assert(s[i] == rest[i - a]);
            }
        }
        lemma_skip_blanks_to(s, k, s.len() as int);
        assert(skip_word(s, s.len() as int) == s.len());
        assert(s.subrange(s.len() as int, s.len() as int) =~= word);
    }
}

/// A continuation adds its content to the value after a single space.
pub proof fn lemma_join_push(parts: Seq<Seq<char>>, part: Seq<char>)
    requires
        parts.len() >= 1,
    ensures
        join_with_space(parts.push(part)) == join_with_space(parts) + seq![' '] + part,
{
    assert(parts.push(part).drop_last() =~= parts);
}

/// Removing the dot that transparency added gives back the line.
pub proof fn lemma_unstuffed_stuffed(line: Seq<char>)
    ensures
        unstuffed(seq!['.'] + line) == line,
        line.len() > 0 ==> !is_end_of_data(seq!['.'] + line),
{
    assert((seq!['.'] + line).skip(1) =~= line);
}

pub proof fn lemma_find_char(s: Seq<char>, c: char, from: int)
    requires
        0 <= from <= s.len(),
    ensures
        from <= find_char(s, c, from) <= s.len(),
        forall|i: int| from <= i < find_char(s, c, from) ==> #[trigger] s[i] != c,
        find_char(s, c, from) < s.len() ==> s[find_char(s, c, from)] == c,
    decreases s.len() - from,
{
    if from < s.len() && s[from] != c {
        lemma_find_char(s, c, from + 1);
    }
}

pub fn is_blank_char(c: char) -> (b: bool)
    ensures
        b == is_blank(c),
{
    let n: u32 = c as u32;
    (0x09 <= n && n <= 0x0D) || n == 0x20 || n == 0x85 || n == 0xA0 || n == 0x1680 || (0x2000 <= n
        && n <= 0x200A) || n == 0x2028 || n == 0x2029 || n == 0x202F || n == 0x205F || n == 0x3000
}

pub fn to_ascii_upper(c: char) -> (r: char)
    ensures
        r == ascii_upper(c),
{
    let n: u32 = c as u32;
    if 0x61 <= n && n <= 0x7A {
        ((c as u8) - 32) as char
    } else {
        c
    }
}

/// The characters of `s`, in order.
pub fn chars_of(s: &str) -> (v: Vec<char>)
    ensures
        v@ == s@,
{
    broadcast use {axiom_spec_iter, next_postcondition};

    let mut it = s.chars();
    let mut v: Vec<char> = Vec::new();
    let mut open: bool = true;
    while open
        invariant
            it.obeys_prophetic_iter_laws(),
            it.decrease() is Some,
            open ==> v@ + it.remaining() =~= s@,
            !open ==> v@ =~= s@,
        decreases s@.len() - v@.len() + (if open { 1nat } else { 0nat }),
    {
        let ghost before = it.remaining();
        match it.next() {
            Some(c) => {
                v.push(c);
                assert(before =~= seq![c] + it.remaining());
            },
            None => {
                open = false;
            },
        }
    }
    v
}

/// A line of input, held with its characters at hand.
pub struct Line<'a> {
    text: &'a str,
    chars: Vec<char>,
}

impl<'a> View for Line<'a> {
    type V = Seq<char>;

    closed spec fn view(&self) -> Seq<char> {
        self.text@
    }
}

impl<'a> Line<'a> {
    #[verifier::type_invariant]
    spec fn inv(self) -> bool {
        self.chars@ == self.text@
    }

    pub fn new(text: &'a str) -> (r: Self)
        ensures
            r@ == text@,
    {
        Line { text, chars: chars_of(text) }
    }

    /// The number of characters.
    pub fn len(&self) -> (n: usize)
        ensures
            n == self@.len(),
    {
        proof {
            use_type_invariant(self);
        }
        self.chars.len()
    }

    pub fn is_empty(&self) -> (b: bool)
        ensures
            b == (self@.len() == 0),
    {
        self.len() == 0
    }

    pub fn char_at(&self, index: usize) -> (c: char)
        requires
            index < self@.len(),
        ensures
            c == self@[index as int],
    {
        proof {
            use_type_invariant(self);
        }
        self.chars[index]
    }

    /// The characters from `from` up to `to`, as a string of their own.
    pub fn slice(&self, from: usize, to: usize) -> (r: String)
        requires
            from <= to <= self@.len(),
        ensures
            r@ == self@.subrange(from as int, to as int),
    {
        self.text.substring_char(from, to).to_owned()
    }

    /// The whole line as a string of its own.
    pub fn to_text(&self) -> (r: String)
        ensures
            r@ == self@,
    {
        self.text.to_owned()
    }

    pub fn eq_ignore_case(&self, other: &str) -> (b: bool)
        ensures
            b == eq_ignore_case(self@, other@),
    {
        proof {
            use_type_invariant(self);
        }
        let word = chars_of(other);
        if self.chars.len() != word.len() {
            return false;
        }
        let mut i: usize = 0;
        while i < word.len()
            invariant
                word@ == other@,
                self.chars@ == self@,
                self@.len() == word@.len(),
                i <= word@.len(),
                forall|k: int|
                    0 <= k < i ==> ascii_upper(#[trigger] self@[k]) == ascii_upper(word@[k]),
            decreases word@.len() - i,
        {
            if to_ascii_upper(self.chars[i]) != to_ascii_upper(word[i]) {
                return false;
            }
            i += 1;
        }
        true
    }

    pub fn has_keyword(&self, keyword: &str) -> (b: bool)
        ensures
            b == has_keyword(self@, keyword@),
    {
        proof {
            use_type_invariant(self);
        }
        let word = chars_of(keyword);
        if self.chars.len() < word.len() {
            return false;
        }
        let ghost head = self@.take(word@.len() as int);
        let mut i: usize = 0;
        while i < word.len()
            invariant
                word@ == keyword@,
                self.chars@ == self@,
                self@.len() >= word@.len(),
                head == self@.take(word@.len() as int),
                i <= word@.len(),
                forall|k: int| 0 <= k < i ==> ascii_upper(#[trigger] head[k]) == ascii_upper(word@[k]),
            decreases word@.len() - i,
        {
            assert(head[i as int] == self@[i as int]);
            if to_ascii_upper(self.chars[i]) != to_ascii_upper(word[i]) {
                return false;
            }
            i += 1;
        }
        true
    }

    pub fn skip_blanks(&self, from: usize) -> (r: usize)
        requires
            from <= self@.len(),
        ensures
            r == skip_blanks(self@, from as int),
            from <= r <= self@.len(),
    {
        proof {
            use_type_invariant(self);
        }
        let mut i: usize = from;
        while i < self.chars.len() && is_blank_char(self.chars[i])
            invariant
                self.chars@ == self@,
                from <= i <= self@.len(),
                skip_blanks(self@, i as int) == skip_blanks(self@, from as int),
            decreases self@.len() - i,
        {
            i += 1;
        }
        i
    }

    pub fn skip_word(&self, from: usize) -> (r: usize)
        requires
            from <= self@.len(),
        ensures
            r == skip_word(self@, from as int),
            from <= r <= self@.len(),
    {
        proof {
            use_type_invariant(self);
        }
        let mut i: usize = from;
        while i < self.chars.len() && !is_blank_char(self.chars[i])
            invariant
                self.chars@ == self@,
                from <= i <= self@.len(),
                skip_word(self@, i as int) == skip_word(self@, from as int),
            decreases self@.len() - i,
        {
            i += 1;
        }
        i
    }

    /// The last position that holds `c`, if there is one.
    pub fn find_last_char(&self, c: char) -> (r: Option<usize>)
        ensures
            r is None <==> find_last_char(self@, c, self@.len() as int) == -1,
            r is Some ==> r->Some_0 == find_last_char(self@, c, self@.len() as int),
            r is Some ==> r->Some_0 < self@.len(),
    {
        proof {
            use_type_invariant(self);
        }
        let mut i: usize = self.chars.len();
        while i > 0 && self.chars[i - 1] != c
            invariant
                self.chars@ == self@,
                i <= self@.len(),
                find_last_char(self@, c, i as int) == find_last_char(
                    self@,
                    c,
                    self@.len() as int,
                ),
            decreases i,
        {
            i -= 1;
        }
        if i > 0 {
            Some(i - 1)
        } else {
            None
        }
    }

    pub fn find_char(&self, c: char, from: usize) -> (r: usize)
        requires
            from <= self@.len(),
        ensures
            r == find_char(self@, c, from as int),
            from <= r <= self@.len(),
    {
        proof {
            use_type_invariant(self);
        }
        let mut i: usize = from;
        while i < self.chars.len() && self.chars[i] != c
            invariant
                self.chars@ == self@,
                from <= i <= self@.len(),
                find_char(self@, c, i as int) == find_char(self@, c, from as int),
            decreases self@.len() - i,
        {
            i += 1;
        }
        i
    }
}

/// Whether `text` is the line that ends the data.
pub fn ends_data(text: &str) -> (b: bool)
    ensures
        b == is_end_of_data(text@),
{
    if text.unicode_len() == 1 {
        let c = text.get_char(0);
        assert(c == '.' ==> text@ =~= seq!['.']);
        c == '.'
    } else {
        false
    }
}

/// The parts of a folded value as one string, single spaces between them.
pub fn join_parts(parts: &Vec<String>) -> (r: String)
    ensures
        r@ == join_with_space(texts(parts@)),
{
    let mut r = String::new();
    let mut i: usize = 0;
    while i < parts.len()
        invariant
            i <= parts@.len(),
            r@ == join_with_space(texts(parts@).take(i as int)),
        decreases parts@.len() - i,
    {
        proof {
            let before = texts(parts@).take(i as int);
            let after = texts(parts@).take(i + 1);
            assert(after.drop_last() =~= before);
            assert(after.last() == parts@[i as int]@);
            reveal_strlit(" ");
            assert(" "@ =~= seq![' ']);
            if i == 0 {
                assert(before.len() == 0);
                assert(r@ =~= Seq::<char>::empty());
            }
        }
        if i > 0 {
            r.append(" ");
        }
        r.append(parts[i].as_str());
        assert(r@ =~= join_with_space(texts(parts@).take(i + 1)));
        i += 1;
    }
    assert(texts(parts@).take(parts@.len() as int) =~= texts(parts@));
    r
}

} // verus!
