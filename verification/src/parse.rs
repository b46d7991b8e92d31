//! The statement stream: a character cursor over a CQL statement text,
//! with lookahead, backtracking and keyword matching, on which the
//! statement grammar is built.

use vstd::prelude::*;

verus! {

/// Why a parse stopped.
#[derive(Copy, Clone, Debug, PartialEq, Eq, Structural)]
pub enum ParseError {
    /// The statement ended where more input was required.
    End,
    /// The input at the cursor does not belong to the expected form.
    Invalid,
}

/// Relies on str::chars: the characters of the text, in order.
#[verifier::external_body]
pub(crate) fn str_chars(s: &str) -> (r: Vec<char>)
    ensures
        r@ == s@,
{
    s.chars().collect()
}

/// Relies on String's FromIterator: the string holding exactly the given
/// characters, in order.
#[verifier::external_body]
pub fn chars_to_string(v: &[char]) -> (r: String)
    ensures
        r@ == v@,
{
    v.iter().collect()
}

/// Whitespace, as the statement grammar sees it.
pub open spec fn spec_is_ws(c: char) -> bool {
    c == ' ' || c == '\t' || c == '\n' || c == '\r'
}

/// An ASCII decimal digit.
pub open spec fn spec_is_digit(c: char) -> bool {
    '0' <= c <= '9'
}

/// An ASCII letter.
pub open spec fn spec_is_alpha(c: char) -> bool {
    ('a' <= c <= 'z') || ('A' <= c <= 'Z')
}

/// An ASCII letter or digit.
pub open spec fn spec_is_alnum(c: char) -> bool {
    spec_is_alpha(c) || spec_is_digit(c)
}

/// A character of an unquoted name: a letter, a digit or an underscore.
pub open spec fn spec_is_name_char(c: char) -> bool {
    spec_is_alnum(c) || c == '_'
}

/// An ASCII hexadecimal digit.
pub open spec fn spec_is_hex_digit(c: char) -> bool {
    spec_is_digit(c) || ('a' <= c <= 'f') || ('A' <= c <= 'F')
}

/// The ASCII upper-case image of a character; other characters are
/// unchanged.
pub open spec fn spec_upper(c: char) -> char {
    if 'a' <= c <= 'z' {
        (((c as u8) - 0x20) as u8) as char
    } else {
        c
    }
}

pub fn is_ws(c: char) -> (r: bool)
    ensures
        r == spec_is_ws(c),
{
    c == ' ' || c == '\t' || c == '\n' || c == '\r'
}

pub fn is_digit(c: char) -> (r: bool)
    ensures
        r == spec_is_digit(c),
{
    '0' <= c && c <= '9'
}

pub fn is_alpha(c: char) -> (r: bool)
    ensures
        r == spec_is_alpha(c),
{
    ('a' <= c && c <= 'z') || ('A' <= c && c <= 'Z')
}

pub fn is_alnum(c: char) -> (r: bool)
    ensures
        r == spec_is_alnum(c),
{
    is_alpha(c) || is_digit(c)
}

pub fn is_name_char(c: char) -> (r: bool)
    ensures
        r == spec_is_name_char(c),
{
    is_alnum(c) || c == '_'
}

pub fn is_hex_digit(c: char) -> (r: bool)
    ensures
        r == spec_is_hex_digit(c),
{
    is_digit(c) || ('a' <= c && c <= 'f') || ('A' <= c && c <= 'F')
}

/// Upper-case an ASCII letter; leave every other character unchanged.
pub fn to_upper(c: char) -> (r: char)
    ensures
        r == spec_upper(c),
{
    if 'a' <= c && c <= 'z' {
        let u = #[verifier::truncate] (c as u8) - 0x20;
        u as char
    } else {
        c
    }
}

/// A cursor over the characters of one statement text. The text never
/// changes; the cursor only moves forward, and a failed try may move it
/// back to a saved position.
#[derive(Debug)]
pub struct StatementStream {
    pub input: Vec<char>,
    pub pos: usize,
}

impl StatementStream {
    /// The cursor never passes the end of the text.
    pub open spec fn wf(self) -> bool {
        self.pos <= self.input@.len()
    }

    /// The characters of the text.
    pub open spec fn text(self) -> Seq<char> {
        self.input@
    }

    /// A stream at the start of the given statement text.
    pub fn new(statement: &str) -> (r: Self)
        ensures
            r.wf(),
            r.text() == statement@,
            r.pos == 0,
    {
        StatementStream { input: str_chars(statement), pos: 0 }
    }

    /// An identical stream, used for lookahead that must not consume.
    pub fn duplicate(&self) -> (r: Self)
        ensures
            r.text() == self.text(),
            r.pos == self.pos,
    {
        StatementStream {
            input: vstd::slice::slice_to_vec(self.input.as_slice()),
            pos: self.pos,
        }
    }

    /// How many characters remain.
    pub fn remaining(&self) -> (r: usize)
        requires
            self.wf(),
        ensures
            r == self.text().len() - self.pos,
    {
        self.input.len() - self.pos
    }

    /// Whether at least `n` characters remain.
    pub fn nremaining(&self, n: usize) -> (r: bool)
        requires
            self.wf(),
        ensures
            r == (self.text().len() - self.pos >= n),
    {
        self.input.len() - self.pos >= n
    }

    /// The next character, if any, without consuming it.
    pub fn peek(&self) -> (r: Option<char>)
        requires
            self.wf(),
        ensures
            match r {
                Some(c) => self.pos < self.text().len() && c == self.text()[self.pos as int],
                None => self.pos == self.text().len(),
            },
    {
        if self.pos < self.input.len() {
            Some(self.input[self.pos])
        } else {
            None
        }
    }

    /// The next `n` characters without consuming them, or `None` when
    /// fewer remain.
    pub fn peekn(&self, n: usize) -> (r: Option<String>)
        requires
            self.wf(),
        ensures
            match r {
                Some(s) => self.pos + n <= self.text().len() && s@ == self.text().subrange(
                    self.pos as int, self.pos + n),
                None => self.pos + n > self.text().len(),
            },
    {
        if self.input.len() - self.pos >= n {
            let chunk = vstd::slice::slice_subrange(self.input.as_slice(), self.pos, self.pos
                + n);
            Some(chars_to_string(chunk))
        } else {
            None
        }
    }

    /// Consume and return the next character, if any.
    pub fn next(&mut self) -> (r: Option<char>)
        requires
            old(self).wf(),
        ensures
            final(self).wf(),
            final(self).text() == old(self).text(),
            match r {
                Some(c) => old(self).pos < old(self).text().len() && c == old(self).text()[old(
                    self).pos as int] && final(self).pos == old(self).pos + 1,
                None => old(self).pos == old(self).text().len() && final(self).pos == old(
                    self).pos,
            },
    {
        if self.pos < self.input.len() {
            let c = self.input[self.pos];
            self.pos = self.pos + 1;
            Some(c)
        } else {
            None
        }
    }

    /// Consume and return the next `n` characters, or `None`, consuming
    /// nothing, when fewer remain.
    pub fn nextn(&mut self, n: usize) -> (r: Option<String>)
        requires
            old(self).wf(),
        ensures
            final(self).wf(),
            final(self).text() == old(self).text(),
            match r {
                Some(s) => old(self).pos + n <= old(self).text().len() && s@ == old(
                    self).text().subrange(old(self).pos as int, old(self).pos + n) && final(
                    self).pos == old(self).pos + n,
                None => old(self).pos + n > old(self).text().len() && final(self).pos == old(
                    self).pos,
            },
    {
        let total = self.input.len();
        match self.peekn(n) {
            Some(s) => {
                proof {
                    assert(self.pos + n <= total);
                }
                self.pos = self.pos + n;
                Some(s)
            },
            None => None,
        }
    }

    /// Consume `n` characters whose presence is already known.
    pub fn advance(&mut self, n: usize)
        requires
            old(self).wf(),
            old(self).pos + n <= old(self).text().len(),
        ensures
            final(self).wf(),
            final(self).text() == old(self).text(),
            final(self).pos == old(self).pos + n,
    {
        let total = self.input.len();
        proof {
            assert(self.pos + n <= total);
        }
        self.pos = self.pos + n;
    }

    /// Move the cursor back to a previously saved position.
    pub fn restore(&mut self, saved: usize)
        requires
            old(self).wf(),
            saved <= old(self).text().len(),
        ensures
            final(self).wf(),
            final(self).text() == old(self).text(),
            final(self).pos == saved,
    {
        self.pos = saved;
    }

    /// Consume any whitespace at the cursor.
    pub fn skip_whitespace(&mut self)
        requires
            old(self).wf(),
        ensures
            final(self).wf(),
            final(self).text() == old(self).text(),
            final(self).pos >= old(self).pos,
            forall|k: int|
                old(self).pos <= k < final(self).pos ==> spec_is_ws(old(self).text()[k]),
            final(self).pos < final(self).text().len() ==> !spec_is_ws(final(self).text()[
                final(self).pos as int]),
    {
        while self.pos < self.input.len() && is_ws(self.input[self.pos])
            invariant
                self.wf(),
                self.text() == old(self).text(),
                self.pos >= old(self).pos,
                forall|k: int| old(self).pos <= k < self.pos ==> spec_is_ws(self.text()[k]),
            decreases self.text().len() - self.pos,
        {
            self.pos = self.pos + 1;
        }
    }

    /// Whether the text at the cursor, after whitespace, is the keyword
    /// `kw` (ASCII letters, matched case-insensitively) ending at a word
    /// boundary. Nothing is consumed.
    pub fn check_keyword(&self, kw: &str) -> (r: bool)
        requires
            self.wf(),
    {
        let mut probe = self.duplicate();
        probe.accept_keyword(kw)
    }

    /// Consume the keyword `kw` at the cursor, after whitespace, matched
    /// case-insensitively and ending at a word boundary. When the keyword
    /// is not there, nothing is consumed.
    pub fn accept_keyword(&mut self, kw: &str) -> (r: bool)
        requires
            old(self).wf(),
        ensures
            final(self).wf(),
            final(self).text() == old(self).text(),
            final(self).pos >= old(self).pos,
            r ==> final(self).pos > old(self).pos,
    {
        let kwc = str_chars(kw);
        if kwc.len() == 0 {
            return false;
        }
        let save = self.pos;
        self.skip_whitespace();
        let start = self.pos;
        let mut i: usize = 0;
        while i < kwc.len()
            invariant
                self.wf(),
                self.text() == old(self).text(),
                start <= self.pos <= self.text().len(),
                save <= start,
                save == old(self).pos,
                self.pos == start + i,
                i <= kwc@.len(),
            decreases kwc@.len() - i,
        {
            match self.next() {
                Some(c) => {
                    if to_upper(c) != kwc[i] {
                        self.restore(save);
                        return false;
                    }
                },
                None => {
                    self.restore(save);
                    return false;
                },
            }
            i = i + 1;
        }
        // The keyword must end at a word boundary.
        match self.peek() {
            Some(c) => {
                if is_name_char(c) {
                    self.restore(save);
                    false
                } else {
                    true
                }
            },
            None => true,
        }
    }

    /// Consume the single punctuation character `p` at the cursor, after
    /// whitespace. When it is not there, nothing is consumed.
    pub fn accept_punct(&mut self, p: char) -> (r: bool)
        requires
            old(self).wf(),
        ensures
            final(self).wf(),
            final(self).text() == old(self).text(),
            final(self).pos >= old(self).pos,
            r ==> final(self).pos > old(self).pos,
    {
        let save = self.pos;
        self.skip_whitespace();
        match self.next() {
            Some(c) => {
                if c == p {
                    true
                } else {
                    self.restore(save);
                    false
                }
            },
            None => {
                self.restore(save);
                false
            },
        }
    }

    /// Whether the character at the cursor, after whitespace, is `p`.
    /// Nothing is consumed.
    pub fn check_punct(&self, p: char) -> (r: bool)
        requires
            self.wf(),
    {
        let mut probe = self.duplicate();
        probe.accept_punct(p)
    }
}

/// A form of the grammar that can be parsed off a statement stream.
pub trait Parse: Sized {
    /// Parse one value of this form at the cursor. The text never
    /// changes, and the cursor only moves forward, staying inside the
    /// text.
    fn parse(s: &mut StatementStream) -> (r: Result<Self, ParseError>)
        requires
            old(s).wf(),
        ensures
            final(s).wf(),
            final(s).text() == old(s).text(),
            final(s).pos >= old(s).pos,
    ;
}

/// A form that can be recognized by lookahead without consuming input.
pub trait Peek: Parse {
    /// Whether a value of this form begins at the cursor.
    fn peek(s: &StatementStream) -> (r: bool)
        requires
            s.wf(),
    ;
}

impl StatementStream {
    /// Whether a `P`, after whitespace, begins at the cursor.
    pub fn check<P: Peek>(&self) -> (r: bool)
        requires
            self.wf(),
    {
        let mut probe = self.duplicate();
        probe.skip_whitespace();
        P::peek(&probe)
    }

    /// Parse a `P` on a lookahead copy: the cursor does not move.
    pub fn find<P: Parse>(&self) -> (r: Option<P>)
        requires
            self.wf(),
    {
        let mut probe = self.duplicate();
        probe.skip_whitespace();
        match P::parse(&mut probe) {
            Ok(v) => Some(v),
            Err(_) => None,
        }
    }

    /// Parse a `P` on a lookahead copy: the cursor does not move. The
    /// named form's output is the form itself.
    pub fn find_from<P: Parse>(&self) -> (r: Option<P>)
        requires
            self.wf(),
    {
        self.find::<P>()
    }

    /// Parse a `P` at the cursor, after whitespace.
    pub fn parse<P: Parse>(&mut self) -> (r: Result<P, ParseError>)
        requires
            old(self).wf(),
        ensures
            final(self).wf(),
            final(self).text() == old(self).text(),
            final(self).pos >= old(self).pos,
    {
        self.skip_whitespace();
        P::parse(self)
    }

    /// Parse a `P` at the cursor, after whitespace. The named form's
    /// output is the form itself.
    pub fn parse_from<P: Parse>(&mut self) -> (r: Result<P, ParseError>)
        requires
            old(self).wf(),
        ensures
            final(self).wf(),
            final(self).text() == old(self).text(),
            final(self).pos >= old(self).pos,
    {
        self.parse::<P>()
    }

    /// Parse a `P` only when lookahead says one begins here; otherwise
    /// consume nothing.
    pub fn parse_if<P: Peek>(&mut self) -> (r: Option<Result<P, ParseError>>)
        requires
            old(self).wf(),
        ensures
            final(self).wf(),
            final(self).text() == old(self).text(),
            final(self).pos >= old(self).pos,
    {
        if self.check::<P>() {
            Some(self.parse::<P>())
        } else {
            None
        }
    }
}

/// The decimal digits of `n`, most significant first.
pub open spec fn spec_dec(n: nat) -> Seq<char>
    decreases n,
{
    let d = (('0' as u32) + (n % 10) as u32) as char;
    if n < 10 {
        seq![d]
    } else {
        spec_dec(n / 10).push(d)
    }
}

/// One decimal digit as text.
fn digit_str(d: u64) -> (r: &'static str)
    requires
        d < 10,
    ensures
        r@ =~= seq![((('0' as u32) + d as u32) as char)],
{
    proof {
        reveal_strlit("0");
        reveal_strlit("1");
        reveal_strlit("2");
        reveal_strlit("3");
        reveal_strlit("4");
        reveal_strlit("5");
        reveal_strlit("6");
        reveal_strlit("7");
        reveal_strlit("8");
        reveal_strlit("9");
    }
    if d == 0 {
        "0"
    } else if d == 1 {
        "1"
    } else if d == 2 {
        "2"
    } else if d == 3 {
        "3"
    } else if d == 4 {
        "4"
    } else if d == 5 {
        "5"
    } else if d == 6 {
        "6"
    } else if d == 7 {
        "7"
    } else if d == 8 {
        "8"
    } else {
        "9"
    }
}

/// Render an unsigned value in decimal.
pub fn render_u64(n: u64) -> (r: String)
    ensures
        r@ == spec_dec(n as nat),
    decreases n,
{
    if n < 10 {
        let s = digit_str(n);
        String::from_str(s)
    } else {
        let mut s = render_u64(n / 10);
        s.append(digit_str(n % 10));
        proof {
            assert(r_spec_push(spec_dec((n / 10) as nat), n as nat) == spec_dec(n as nat));
        }
        s
    }
}

/// The one-step unfolding of `spec_dec` used while rendering.
pub open spec fn r_spec_push(prefix: Seq<char>, n: nat) -> Seq<char> {
    prefix.push((('0' as u32) + (n % 10) as u32) as char)
}

/// The decimal rendering of a signed value: a minus sign, then the
/// magnitude.
pub open spec fn spec_dec_i64(n: int) -> Seq<char> {
    if n < 0 {
        seq!['-'] + spec_dec((-n) as nat)
    } else {
        spec_dec(n as nat)
    }
}

/// Render a signed value in decimal.
pub fn render_i64(n: i64) -> (r: String)
    ensures
        r@ == spec_dec_i64(n as int),
{
    if n < 0 {
        let wide: i128 = n as i128;
        let mag: u64 = (-wide) as u64;
        let mut s = String::from_str("-");
        let rest = render_u64(mag);
        s.append(rest.as_str());
        proof {
            reveal_strlit("-");
            assert(s@ =~= spec_dec_i64(n as int));
        }
        s
    } else {
        render_u64(n as u64)
    }
}

/// Render a signed 32-bit value in decimal.
pub fn render_i32(n: i32) -> (r: String)
    ensures
        r@ == spec_dec_i64(n as int),
{
    render_i64(n as i64)
}

} // verus!
