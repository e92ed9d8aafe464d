//! Tokens, and the lexer that cuts assembly text into them.
//!
//! A token is found at an offset into the text: blanks are skipped, then one
//! of five things is read. [`token_at`] says which, and where reading stops;
//! [`Lexer::next_token`] does it.

use crate::instructions::{lookup, mnemonic_to_opcode, Opcode};
use crate::text::{chars_of, lemma_run_end, lemma_run_within, run_end};
use vstd::prelude::*;
use vstd::std_specs::convert::FromSpecImpl;

verus! {

/// What the lexer hands to the assembler.
#[derive(Debug, PartialEq, Eq, Clone, Copy, Structural)]
pub enum Token {
    /// A word; `Opcode::ILGL` where the word is no mnemonic, and for a
    /// character that starts no token.
    Operator(Opcode),
    /// `$` and digits: a register index.
    Register(u8),
    /// `#` and digits: an immediate.
    Integer(i32),
    /// No more tokens.
    EOF,
}

impl<'a> From<&'a str> for Token {
    fn from(v: &'a str) -> (token: Token) {
        Token::Operator(Opcode::from(v))
    }
}

impl<'a> FromSpecImpl<&'a str> for Token {
    open spec fn obeys_from_spec() -> bool {
        true
    }

    open spec fn from_spec(v: &'a str) -> Token {
        Token::Operator(mnemonic_to_opcode(v@))
    }
}

/// The character that opens a register token.
pub const REGISTER: char = '$';

/// The character that opens an integer token.
pub const VALUE: char = '#';

/// The character that stands for the end of the text. Text that holds it ends
/// there.
pub const END: char = '\0';

/// What words are made of: the letters of either case, and the underscore.
#[verifier::allow_in_spec]
pub fn is_letter(ch: char) -> bool
    returns
        ('a' <= ch && ch <= 'z') || ('A' <= ch && ch <= 'Z') || ch == '_',
{
    matches!(ch, 'a'..='z' | 'A'..='Z' | '_')
}

/// The decimal digits.
#[verifier::allow_in_spec]
pub fn is_digit(ch: char) -> bool
    returns
        '0' <= ch && ch <= '9',
{
    matches!(ch, '0'..='9')
}

/// What separates tokens: space, tab, line feed and carriage return.
#[verifier::allow_in_spec]
pub fn is_whitespace(ch: char) -> bool
    returns
        ch == ' ' || ch == '\t' || ch == '\n' || ch == '\r',
{
    matches!(ch, ' ' | '\t' | '\n' | '\r')
}

/// The letters and the underscore, as a predicate.
pub open spec fn letters() -> spec_fn(char) -> bool {
    |c: char| is_letter(c)
}

/// The decimal digits, as a predicate.
pub open spec fn digits() -> spec_fn(char) -> bool {
    |c: char| is_digit(c)
}

/// The blanks, as a predicate.
pub open spec fn blanks() -> spec_fn(char) -> bool {
    |c: char| is_whitespace(c)
}

/// The number that a string of decimal digits writes.
pub open spec fn decimal_value(digits: Seq<char>) -> nat
    decreases digits.len(),
{
    if digits.len() == 0 {
        0
    } else {
        decimal_value(digits.drop_last()) * 10 + (digits.last() as nat - '0' as nat) as nat
    }
}

/// What a string of decimal digits is read as by a reader that takes values
/// up to `max`: its value, or 0 where it is empty or writes a larger number.
pub open spec fn parsed(digits: Seq<char>, max: nat) -> nat {
    if digits.len() > 0 && decimal_value(digits) <= max {
        decimal_value(digits)
    } else {
        0
    }
}

/// The text has no token at or after `at`: it ends there, or holds the end
/// character there.
pub open spec fn ends_at(text: Seq<char>, at: int) -> bool {
    at >= text.len() || text[at] == END
}

/// The token found in `text` from offset `from` on, and the offset at which
/// the next one is looked for. After the blanks,
/// - the end of the text gives `EOF`, and nothing is consumed;
/// - `$` and the digits behind it give a register, `#` and the digits behind
///   it an integer, of the value the digits write, or 0 where there is no
///   digit or the value is above 255 for a register, above `i32::MAX` for
///   an integer;
/// - a run of letters gives the operator it names;
/// - any other character alone gives the operator `ILGL`.
pub open spec fn token_at(text: Seq<char>, from: int) -> (Token, int) {
    let at = run_end(text, from, blanks());
    if ends_at(text, at) {
        (Token::EOF, at)
    } else if text[at] == REGISTER {
        let end = run_end(text, at + 1, digits());
        (Token::Register(parsed(text.subrange(at + 1, end), u8::MAX as nat) as u8), end)
    } else if text[at] == VALUE {
        let end = run_end(text, at + 1, digits());
        (Token::Integer(parsed(text.subrange(at + 1, end), i32::MAX as nat) as i32), end)
    } else if is_letter(text[at]) {
        let end = run_end(text, at, letters());
        (Token::Operator(mnemonic_to_opcode(text.subrange(at, end))), end)
    } else {
        (Token::Operator(Opcode::ILGL), at + 1)
    }
}

/// Lexing goes forward and comes to an end: a token other than `EOF`
/// consumes at least one character, and at `EOF` the lexer stays where it is
/// and finds `EOF` again.
pub proof fn lemma_token_progress(text: Seq<char>, from: int)
    requires
        0 <= from <= text.len(),
    ensures
        from <= token_at(text, from).1 <= text.len(),
        token_at(text, from).0 != Token::EOF ==> from < token_at(text, from).1,
        token_at(text, from).0 == Token::EOF ==> token_at(text, token_at(text, from).1) == token_at(
            text,
            from,
        ),
{
    let at = run_end(text, from, blanks());
    lemma_run_within(text, from, blanks());
    if ends_at(text, at) {
        assert(run_end(text, at, blanks()) == at);
    } else if text[at] == REGISTER || text[at] == VALUE {
        lemma_run_within(text, at + 1, digits());
    } else if is_letter(text[at]) {
        lemma_run_within(text, at, letters());
    }
}

/// The lexer: assembly text and a cursor into it. It only moves forward.
#[derive(Debug)]
pub struct Lexer {
    input: Vec<char>,
    pos: usize,
}

impl Clone for Lexer {
    fn clone(&self) -> (copy: Lexer)
        ensures
            copy.source() == self.source(),
            copy.offset() == self.offset(),
            copy.wf(),
    {
        proof {
            use_type_invariant(self);
        }
        let input = self.input.clone();
        assert(input@ =~= self.input@);
        Lexer { input, pos: self.pos }
    }
}

impl Lexer {
    #[verifier::type_invariant]
    spec fn within(&self) -> bool {
        self.pos <= self.input@.len()
    }

    /// The text that is being read.
    pub closed spec fn source(&self) -> Seq<char> {
        self.input@
    }

    /// How many characters of the text have been consumed.
    pub closed spec fn offset(&self) -> int {
        self.pos as int
    }

    /// The cursor lies within the text.
    pub open spec fn wf(&self) -> bool {
        0 <= self.offset() <= self.source().len()
    }


    /// A lexer at the start of `input`.
    pub fn new(input: &String) -> (lexer: Lexer)
        ensures
            lexer.source() == input@,
            lexer.offset() == 0,
            lexer.wf(),
    {
        Lexer { input: chars_of(input.as_str()), pos: 0 }
    }

    /// The character at the cursor, or the end character where the text is
    /// used up.
    fn ch(&self) -> (ch: char)
        ensures
            ch == if self.offset() < self.source().len() {
                self.source()[self.offset()]
            } else {
                END
            },
            ch == END <==> ends_at(self.source(), self.offset()),
    {
        if self.pos < self.input.len() {
            self.input[self.pos]
        } else {
            END
        }
    }

    /// Moves the cursor over one character, if there is one.
    fn read_char(&mut self)
        ensures
            final(self).source() == old(self).source(),
            final(self).offset() == if old(self).offset() < old(self).source().len() {
                old(self).offset() + 1
            } else {
                old(self).offset()
            },
    {
        proof {
            use_type_invariant(&*self);
        }
        if self.pos < self.input.len() {
            self.pos += 1;
        }
    }

    /// Moves the cursor over the characters that satisfy `predicate`, and
    /// returns where it started and where it stopped.
    fn read_while(&mut self, predicate: impl Fn(char) -> bool) -> (span: (usize, usize))
        requires
            forall|c: char| call_requires(predicate, (c,)),
        ensures
            final(self).source() == old(self).source(),
            span.0 == old(self).offset(),
            span.1 == final(self).offset(),
            span.0 <= span.1 <= old(self).source().len(),
            forall|k: int|
                span.0 <= k < span.1 ==> call_ensures(predicate, (old(self).source()[k],), true),
            span.1 < old(self).source().len() ==> call_ensures(
                predicate,
                (old(self).source()[span.1 as int],),
                false,
            ),
    {
        proof {
            use_type_invariant(&*self);
        }
        let start = self.pos;
        while self.pos < self.input.len() && predicate(self.input[self.pos])
            invariant
                self.input@ == old(self).input@,
                start <= self.pos <= self.input@.len(),
                forall|c: char| call_requires(predicate, (c,)),
                forall|k: int|
                    start <= k < self.pos ==> call_ensures(predicate, (self.input@[k],), true),
            decreases self.input@.len() - self.pos,
        {
            self.pos += 1;
        }
        (start, self.pos)
    }

    /// Reads the digits in `start..end` of the text as a number up to `max`.
    fn number(&self, start: usize, end: usize, max: u64) -> (value: u64)
        requires
            start <= end <= self.source().len(),
            forall|k: int| start <= k < end ==> is_digit(#[trigger] self.source()[k]),
            max <= u32::MAX,
        ensures
            value == parsed(self.source().subrange(start as int, end as int), max as nat),
    {
        let ghost text = self.input@;
        let mut value: u64 = 0;
        let mut fits = true;
        let mut i = start;
        while i < end
            invariant
                text == self.input@,
                start <= i <= end <= text.len(),
                forall|k: int| start <= k < end ==> is_digit(#[trigger] text[k]),
                max <= u32::MAX,
                fits ==> value == decimal_value(text.subrange(start as int, i as int)) && value
                    <= max,
                !fits ==> decimal_value(text.subrange(start as int, i as int)) > max,
            decreases end - i,
        {
            let ch = self.input[i];
            assert(is_digit(text[i as int]));
            proof {
                let longer = text.subrange(start as int, i + 1);
                assert(longer.drop_last() =~= text.subrange(start as int, i as int));
                assert(longer.last() == ch);
            }
            if fits {
                value = value * 10 + (ch as u64 - '0' as u64);
                fits = value <= max;
            }
            i += 1;
        }
        if fits && start < end {
            value
        } else {
            0
        }
    }

    fn read_identifier(&mut self) -> (token: Token)
        requires
            !ends_at(old(self).source(), old(self).offset()),
            is_letter(old(self).source()[old(self).offset()]),
        ensures
            final(self).source() == old(self).source(),
            (token, final(self).offset()) == token_at(old(self).source(), old(self).offset()),
    {
        let (start, end) = self.read_while(is_letter);
        proof {
            lemma_run_end(self.source(), start as int, end as int, letters());
            assert(run_end(self.source(), start as int, blanks()) == start);
        }
        let span = vstd::slice::slice_subrange(self.input.as_slice(), start, end);
        Token::Operator(lookup(span))
    }

    fn read_integer(&mut self) -> (token: Token)
        requires
            !ends_at(old(self).source(), old(self).offset()),
            old(self).source()[old(self).offset()] == VALUE,
        ensures
            final(self).source() == old(self).source(),
            (token, final(self).offset()) == token_at(old(self).source(), old(self).offset()),
    {
        self.read_char();
        let (start, end) = self.read_while(is_digit);
        proof {
            lemma_run_end(self.source(), start as int, end as int, digits());
            assert(run_end(self.source(), start - 1, blanks()) == start - 1);
        }
        let num = self.number(start, end, i32::MAX as u64);
        Token::Integer(num as i32)
    }

    fn read_register(&mut self) -> (token: Token)
        requires
            !ends_at(old(self).source(), old(self).offset()),
            old(self).source()[old(self).offset()] == REGISTER,
        ensures
            final(self).source() == old(self).source(),
            (token, final(self).offset()) == token_at(old(self).source(), old(self).offset()),
    {
        self.read_char();
        let (start, end) = self.read_while(is_digit);
        proof {
            lemma_run_end(self.source(), start as int, end as int, digits());
            assert(run_end(self.source(), start - 1, blanks()) == start - 1);
        }
        let num = self.number(start, end, u8::MAX as u64);
        Token::Register(num as u8)
    }

    fn skip_whitespace(&mut self)
        ensures
            final(self).source() == old(self).source(),
            final(self).offset() == run_end(old(self).source(), old(self).offset(), blanks()),
    {
        let (start, end) = self.read_while(is_whitespace);
        proof {
            lemma_run_end(self.source(), start as int, end as int, blanks());
        }
    }

    /// Reads the next token.
    pub fn next_token(&mut self) -> (token: Token)
        ensures
            final(self).source() == old(self).source(),
            (token, final(self).offset()) == token_at(old(self).source(), old(self).offset()),
            old(self).wf(),
            final(self).wf(),
    {
        proof {
            use_type_invariant(&*self);
            lemma_run_within(self.source(), self.offset(), blanks());
        }
        self.skip_whitespace();
        let ch = self.ch();
        assert(run_end(self.source(), self.offset(), blanks()) == self.offset());
        let token = if ch == REGISTER {
            self.read_register()
        } else if ch == VALUE {
            self.read_integer()
        } else if is_letter(ch) {
            self.read_identifier()
        } else if ch == END {
            Token::EOF
        } else {
            self.read_char();
            Token::Operator(Opcode::ILGL)
        };
        proof {
            use_type_invariant(&*self);
        }
        token
    }

    /// Reads the next token; `None` where there is none left.
    pub fn next(&mut self) -> (token: Option<Token>)
        ensures
            final(self).source() == old(self).source(),
            final(self).offset() == token_at(old(self).source(), old(self).offset()).1,
            token == match token_at(old(self).source(), old(self).offset()).0 {
                Token::EOF => None,
                found => Some(found),
            },
            old(self).wf(),
            final(self).wf(),
    {
        match self.next_token() {
            Token::EOF => None,
            token => Some(token),
        }
    }
}

} // verus!
