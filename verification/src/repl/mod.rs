//! The decisions of an interactive session: what a line of input asks for,
//! and what it does to the machine. Reading lines and printing is left to the
//! host, which is told what to show by a [`Reply`].

use crate::text::{chars_of, is_word, lemma_run_end, run_end};
use crate::vm::state::{Outcome, State};
use crate::vm::{Stdin, VM};
use vstd::prelude::*;

verus! {

/// What a line of input asks for.
#[derive(Debug, PartialEq, Eq, Clone, Copy, Structural)]
pub enum Command {
    /// `:quit` or `:q`.
    Quit,
    /// `:history` or `:h`.
    History,
    /// `:program` or `:p`.
    Program,
    /// `:registers` or `:r`.
    Registers,
    /// Anything else: bytes in hexadecimal digits, to be run.
    Eval,
}

/// What the host is to do after a line of input.
#[derive(Debug, PartialEq, Eq, Clone, Copy, Structural)]
pub enum Reply {
    /// End the session.
    Quit,
    /// List the lines entered so far.
    History,
    /// List the bytes of the program.
    Program,
    /// List what the registers hold.
    Registers,
    /// The line held no byte in hexadecimal digits; nothing was done.
    Undecodable,
    /// The bytes of the line were appended to the program and the machine
    /// took a step: how the step ended, or `None` where the counter was past
    /// the program, and the value to show.
    Evaluated(Option<Outcome>, i32),
}

/// The command that a line of input spells.
pub open spec fn command_of(line: Seq<char>) -> Command {
    if line == ":quit"@ || line == ":q"@ {
        Command::Quit
    } else if line == ":history"@ || line == ":h"@ {
        Command::History
    } else if line == ":program"@ || line == ":p"@ {
        Command::Program
    } else if line == ":registers"@ || line == ":r"@ {
        Command::Registers
    } else {
        Command::Eval
    }
}

/// The characters that separate the entries of a line: those that Unicode
/// calls white space.
#[verifier::allow_in_spec]
pub fn is_space(ch: char) -> bool
    returns
        ('\u{9}' <= ch && ch <= '\u{d}') || ch == ' ' || ch == '\u{85}' || ch == '\u{a0}' || ch
            == '\u{1680}' || ('\u{2000}' <= ch && ch <= '\u{200a}') || ch == '\u{2028}' || ch
            == '\u{2029}' || ch == '\u{202f}' || ch == '\u{205f}' || ch == '\u{3000}',
{
    matches!(ch, '\u{9}'..='\u{d}' | ' ' | '\u{85}' | '\u{a0}' | '\u{1680}' | '\u{2000}'..='\u{200a}'
        | '\u{2028}' | '\u{2029}' | '\u{202f}' | '\u{205f}' | '\u{3000}')
}

/// The value of a hexadecimal digit, of either case.
pub open spec fn hex_digit(ch: char) -> Option<nat> {
    if '0' <= ch && ch <= '9' {
        Some((ch as nat - '0' as nat) as nat)
    } else if 'a' <= ch && ch <= 'f' {
        Some((ch as nat - 'a' as nat + 10) as nat)
    } else if 'A' <= ch && ch <= 'F' {
        Some((ch as nat - 'A' as nat + 10) as nat)
    } else {
        None
    }
}

/// Every character is a hexadecimal digit.
pub open spec fn all_hex(digits: Seq<char>) -> bool {
    forall|k: int| 0 <= k < digits.len() ==> (#[trigger] hex_digit(digits[k])) is Some
}

/// The number that a string of hexadecimal digits writes.
pub open spec fn hex_number(digits: Seq<char>) -> nat
    decreases digits.len(),
{
    if digits.len() == 0 {
        0
    } else {
        hex_number(digits.drop_last()) * 16 + match hex_digit(digits.last()) {
            Some(value) => value,
            None => 0,
        }
    }
}

/// The byte that an entry of a line writes: one or more hexadecimal digits,
/// with or without a `+` in front, of a value up to 255. Any other entry
/// writes none.
pub open spec fn hex_entry(entry: Seq<char>) -> Option<u8> {
    let digits = if entry.len() > 0 && entry[0] == '+' {
        entry.drop_first()
    } else {
        entry
    };
    if digits.len() > 0 && all_hex(digits) && hex_number(digits) <= u8::MAX {
        Some(hex_number(digits) as u8)
    } else {
        None
    }
}

/// White space, as a predicate.
pub open spec fn spaces() -> spec_fn(char) -> bool {
    |c: char| is_space(c)
}

/// Anything but white space, as a predicate.
pub open spec fn inked() -> spec_fn(char) -> bool {
    |c: char| !is_space(c)
}

/// The bytes that a line writes from offset `from` on: the line is cut at
/// white space, and each entry that writes a byte gives one, in order.
pub open spec fn hex_bytes_from(line: Seq<char>, from: int) -> Seq<u8>
    decreases line.len() - from,
{
    let start = run_end(line, from, spaces());
    let end = run_end(line, start, inked());
    if 0 <= from <= start < end <= line.len() {
        match hex_entry(line.subrange(start, end)) {
            Some(byte) => seq![byte] + hex_bytes_from(line, end),
            None => hex_bytes_from(line, end),
        }
    } else {
        Seq::empty()
    }
}

/// The bytes that a line writes.
pub open spec fn hex_bytes(line: Seq<char>) -> Seq<u8> {
    hex_bytes_from(line, 0)
}

/// What evaluating a line does to a machine, and the reply to it.
pub open spec fn evaluated(machine: State, line: Seq<char>) -> (Reply, State) {
    let bytes = hex_bytes(line);
    if bytes.len() == 0 {
        (Reply::Undecodable, machine)
    } else {
        let loaded = State { program: machine.program + bytes, ..machine };
        let outcome = if loaded.is_not_done() {
            Some(loaded.outcome())
        } else {
            None
        };
        (Reply::Evaluated(outcome, loaded.step().output()), loaded.step())
    }
}

/// What a line of input does to a machine, and the reply to it.
pub open spec fn replied(machine: State, line: Seq<char>) -> (Reply, State) {
    match command_of(line) {
        Command::Quit => (Reply::Quit, machine),
        Command::History => (Reply::History, machine),
        Command::Program => (Reply::Program, machine),
        Command::Registers => (Reply::Registers, machine),
        Command::Eval => evaluated(machine, line),
    }
}

/// A longer string of hexadecimal digits writes no smaller number.
pub proof fn lemma_hex_number_grows(digits: Seq<char>, some: int)
    requires
        0 <= some <= digits.len(),
    ensures
        hex_number(digits.take(some)) <= hex_number(digits),
    decreases digits.len() - some,
{
    if some < digits.len() {
        lemma_hex_number_grows(digits, some + 1);
        assert(digits.take(some + 1).drop_last() =~= digits.take(some));
    } else {
        assert(digits.take(some) =~= digits);
    }
}

/// The value of a hexadecimal digit, of either case.
pub fn hex_digit_value(ch: char) -> (value: Option<u8>)
    ensures
        match value {
            Some(v) => hex_digit(ch) == Some(v as nat),
            None => hex_digit(ch) is None,
        },
{
    if '0' <= ch && ch <= '9' {
        Some((ch as u32 - '0' as u32) as u8)
    } else if 'a' <= ch && ch <= 'f' {
        Some((ch as u32 - 'a' as u32 + 10) as u8)
    } else if 'A' <= ch && ch <= 'F' {
        Some((ch as u32 - 'A' as u32 + 10) as u8)
    } else {
        None
    }
}

/// Reads one entry of a line as a byte.
pub fn parse_entry(entry: &[char]) -> (byte: Option<u8>)
    ensures
        byte == hex_entry(entry@),
{
    let start: usize = if entry.len() > 0 && entry[0] == '+' {
        1
    } else {
        0
    };
    let ghost digits = entry@.subrange(start as int, entry@.len() as int);
    assert(digits =~= if start == 1 {
        entry@.drop_first()
    } else {
        entry@
    });
    if start == entry.len() {
        return None;
    }
    let mut value: u32 = 0;
    let mut i = start;
    while i < entry.len()
        invariant
            start <= i <= entry@.len(),
            digits == entry@.subrange(start as int, entry@.len() as int),
            digits == if entry@.len() > 0 && entry@[0] == '+' {
                entry@.drop_first()
            } else {
                entry@
            },
            all_hex(digits.take(i - start)),
            value == hex_number(digits.take(i - start)),
            value <= u8::MAX,
        decreases entry@.len() - i,
    {
        proof {
            assert(digits.take(i - start + 1).drop_last() =~= digits.take(i - start));
            assert(digits.take(i - start + 1).last() == entry@[i as int]);
            lemma_hex_number_grows(digits, i - start + 1);
        }
        match hex_digit_value(entry[i]) {
            None => {
                assert(hex_digit(digits[i - start]) is None);
                return None;
            },
            Some(digit) => {
                value = value * 16 + digit as u32;
                if value > u8::MAX as u32 {
                    return None;
                }
            },
        }
        assert forall|k: int| 0 <= k < i - start + 1 implies (#[trigger] hex_digit(
            digits.take(i - start + 1)[k],
        )) is Some by {
            if k < i - start {
                assert(digits.take(i - start)[k] == digits.take(i - start + 1)[k]);
            }
        }
        i += 1;
    }
    assert(digits.take(i - start) =~= digits);
    Some(value as u8)
}

/// Tells which command a line of input spells.
pub fn command(input: &str) -> (asked: Command)
    ensures
        asked == command_of(input@),
{
    let line = chars_of(input);
    let line = line.as_slice();
    if is_word(line, ":quit") || is_word(line, ":q") {
        Command::Quit
    } else if is_word(line, ":history") || is_word(line, ":h") {
        Command::History
    } else if is_word(line, ":program") || is_word(line, ":p") {
        Command::Program
    } else if is_word(line, ":registers") || is_word(line, ":r") {
        Command::Registers
    } else {
        Command::Eval
    }
}

/// An interactive session: the lines entered so far, and a machine.
pub struct REPL {
    pub command_buffer: Vec<String>,
    pub vm: VM,
}

impl REPL {
    /// The lines entered so far.
    pub open spec fn history(&self) -> Seq<Seq<char>> {
        self.command_buffer@.map_values(|line: String| line@)
    }

    /// A session with no line entered and a machine with nothing loaded.
    pub fn new() -> (repl: REPL)
        ensures
            repl.history() == Seq::<Seq<char>>::empty(),
            repl.vm@ == State::fresh(),
            repl.vm.wf(),
    {
        let repl = REPL { command_buffer: Vec::new(), vm: VM::new() };
        assert(repl.history() =~= Seq::<Seq<char>>::empty());
        repl
    }

    /// The bytes that a line writes in hexadecimal digits.
    pub fn parse_hex(&mut self, i: &str) -> (bytes: Vec<u8>)
        ensures
            bytes@ == hex_bytes(i@),
            *final(self) == *old(self),
    {
        let line = chars_of(i);
        let mut bytes: Vec<u8> = Vec::new();
        let mut at: usize = 0;
        loop
            invariant
                at <= line@.len(),
                line@ == i@,
                *self == *old(self),
                hex_bytes(i@) == bytes@ + hex_bytes_from(line@, at as int),
            ensures
                bytes@ == hex_bytes(i@),
            decreases line@.len() - at,
        {
            let mut start = at;
            while start < line.len() && is_space(line[start])
                invariant
                    at <= start <= line@.len(),
                    forall|k: int| at <= k < start ==> is_space(#[trigger] line@[k]),
                decreases line@.len() - start,
            {
                start += 1;
            }
            let mut end = start;
            while end < line.len() && !is_space(line[end])
                invariant
                    start <= end <= line@.len(),
                    forall|k: int| start <= k < end ==> !is_space(#[trigger] line@[k]),
                decreases line@.len() - end,
            {
                end += 1;
            }
            proof {
                lemma_run_end(line@, at as int, start as int, spaces());
                lemma_run_end(line@, start as int, end as int, inked());
            }
            if start == end {
                assert(bytes@ + Seq::<u8>::empty() =~= bytes@);
                break ;
            }
            let entry = vstd::slice::slice_subrange(line.as_slice(), start, end);
            match parse_entry(entry) {
                Some(byte) => {
                    let ghost before = bytes@;
                    bytes.push(byte);
                    assert(bytes@ + hex_bytes_from(line@, end as int) =~= before + (seq![byte]
                        + hex_bytes_from(line@, end as int)));
                },
                None => {},
            }
            at = end;
        }
        bytes
    }

    /// Appends the bytes that a line writes to the program and lets the
    /// machine take a step. A line that writes no byte leaves the machine as
    /// it is.
    pub fn eval(&mut self, input: &str) -> (reply: Reply)
        requires
            old(self).vm.wf(),
        ensures
            final(self).vm.wf(),
            final(self).history() == old(self).history(),
            reply == evaluated(old(self).vm@, input@).0,
            final(self).vm@ == evaluated(old(self).vm@, input@).1,
    {
        let bytes = self.parse_hex(input);
        if bytes.len() == 0 {
            Reply::Undecodable
        } else {
            self.vm.stdin(bytes);
            let outcome = if self.vm.is_not_done() {
                Some(self.vm.execute_instruction())
            } else {
                None
            };
            Reply::Evaluated(outcome, self.vm.stdout())
        }
    }

    /// Does what a line of input asks for, and says what the host is to do;
    /// only `Reply::Quit` ends the session.
    pub fn should_stop_on_command(&mut self, input: &str) -> (reply: Reply)
        requires
            old(self).vm.wf(),
        ensures
            final(self).vm.wf(),
            final(self).history() == old(self).history(),
            reply == replied(old(self).vm@, input@).0,
            final(self).vm@ == replied(old(self).vm@, input@).1,
    {
        match command(input) {
            Command::Quit => Reply::Quit,
            Command::History => Reply::History,
            Command::Program => Reply::Program,
            Command::Registers => Reply::Registers,
            Command::Eval => self.eval(input),
        }
    }

    /// Takes a line of input: remembers it, and does what it asks for.
    pub fn accept(&mut self, command: &str) -> (reply: Reply)
        requires
            old(self).vm.wf(),
        ensures
            final(self).vm.wf(),
            final(self).history() == old(self).history().push(command@),
            reply == replied(old(self).vm@, command@).0,
            final(self).vm@ == replied(old(self).vm@, command@).1,
    {
        self.command_buffer.push(command.to_owned());
        assert(self.history() =~= old(self).history().push(command@));
        self.should_stop_on_command(command)
    }
}

} // verus!
