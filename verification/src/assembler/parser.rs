//! The assembler: from assembly text to instruction words of four bytes.
//!
//! Each pull reads one instruction. `hlt` takes no operand; `load` takes a
//! register and an integer; `add`, `sub`, `mul` and `div` take two source
//! registers and a destination register. Any other token where an
//! instruction should open, the end of the text among them, ends the
//! assembling with the reason [`EOF`]. An operand of the wrong kind ends it
//! with a reason of its own. After a reason nothing is taken back: the tokens
//! read so far stay consumed.

use crate::assembler::lex::{parse_integer, split};
use crate::assembler::token::{token_at, Lexer, Token};
use crate::instructions::{opcode_to_byte, Opcode};
use vstd::prelude::*;

verus! {

/// The reason given where a register is due and an integer stands.
pub const INTEGER_FOR_REGISTER: &'static str = "syntax error: expected register, found integer";

/// The reason given where a register is due and an operator stands.
pub const OPERATOR_FOR_REGISTER: &'static str = "syntax error: expected register, found operator";

/// The reason given where an integer is due and a register stands.
pub const REGISTER_FOR_INTEGER: &'static str = "syntax error: expected integer, found register";

/// The reason given where an integer is due and an operator stands.
pub const OPERATOR_FOR_INTEGER: &'static str = "syntax error: expected integer, found operator";

/// The reason given where the text ends, or does not go on with an
/// instruction.
pub const EOF: &'static str = "EOF";

/// The register that a token names, or why it names none.
pub open spec fn register_of(token: Token) -> Result<u8, &'static str> {
    match token {
        Token::Register(address) => Ok(address),
        Token::Integer(_) => Err(INTEGER_FOR_REGISTER),
        Token::Operator(_) => Err(OPERATOR_FOR_REGISTER),
        Token::EOF => Err(EOF),
    }
}

/// The two bytes of the integer that a token holds, high byte first, or why
/// it holds none.
pub open spec fn integer_of(token: Token) -> Result<(u8, u8), &'static str> {
    match token {
        Token::Integer(value) => Ok(split(value)),
        Token::Register(_) => Err(REGISTER_FOR_INTEGER),
        Token::Operator(_) => Err(OPERATOR_FOR_INTEGER),
        Token::EOF => Err(EOF),
    }
}

/// An instruction of an opcode without operands.
pub open spec fn nullary_word(op: Opcode) -> [u8; 4] {
    [opcode_to_byte(op), 0u8, 0u8, 0u8]
}

/// The operands of an instruction that takes a register and an integer,
/// read from `from` on: the word of the instruction, or the reason given by
/// the first operand that is of the wrong kind; and where reading stopped.
pub open spec fn integer_op_at(text: Seq<char>, from: int, op: Opcode) -> (
    Result<[u8; 4], &'static str>,
    int,
) {
    let first = token_at(text, from);
    match register_of(first.0) {
        Err(reason) => (Err(reason), first.1),
        Ok(output_address) => {
            let second = token_at(text, first.1);
            match integer_of(second.0) {
                Err(reason) => (Err(reason), second.1),
                Ok(bytes) => (Ok([opcode_to_byte(op), output_address, bytes.0, bytes.1]), second.1),
            }
        },
    }
}

/// The operands of an instruction that takes three registers, read from
/// `from` on.
pub open spec fn binary_op_at(text: Seq<char>, from: int, op: Opcode) -> (
    Result<[u8; 4], &'static str>,
    int,
) {
    let first = token_at(text, from);
    match register_of(first.0) {
        Err(reason) => (Err(reason), first.1),
        Ok(left_operand) => {
            let second = token_at(text, first.1);
            match register_of(second.0) {
                Err(reason) => (Err(reason), second.1),
                Ok(right_operand) => {
                    let third = token_at(text, second.1);
                    match register_of(third.0) {
                        Err(reason) => (Err(reason), third.1),
                        Ok(output_address) => (
                            Ok([opcode_to_byte(op), left_operand, right_operand, output_address]),
                            third.1,
                        ),
                    }
                },
            }
        },
    }
}

/// The instruction that the text holds from `from` on, or why there is
/// none; and where reading stopped.
pub open spec fn instruction_at(text: Seq<char>, from: int) -> (Result<[u8; 4], &'static str>, int) {
    let opening = token_at(text, from);
    match opening.0 {
        Token::Operator(Opcode::HLT) => (Ok(nullary_word(Opcode::HLT)), opening.1),
        Token::Operator(Opcode::LOAD) => integer_op_at(text, opening.1, Opcode::LOAD),
        Token::Operator(Opcode::ADD) => binary_op_at(text, opening.1, Opcode::ADD),
        Token::Operator(Opcode::SUB) => binary_op_at(text, opening.1, Opcode::SUB),
        Token::Operator(Opcode::MUL) => binary_op_at(text, opening.1, Opcode::MUL),
        Token::Operator(Opcode::DIV) => binary_op_at(text, opening.1, Opcode::DIV),
        _ => (Err(EOF), opening.1),
    }
}

/// The assembler: a lexer, read one instruction at a time.
pub struct Parser {
    lexer: Lexer,
}

impl Parser {
    /// The text that is being assembled.
    pub closed spec fn source(&self) -> Seq<char> {
        self.lexer.source()
    }

    /// How many characters of the text have been consumed.
    pub closed spec fn offset(&self) -> int {
        self.lexer.offset()
    }

    /// An assembler at the start of `input`.
    pub fn new(input: &String) -> (parser: Parser)
        ensures
            parser.source() == input@,
            parser.offset() == 0,
    {
        Parser { lexer: Lexer::new(input) }
    }

    fn register(&mut self) -> (address: Result<u8, &'static str>)
        ensures
            final(self).source() == old(self).source(),
            address == register_of(token_at(old(self).source(), old(self).offset()).0),
            final(self).offset() == token_at(old(self).source(), old(self).offset()).1,
    {
        match self.lexer.next_token() {
            Token::Register(address) => Ok(address),
            Token::Integer(_) => Err(INTEGER_FOR_REGISTER),
            Token::Operator(_) => Err(OPERATOR_FOR_REGISTER),
            _ => Err(EOF),
        }
    }

    fn integer(&mut self) -> (bytes: Result<(u8, u8), &'static str>)
        ensures
            final(self).source() == old(self).source(),
            bytes == integer_of(token_at(old(self).source(), old(self).offset()).0),
            final(self).offset() == token_at(old(self).source(), old(self).offset()).1,
    {
        match self.lexer.next_token() {
            Token::Integer(value) => Ok(parse_integer(value)),
            Token::Register(_) => Err(REGISTER_FOR_INTEGER),
            Token::Operator(_) => Err(OPERATOR_FOR_INTEGER),
            _ => Err(EOF),
        }
    }

    fn integer_op(&mut self, op: Opcode) -> (word: Result<[u8; 4], &'static str>)
        ensures
            final(self).source() == old(self).source(),
            (word, final(self).offset()) == integer_op_at(
                old(self).source(),
                old(self).offset(),
                op,
            ),
    {
        let op = op.to_byte();
        let output_address = self.register()?;
        let (left_byte, right_byte) = self.integer()?;
        Ok([op, output_address, left_byte, right_byte])
    }

    fn nullary_op(&mut self, op: Opcode) -> (word: Result<[u8; 4], &'static str>)
        ensures
            final(self).source() == old(self).source(),
            final(self).offset() == old(self).offset(),
            word == Ok::<[u8; 4], &'static str>(nullary_word(op)),
    {
        let op = op.to_byte();
        Ok([op, 0, 0, 0])
    }

    fn binary_op(&mut self, op: Opcode) -> (word: Result<[u8; 4], &'static str>)
        ensures
            final(self).source() == old(self).source(),
            (word, final(self).offset()) == binary_op_at(old(self).source(), old(self).offset(), op),
    {
        let op = op.to_byte();
        let left_operand = self.register()?;
        let right_operand = self.register()?;
        let output_address = self.register()?;
        Ok([op, left_operand, right_operand, output_address])
    }

    /// Assembles the next instruction.
    pub fn next_instruction(&mut self) -> (word: Result<[u8; 4], &'static str>)
        ensures
            final(self).source() == old(self).source(),
            (word, final(self).offset()) == instruction_at(old(self).source(), old(self).offset()),
    {
        let token = self.lexer.next_token();

        match token {
            Token::Operator(Opcode::HLT) => self.nullary_op(Opcode::HLT),
            Token::Operator(Opcode::LOAD) => self.integer_op(Opcode::LOAD),
            Token::Operator(Opcode::ADD) => self.binary_op(Opcode::ADD),
            Token::Operator(Opcode::SUB) => self.binary_op(Opcode::SUB),
            Token::Operator(Opcode::MUL) => self.binary_op(Opcode::MUL),
            Token::Operator(Opcode::DIV) => self.binary_op(Opcode::DIV),
            _ => Err(EOF),
        }
    }
}

} // verus!
