//! Instructions as the tokens they were written with, and their encoding.

use crate::assembler::token::{token_at, Lexer, Token};
use crate::instructions::{opcode_to_byte, Opcode};
use vstd::prelude::*;

verus! {

/// What `to_bytes` says of an instruction whose operator is no operator.
pub const OPERAND_FOR_OPERATOR: &'static str = "syntax error: opedand in operator position";

/// What `to_bytes` says of an operand that is an operator or the end of the
/// text.
pub const OPERATOR_FOR_OPERAND: &'static str = "syntax error: operator in operand position";

/// Up to three operands, in the order in which they were written.
#[derive(Debug, PartialEq)]
pub struct Operands(pub [Option<Token>; 3]);

/// An operator and its operands, as tokens.
#[derive(Debug, PartialEq)]
pub struct Instruction {
    pub operator: Token,
    pub operands: Operands,
}

/// Instructions in the order in which they are to run.
#[derive(Debug, PartialEq)]
pub struct Program(pub Vec<Instruction>);

/// The high and the low byte of the lowest 16 bits of an integer.
pub open spec fn split(i: i32) -> (u8, u8) {
    (((i as int / 256) % 256) as u8, (i as int % 256) as u8)
}

/// The bytes that an operand token is encoded as: one for a register, two
/// for an integer, high byte first. Other tokens are no operands.
pub open spec fn operand_bytes(token: Token) -> Result<Seq<u8>, &'static str> {
    match token {
        Token::Register(address) => Ok(seq![address]),
        Token::Integer(value) => Ok(seq![split(value).0, split(value).1]),
        _ => Err(OPERATOR_FOR_OPERAND),
    }
}

/// The bytes of the operands that are there, one after the other, or what
/// is wrong with the first that is no operand.
pub open spec fn operands_bytes(operands: Seq<Option<Token>>) -> Result<Seq<u8>, &'static str>
    decreases operands.len(),
{
    if operands.len() == 0 {
        Ok(Seq::empty())
    } else {
        match operands_bytes(operands.drop_last()) {
            Err(reason) => Err(reason),
            Ok(bytes) => match operands.last() {
                None => Ok(bytes),
                Some(token) => match operand_bytes(token) {
                    Err(reason) => Err(reason),
                    Ok(more) => Ok(bytes + more),
                },
            },
        }
    }
}

/// The encoding of an instruction: the byte of its opcode, then its
/// operands.
pub open spec fn instruction_bytes(instruction: Instruction) -> Result<Seq<u8>, &'static str> {
    match instruction.operator {
        Token::Operator(op) => match operands_bytes(instruction.operands.0@) {
            Err(reason) => Err(reason),
            Ok(bytes) => Ok(seq![opcode_to_byte(op)] + bytes),
        },
        _ => Err(OPERAND_FOR_OPERATOR),
    }
}

/// An encoding as a sequence of bytes.
pub open spec fn viewed(encoded: Result<Vec<u8>, &'static str>) -> Result<Seq<u8>, &'static str> {
    match encoded {
        Ok(bytes) => Ok(bytes@),
        Err(reason) => Err(reason),
    }
}

/// A token as an operand slot: empty at the end of the text.
pub open spec fn slot(token: Token) -> Option<Token> {
    match token {
        Token::EOF => None,
        found => Some(found),
    }
}

/// Splits an integer into the two bytes of an immediate, high byte first.
pub fn parse_integer(i: i32) -> (bytes: (u8, u8))
    ensures
        bytes == split(i),
{
    let right = #[verifier::truncate] (i as u16);
    let left = right >> 8;
    assert(((i as u16) >> 8) as u8 == ((i as int / 256) % 256) as u8 && (i as u16) as u8 == (i as int
        % 256) as u8) by (bit_vector);
    (#[verifier::truncate] (left as u8), #[verifier::truncate] (right as u8))
}

impl Token {
    /// Appends the bytes of this operand to `operands`; leaves them as they
    /// are where this token is no operand.
    pub fn parse_operand(self, operands: &mut Vec<u8>) -> (done: Result<(), &'static str>)
        ensures
            match operand_bytes(self) {
                Ok(bytes) => done == Ok::<(), &'static str>(()) && final(operands)@ == old(operands)@
                    + bytes,
                Err(reason) => done == Err::<(), &'static str>(reason) && final(operands)@ == old(
                    operands,
                )@,
            },
    {
        match self {
            Token::Register(address) => operands.push(address),
            Token::Integer(value) => {
                let (left, right) = parse_integer(value);
                operands.push(left);
                operands.push(right);
            },
            _ => return Err(OPERATOR_FOR_OPERAND),
        }
        assert(final(operands)@ =~= old(operands)@ + operand_bytes(self)->Ok_0);
        Ok(())
    }
}

impl Instruction {
    /// Encodes the instruction, or says what is wrong with it.
    pub fn to_bytes(&self) -> (encoded: Result<Vec<u8>, &'static str>)
        ensures
            viewed(encoded) == instruction_bytes(*self),
    {
        if let Token::Operator(op) = self.operator {
            let mut bytes: Vec<u8> = Vec::new();
            bytes.push(op.to_byte());
            let ops = &self.operands.0;
            let mut i: usize = 0;
            assert(ops@.take(0) =~= Seq::empty() && bytes@.skip(1) =~= Seq::empty());
            while i < 3
                invariant
                    i <= 3,
                    self.operator == Token::Operator(op),
                    ops@ == self.operands.0@,
                    operands_bytes(ops@.take(i as int)) == Ok::<Seq<u8>, &'static str>(
                        bytes@.skip(1),
                    ),
                    bytes@.len() >= 1,
                    bytes@[0] == opcode_to_byte(op),
                decreases 3 - i,
            {
                proof {
                    assert(ops@.take(i + 1).drop_last() =~= ops@.take(i as int));
                    assert(ops@.take(i + 1).last() == ops@[i as int]);
                }
                if let Some(token) = ops[i] {
                    let ghost before = bytes@;
                    match token.parse_operand(&mut bytes) {
                        Ok(()) => {
                            assert(bytes@.skip(1) =~= before.skip(1) + operand_bytes(token)->Ok_0);
                        },
                        Err(reason) => {
                            proof {
                                assert(operands_bytes(ops@.take(i + 1)) == Err::<
                                    Seq<u8>,
                                    &'static str,
                                >(reason));
                                lemma_first_error(ops@, i + 1, 3);
                                assert(ops@.take(3) =~= ops@);
                            }
                            return Err(reason);
                        },
                    }
                }
                i += 1;
            }
            assert(ops@.take(3) =~= ops@);
            assert(bytes@ =~= seq![opcode_to_byte(op)] + bytes@.skip(1));
            Ok(bytes)
        } else {
            Err(OPERAND_FOR_OPERATOR)
        }
    }
}

/// What is wrong with the first operands is wrong with all of them.
pub proof fn lemma_first_error(operands: Seq<Option<Token>>, some: int, all: int)
    requires
        0 <= some <= all <= operands.len(),
        operands_bytes(operands.take(some)) is Err,
    ensures
        operands_bytes(operands.take(all)) == operands_bytes(operands.take(some)),
    decreases all - some,
{
    if some < all {
        lemma_first_error(operands, some, all - 1);
        assert(operands.take(all).drop_last() =~= operands.take(all - 1));
    }
}

impl Lexer {
    /// Reads what follows a `load`: the next token as the operator and the
    /// three after it as operands, none where the text has ended. The text
    /// must open with `load`.
    pub fn read_instruction(&mut self) -> (instruction: Instruction)
        requires
            token_at(old(self).source(), old(self).offset()).0 == Token::Operator(Opcode::LOAD),
        ensures
            final(self).source() == old(self).source(),
            ({
                let text = old(self).source();
                let opening = token_at(text, old(self).offset());
                let operator = token_at(text, opening.1);
                let first = token_at(text, operator.1);
                let second = token_at(text, first.1);
                let third = token_at(text, second.1);
                &&& instruction.operator == operator.0
                &&& instruction.operands.0@ == seq![slot(first.0), slot(second.0), slot(third.0)]
                &&& final(self).offset() == third.1
            }),
    {
        let _token = self.next_token();
        let operator = self.next_token();
        let first = self.next();
        let second = self.next();
        let third = self.next();
        let operands = Operands([first, second, third]);
        assert(operands.0@ =~= seq![first, second, third]);
        Instruction { operator, operands }
    }
}

} // verus!
