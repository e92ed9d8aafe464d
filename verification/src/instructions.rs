//! The opcode table: the one place that relates an operation to its mnemonic
//! and to the byte that encodes it.

use crate::text::{chars_of, is_word};
use vstd::prelude::*;
use vstd::std_specs::convert::FromSpecImpl;

verus! {

/// The operations of the machine. `ILGL` stands for every byte and every word
/// that names no operation.
#[derive(Debug, PartialEq, Eq, Clone, Copy, Structural)]
pub enum Opcode {
    HLT,
    LOAD,
    ADD,
    SUB,
    MUL,
    DIV,
    JMP,
    JMPF,
    JMPB,
    EQ,
    NEQ,
    GT,
    LT,
    GTEQ,
    LTEQ,
    JEQ,
    ALLOC,
    ILGL,
}

/// An operation on its own, before any operand is attached to it.
#[derive(Debug, PartialEq, Eq, Structural)]
pub struct Instruction {
    pub opcode: Opcode,
}

impl Instruction {
    /// The instruction of an opcode.
    pub fn new(opcode: Opcode) -> (instruction: Instruction)
        ensures
            instruction.opcode == opcode,
    {
        Instruction { opcode }
    }
}

/// The byte that encodes an opcode: its place in the declaration, from 0.
pub open spec fn opcode_to_byte(op: Opcode) -> u8 {
    match op {
        Opcode::HLT => 0,
        Opcode::LOAD => 1,
        Opcode::ADD => 2,
        Opcode::SUB => 3,
        Opcode::MUL => 4,
        Opcode::DIV => 5,
        Opcode::JMP => 6,
        Opcode::JMPF => 7,
        Opcode::JMPB => 8,
        Opcode::EQ => 9,
        Opcode::NEQ => 10,
        Opcode::GT => 11,
        Opcode::LT => 12,
        Opcode::GTEQ => 13,
        Opcode::LTEQ => 14,
        Opcode::JEQ => 15,
        Opcode::ALLOC => 16,
        Opcode::ILGL => 17,
    }
}

/// The opcode that a byte encodes. Decoding is total: a byte that encodes
/// nothing is `ILGL`.
pub open spec fn byte_to_opcode(byte: u8) -> Opcode {
    match byte {
        0 => Opcode::HLT,
        1 => Opcode::LOAD,
        2 => Opcode::ADD,
        3 => Opcode::SUB,
        4 => Opcode::MUL,
        5 => Opcode::DIV,
        6 => Opcode::JMP,
        7 => Opcode::JMPF,
        8 => Opcode::JMPB,
        9 => Opcode::EQ,
        10 => Opcode::NEQ,
        11 => Opcode::GT,
        12 => Opcode::LT,
        13 => Opcode::GTEQ,
        14 => Opcode::LTEQ,
        15 => Opcode::JEQ,
        16 => Opcode::ALLOC,
        _ => Opcode::ILGL,
    }
}

/// Whether assembly text has a word for the opcode. `ALLOC` and `ILGL` have
/// none.
pub open spec fn has_mnemonic(op: Opcode) -> bool {
    op != Opcode::ALLOC && op != Opcode::ILGL
}

/// The word that assembly text uses for an opcode; meaningful where
/// `has_mnemonic` holds.
pub open spec fn mnemonic(op: Opcode) -> Seq<char> {
    match op {
        Opcode::HLT => "hlt"@,
        Opcode::LOAD => "load"@,
        Opcode::ADD => "add"@,
        Opcode::SUB => "sub"@,
        Opcode::MUL => "mul"@,
        Opcode::DIV => "div"@,
        Opcode::JMP => "jmp"@,
        Opcode::JMPF => "jmpf"@,
        Opcode::JMPB => "jmpb"@,
        Opcode::EQ => "eq"@,
        Opcode::NEQ => "neq"@,
        Opcode::GT => "gt"@,
        Opcode::LT => "lt"@,
        Opcode::GTEQ => "gteq"@,
        Opcode::LTEQ => "lteq"@,
        Opcode::JEQ => "jeq"@,
        Opcode::ALLOC => "alloc"@,
        Opcode::ILGL => "ilgl"@,
    }
}

/// The opcode that a word of assembly text names. Every mnemonic names the
/// opcode it is called after (`lt` is `LT`, `gteq` is `GTEQ`, `jeq` is `JEQ`);
/// any other text, `alloc` and `ilgl` included, is `ILGL`.
pub open spec fn mnemonic_to_opcode(text: Seq<char>) -> Opcode {
    if text == "hlt"@ {
        Opcode::HLT
    } else if text == "load"@ {
        Opcode::LOAD
    } else if text == "add"@ {
        Opcode::ADD
    } else if text == "sub"@ {
        Opcode::SUB
    } else if text == "mul"@ {
        Opcode::MUL
    } else if text == "div"@ {
        Opcode::DIV
    } else if text == "jmp"@ {
        Opcode::JMP
    } else if text == "jmpf"@ {
        Opcode::JMPF
    } else if text == "jmpb"@ {
        Opcode::JMPB
    } else if text == "eq"@ {
        Opcode::EQ
    } else if text == "neq"@ {
        Opcode::NEQ
    } else if text == "gt"@ {
        Opcode::GT
    } else if text == "lt"@ {
        Opcode::LT
    } else if text == "gteq"@ {
        Opcode::GTEQ
    } else if text == "lteq"@ {
        Opcode::LTEQ
    } else if text == "jeq"@ {
        Opcode::JEQ
    } else {
        Opcode::ILGL
    }
}

impl Opcode {
    /// Encodes the opcode.
    pub fn to_byte(self) -> (byte: u8)
        ensures
            byte == opcode_to_byte(self),
    {
        match self {
            Opcode::HLT => 0,
            Opcode::LOAD => 1,
            Opcode::ADD => 2,
            Opcode::SUB => 3,
            Opcode::MUL => 4,
            Opcode::DIV => 5,
            Opcode::JMP => 6,
            Opcode::JMPF => 7,
            Opcode::JMPB => 8,
            Opcode::EQ => 9,
            Opcode::NEQ => 10,
            Opcode::GT => 11,
            Opcode::LT => 12,
            Opcode::GTEQ => 13,
            Opcode::LTEQ => 14,
            Opcode::JEQ => 15,
            Opcode::ALLOC => 16,
            Opcode::ILGL => 17,
        }
    }
}

impl From<u8> for Opcode {
    fn from(v: u8) -> (op: Opcode) {
        match v {
            0 => Opcode::HLT,
            1 => Opcode::LOAD,
            2 => Opcode::ADD,
            3 => Opcode::SUB,
            4 => Opcode::MUL,
            5 => Opcode::DIV,
            6 => Opcode::JMP,
            7 => Opcode::JMPF,
            8 => Opcode::JMPB,
            9 => Opcode::EQ,
            10 => Opcode::NEQ,
            11 => Opcode::GT,
            12 => Opcode::LT,
            13 => Opcode::GTEQ,
            14 => Opcode::LTEQ,
            15 => Opcode::JEQ,
            16 => Opcode::ALLOC,
            _ => Opcode::ILGL,
        }
    }
}

impl FromSpecImpl<u8> for Opcode {
    open spec fn obeys_from_spec() -> bool {
        true
    }

    open spec fn from_spec(v: u8) -> Opcode {
        byte_to_opcode(v)
    }
}

/// Looks a word up among the mnemonics.
pub fn lookup(name: &[char]) -> (op: Opcode)
    ensures
        op == mnemonic_to_opcode(name@),
{
    if is_word(name, "hlt") {
        Opcode::HLT
    } else if is_word(name, "load") {
        Opcode::LOAD
    } else if is_word(name, "add") {
        Opcode::ADD
    } else if is_word(name, "sub") {
        Opcode::SUB
    } else if is_word(name, "mul") {
        Opcode::MUL
    } else if is_word(name, "div") {
        Opcode::DIV
    } else if is_word(name, "jmp") {
        Opcode::JMP
    } else if is_word(name, "jmpf") {
        Opcode::JMPF
    } else if is_word(name, "jmpb") {
        Opcode::JMPB
    } else if is_word(name, "eq") {
        Opcode::EQ
    } else if is_word(name, "neq") {
        Opcode::NEQ
    } else if is_word(name, "gt") {
        Opcode::GT
    } else if is_word(name, "lt") {
        Opcode::LT
    } else if is_word(name, "gteq") {
        Opcode::GTEQ
    } else if is_word(name, "lteq") {
        Opcode::LTEQ
    } else if is_word(name, "jeq") {
        Opcode::JEQ
    } else {
        Opcode::ILGL
    }
}

impl<'a> From<&'a str> for Opcode {
    fn from(v: &'a str) -> (op: Opcode) {
        let chars = chars_of(v);
        lookup(chars.as_slice())
    }
}

impl<'a> FromSpecImpl<&'a str> for Opcode {
    open spec fn obeys_from_spec() -> bool {
        true
    }

    open spec fn from_spec(v: &'a str) -> Opcode {
        mnemonic_to_opcode(v@)
    }
}

/// Decoding undoes encoding, for every opcode.
pub proof fn lemma_byte_round_trip(op: Opcode)
    ensures
        byte_to_opcode(opcode_to_byte(op)) == op,
{
}

/// A byte encodes the opcode it decodes to, unless it decodes to `ILGL`;
/// `ILGL` is what every byte above 16 decodes to.
pub proof fn lemma_byte_decoding(byte: u8)
    ensures
        byte_to_opcode(byte) != Opcode::ILGL ==> opcode_to_byte(byte_to_opcode(byte)) == byte,
        byte_to_opcode(byte) == Opcode::ILGL <==> byte > 16,
{
}

/// What the sixteen mnemonics are made of.
pub proof fn lemma_mnemonics_spelled()
    ensures
        "hlt"@ == seq!['h', 'l', 't'],
        "load"@ == seq!['l', 'o', 'a', 'd'],
        "add"@ == seq!['a', 'd', 'd'],
        "sub"@ == seq!['s', 'u', 'b'],
        "mul"@ == seq!['m', 'u', 'l'],
        "div"@ == seq!['d', 'i', 'v'],
        "jmp"@ == seq!['j', 'm', 'p'],
        "jmpf"@ == seq!['j', 'm', 'p', 'f'],
        "jmpb"@ == seq!['j', 'm', 'p', 'b'],
        "eq"@ == seq!['e', 'q'],
        "neq"@ == seq!['n', 'e', 'q'],
        "gt"@ == seq!['g', 't'],
        "lt"@ == seq!['l', 't'],
        "gteq"@ == seq!['g', 't', 'e', 'q'],
        "lteq"@ == seq!['l', 't', 'e', 'q'],
        "jeq"@ == seq!['j', 'e', 'q'],
{
    reveal_strlit("hlt");
    reveal_strlit("load");
    reveal_strlit("add");
    reveal_strlit("sub");
    reveal_strlit("mul");
    reveal_strlit("div");
    reveal_strlit("jmp");
    reveal_strlit("jmpf");
    reveal_strlit("jmpb");
    reveal_strlit("eq");
    reveal_strlit("neq");
    reveal_strlit("gt");
    reveal_strlit("lt");
    reveal_strlit("gteq");
    reveal_strlit("lteq");
    reveal_strlit("jeq");
    assert("hlt"@ =~= seq!['h', 'l', 't']);
    assert("load"@ =~= seq!['l', 'o', 'a', 'd']);
    assert("add"@ =~= seq!['a', 'd', 'd']);
    assert("sub"@ =~= seq!['s', 'u', 'b']);
    assert("mul"@ =~= seq!['m', 'u', 'l']);
    assert("div"@ =~= seq!['d', 'i', 'v']);
    assert("jmp"@ =~= seq!['j', 'm', 'p']);
    assert("jmpf"@ =~= seq!['j', 'm', 'p', 'f']);
    assert("jmpb"@ =~= seq!['j', 'm', 'p', 'b']);
    assert("eq"@ =~= seq!['e', 'q']);
    assert("neq"@ =~= seq!['n', 'e', 'q']);
    assert("gt"@ =~= seq!['g', 't']);
    assert("lt"@ =~= seq!['l', 't']);
    assert("gteq"@ =~= seq!['g', 't', 'e', 'q']);
    assert("lteq"@ =~= seq!['l', 't', 'e', 'q']);
    assert("jeq"@ =~= seq!['j', 'e', 'q']);
}

/// Every mnemonic names its own opcode, and so the word, the opcode and the
/// byte of an operation agree whichever way one goes.
pub proof fn lemma_mnemonic_round_trip(op: Opcode)
    requires
        has_mnemonic(op),
    ensures
        mnemonic_to_opcode(mnemonic(op)) == op,
        byte_to_opcode(opcode_to_byte(mnemonic_to_opcode(mnemonic(op)))) == op,
{
    lemma_mnemonics_spelled();
    let word = mnemonic(op);
    assert(word.len() >= 2);
    assert(word[0] == word[0] && word[1] == word[1]);
    if word.len() >= 3 {
        assert(word[2] == word[2]);
    }
    if word.len() >= 4 {
        assert(word[3] == word[3]);
    }
}

/// A word that is no mnemonic names `ILGL`, and only such a word does.
pub proof fn lemma_unknown_word(text: Seq<char>)
    ensures
        mnemonic_to_opcode(text) == Opcode::ILGL <==> forall|op: Opcode|
            has_mnemonic(op) ==> text != #[trigger] mnemonic(op),
{
    if mnemonic_to_opcode(text) != Opcode::ILGL {
        let op = mnemonic_to_opcode(text);
        assert(has_mnemonic(op) && text == mnemonic(op));
    } else {
        assert forall|op: Opcode| has_mnemonic(op) implies text != #[trigger] mnemonic(op) by {
            if text == mnemonic(op) {
                lemma_mnemonic_round_trip(op);
            }
        }
    }
}

} // verus!
