//! What the machine is and what a step does to it, as mathematics.
//!
//! A program is a sequence of bytes, read in words of four: an opcode and
//! three operand bytes. A step decodes the byte at the counter and carries
//! out the instruction it encodes:
//! - `hlt`, and any byte that encodes nothing, stop the machine; only the
//!   opcode byte is consumed.
//! - `load` writes the 16-bit value of its second and third operand, read
//!   as a two's complement number, to the register its first operand names.
//! - `add`, `sub`, `mul` and `div` compute from the registers their first two
//!   operands name and write to the register their third names; `div` rounds
//!   towards zero and leaves what remains in the remainder register.
//! - `jmp`, `jmpf` and `jmpb` set the counter from the register their operand
//!   names; `jeq` does so where the flag is set.
//! - the comparisons set the flag from the registers their first two
//!   operands name.
//! - `alloc` appends as many zero bytes to the heap as the register its
//!   operand names holds.
//! An instruction that does not set the counter leaves it behind its whole
//! word, however many operands it reads; that goes for `jeq` with the flag
//! clear as well.
//!
//! Nothing the program holds can make a step go wrong. A step that cannot be
//! carried out is a *fault*: the machine stops as it does on `hlt`, having
//! consumed the opcode byte and changed nothing else. The faults are
//! - an operand that lies beyond the end of the program,
//! - an operand that names no register,
//! - a sum, difference, product or quotient that does not fit a register, and
//!   division by zero,
//! - a counter value below zero or above what the counter can hold,
//! - an allocation of a negative size, or past what the heap can hold.
//! A jump beyond the end of the program is no fault: the run is then complete.

use crate::instructions::{byte_to_opcode, Opcode};
use crate::text::decimal;
use vstd::prelude::*;

verus! {

/// How many registers the machine has.
pub const REGISTERS: usize = 32;

/// The value of `stdout` that selects the comparison flag, not a register.
pub const FLAG: usize = 33;

/// The length of an instruction word in bytes.
pub const WORD: usize = 4;

/// Why a step could not be carried out.
#[derive(Debug, PartialEq, Eq, Clone, Copy, Structural)]
pub enum Fault {
    /// An operand that the instruction reads lies beyond the end of the
    /// program.
    Truncated,
    /// An operand names a register that does not exist.
    Register,
    /// The result does not fit in 32 bits, or the divisor is zero.
    Arithmetic,
    /// The counter would go below zero or above what it can hold.
    Counter,
    /// The size is negative or the heap would outgrow its index type.
    Allocation,
}

/// How a step ended.
#[derive(Debug, PartialEq, Eq, Clone, Copy, Structural)]
pub enum Outcome {
    /// The instruction was carried out; the machine may go on.
    Continue,
    /// The instruction was `hlt`.
    Halt,
    /// The byte at the counter encodes no instruction.
    Illegal,
    /// The instruction could not be carried out.
    Fault(Fault),
}

/// What the machine says where it stops on `hlt`.
pub const HALT: &'static str = "halt!";

/// What the machine says where it stops on a byte that encodes nothing.
pub const UNKNOWN: &'static str =
    "unknown opcode\nthink about what you want to do and come back later\nsee ya!";

/// What the machine says where it stops on a fault.
pub const FAULT: &'static str = "fault";

/// What the machine has to say of how a step ended: nothing where it goes
/// on.
pub open spec fn diagnostic(outcome: Outcome) -> Option<&'static str> {
    match outcome {
        Outcome::Continue => None,
        Outcome::Halt => Some(HALT),
        Outcome::Illegal => Some(UNKNOWN),
        Outcome::Fault(_) => Some(FAULT),
    }
}

impl Outcome {
    /// What the machine has to say of this outcome.
    pub fn message(self) -> (text: Option<&'static str>)
        ensures
            text == diagnostic(self),
    {
        match self {
            Outcome::Continue => None,
            Outcome::Halt => Some(HALT),
            Outcome::Illegal => Some(UNKNOWN),
            Outcome::Fault(_) => Some(FAULT),
        }
    }
}

/// The quotient of two integers, rounded towards zero.
pub open spec fn quotient(x: int, y: int) -> int
    recommends
        y != 0,
{
    if x == 0 {
        0
    } else if x > 0 && y > 0 {
        x / y
    } else if x < 0 && y < 0 {
        (-x) / (-y)
    } else if x < 0 {
        -((-x) / y)
    } else {
        -(x / (-y))
    }
}

/// What is left of `x` after taking out `quotient(x, y)` times `y`; it has the
/// sign of `x`.
pub open spec fn modulus(x: int, y: int) -> int
    recommends
        y != 0,
{
    if x == 0 {
        0
    } else if x > 0 && y > 0 {
        x % y
    } else if x < 0 && y < 0 {
        -((-x) % (-y))
    } else if x < 0 {
        -((-x) % y)
    } else {
        x % (-y)
    }
}

/// The 32-bit pattern of a signed value, read as unsigned.
pub open spec fn unsigned(value: i32) -> u32 {
    if value >= 0 {
        value as u32
    } else {
        (value + 0x1_0000_0000) as u32
    }
}

/// The value of a 16-bit immediate given by its high and low byte, read as a
/// two's complement number.
pub open spec fn immediate(high: u8, low: u8) -> i32 {
    if high < 0x80 {
        (high * 256 + low) as i32
    } else {
        (high * 256 + low - 0x1_0000) as i32
    }
}

/// The instructions that compute a register from two others.
pub open spec fn is_arithmetic(op: Opcode) -> bool {
    op == Opcode::ADD || op == Opcode::SUB || op == Opcode::MUL || op == Opcode::DIV
}

/// The instructions that set the comparison flag.
pub open spec fn is_comparison(op: Opcode) -> bool {
    op == Opcode::EQ || op == Opcode::NEQ || op == Opcode::GT || op == Opcode::LT || op
        == Opcode::GTEQ || op == Opcode::LTEQ
}

/// The mathematical value of a machine.
pub struct State {
    /// The register file.
    pub registers: Seq<i32>,
    /// What the last division left over.
    pub remainder: u32,
    /// What the last comparison found.
    pub eq_flag: bool,
    /// The register that was written last, or `FLAG`.
    pub stdout: usize,
    /// The heap.
    pub heap: Seq<u8>,
    /// The program counter: the offset of the next byte to decode.
    pub pc: usize,
    /// The program.
    pub program: Seq<u8>,
}

impl State {
    /// A machine before anything was loaded or run.
    pub open spec fn fresh() -> State {
        State {
            registers: Seq::new(REGISTERS as nat, |i: int| 0i32),
            remainder: 0,
            eq_flag: false,
            stdout: 0,
            heap: Seq::empty(),
            pc: 0,
            program: Seq::empty(),
        }
    }

    /// There are 32 registers, `stdout` selects one of them or the flag, and
    /// program and heap can be indexed by `usize`.
    pub open spec fn wf(self) -> bool {
        &&& self.registers.len() == REGISTERS
        &&& (self.stdout < REGISTERS || self.stdout == FLAG)
        &&& self.program.len() <= usize::MAX
        &&& self.heap.len() <= usize::MAX
    }

    /// The value a host reads back: the flag as 0 or 1, or the register that
    /// was written last.
    pub open spec fn output(self) -> i32 {
        if self.stdout == FLAG {
            if self.eq_flag {
                1
            } else {
                0
            }
        } else {
            self.registers[self.stdout as int]
        }
    }

    /// The value a host reads back, as text: the flag as `true` or `false`,
    /// or the register that was written last in decimal digits.
    pub open spec fn output_text(self) -> Seq<char> {
        if self.stdout == FLAG {
            if self.eq_flag {
                "true"@
            } else {
                "false"@
            }
        } else {
            decimal(self.registers[self.stdout as int] as int)
        }
    }

    /// The counter points into the program.
    pub open spec fn is_not_done(self) -> bool {
        self.pc < self.program.len()
    }

    /// The same machine with its counter `bytes` further on.
    pub open spec fn advanced(self, bytes: int) -> State {
        State { pc: (self.pc + bytes) as usize, ..self }
    }

    /// The opcode at the counter.
    pub open spec fn opcode(self) -> Opcode {
        byte_to_opcode(self.program[self.pc as int])
    }

    /// The byte `k` places behind the counter: of the word at the counter,
    /// the opcode for `k` = 0 and the operands for `k` from 1 to 3.
    pub open spec fn operand(self, k: int) -> u8 {
        self.program[self.pc + k]
    }

    /// The `k`-th operand names a register.
    pub open spec fn names_register(self, k: int) -> bool {
        self.operand(k) < REGISTERS
    }

    /// What the register named by the `k`-th operand holds.
    pub open spec fn register(self, k: int) -> int {
        self.registers[self.operand(k) as int] as int
    }

    /// What an arithmetic instruction computes from its two source registers,
    /// as an unbounded integer.
    pub open spec fn result(self) -> int {
        let x = self.register(1);
        let y = self.register(2);
        match self.opcode() {
            Opcode::ADD => x + y,
            Opcode::SUB => x - y,
            Opcode::MUL => x * y,
            _ => quotient(x, y),
        }
    }

    /// What a comparison finds of its two source registers.
    pub open spec fn verdict(self) -> bool {
        let x = self.register(1);
        let y = self.register(2);
        match self.opcode() {
            Opcode::EQ => x == y,
            Opcode::NEQ => x != y,
            Opcode::GT => x > y,
            Opcode::LT => x < y,
            Opcode::GTEQ => x >= y,
            _ => x <= y,
        }
    }

    /// How many operand bytes the instruction at the counter reads. The
    /// comparisons read two, and `jeq` with the flag clear reads none.
    pub open spec fn operands(self) -> int {
        let op = self.opcode();
        if op == Opcode::HLT || op == Opcode::ILGL {
            0
        } else if op == Opcode::LOAD || is_arithmetic(op) {
            3
        } else if is_comparison(op) {
            2
        } else if op == Opcode::JEQ && !self.eq_flag {
            0
        } else {
            1
        }
    }

    /// Where a jump leads: to the offset its register holds, or that many
    /// bytes forward or back from the end of its two-byte opcode and operand.
    pub open spec fn target(self) -> int {
        let offset = self.register(1);
        match self.opcode() {
            Opcode::JMPF => self.pc + 2 + offset,
            Opcode::JMPB => self.pc + 2 - offset,
            _ => offset,
        }
    }

    /// The instruction at the counter sets the counter: it is a jump, or
    /// `jeq` with the flag set.
    pub open spec fn jumps(self) -> bool {
        match self.opcode() {
            Opcode::JMP | Opcode::JMPF | Opcode::JMPB => true,
            Opcode::JEQ => self.eq_flag,
            _ => false,
        }
    }

    /// Where the counter is to be after the instruction at the counter: where
    /// it jumps to, or behind its word.
    pub open spec fn next_counter(self) -> int {
        if self.jumps() {
            self.target()
        } else {
            self.pc + WORD
        }
    }

    /// Every operand that the instruction at the counter takes for a register
    /// names one.
    pub open spec fn names_registers(self) -> bool {
        let op = self.opcode();
        if op == Opcode::HLT || op == Opcode::ILGL {
            true
        } else if is_arithmetic(op) {
            self.names_register(1) && self.names_register(2) && self.names_register(3)
        } else if is_comparison(op) {
            self.names_register(1) && self.names_register(2)
        } else if op == Opcode::JEQ {
            self.eq_flag ==> self.names_register(1)
        } else {
            self.names_register(1)
        }
    }

    /// The fault that the instruction at the counter runs into, if any. Where
    /// several apply, the first in the order of `Fault` is reported.
    pub open spec fn fault(self) -> Option<Fault> {
        let op = self.opcode();
        if op == Opcode::HLT || op == Opcode::ILGL {
            None
        } else if self.pc + self.operands() >= self.program.len() {
            Some(Fault::Truncated)
        } else if !self.names_registers() {
            Some(Fault::Register)
        } else if is_arithmetic(op) && ((op == Opcode::DIV && self.register(2) == 0) || !(i32::MIN
            <= self.result() <= i32::MAX)) {
            Some(Fault::Arithmetic)
        } else if !(0 <= self.next_counter() <= usize::MAX) {
            Some(Fault::Counter)
        } else if op == Opcode::ALLOC && (self.register(1) < 0 || self.heap.len() + self.register(1)
            > usize::MAX) {
            Some(Fault::Allocation)
        } else {
            None
        }
    }

    /// How the step at the counter ends.
    pub open spec fn outcome(self) -> Outcome {
        match self.opcode() {
            Opcode::HLT => Outcome::Halt,
            Opcode::ILGL => Outcome::Illegal,
            _ => match self.fault() {
                Some(fault) => Outcome::Fault(fault),
                None => Outcome::Continue,
            },
        }
    }

    /// The same machine with a value written to a register, and the register
    /// marked as written last.
    pub open spec fn wrote(self, register: u8, value: i32) -> State {
        State {
            registers: self.registers.update(register as int, value),
            stdout: register as usize,
            ..self
        }
    }

    /// The machine after the instruction at the counter, where the counter
    /// points into the program.
    pub open spec fn after(self) -> State {
        if self.outcome() != Outcome::Continue {
            self.advanced(1)
        } else {
            let moved = State { pc: self.next_counter() as usize, ..self };
            match self.opcode() {
                Opcode::LOAD => moved.wrote(
                    self.operand(1),
                    immediate(self.operand(2), self.operand(3)),
                ),
                Opcode::ADD | Opcode::SUB | Opcode::MUL => moved.wrote(
                    self.operand(3),
                    self.result() as i32,
                ),
                Opcode::DIV => State {
                    remainder: unsigned(modulus(self.register(1), self.register(2)) as i32),
                    ..moved.wrote(self.operand(3), self.result() as i32)
                },
                Opcode::EQ
                | Opcode::NEQ
                | Opcode::GT
                | Opcode::LT
                | Opcode::GTEQ
                | Opcode::LTEQ => State { eq_flag: self.verdict(), ..moved },
                Opcode::ALLOC => State {
                    heap: self.heap + Seq::new(self.register(1) as nat, |i: int| 0u8),
                    ..moved
                },
                Opcode::JMP | Opcode::JMPF | Opcode::JMPB | Opcode::JEQ => moved,
                Opcode::HLT | Opcode::ILGL => self.advanced(1),
            }
        }
    }

    /// Whether the machine goes on after its next step: the counter points
    /// into the program and the instruction there is carried out.
    pub open spec fn continues(self) -> bool {
        self.is_not_done() && self.outcome() == Outcome::Continue
    }

    /// The machine after its next step. A machine whose counter is past the
    /// program stays as it is.
    pub open spec fn step(self) -> State {
        if self.is_not_done() {
            self.after()
        } else {
            self
        }
    }
}

impl State {
    /// The machine goes on for exactly `n` steps and stops at the one after.
    pub open spec fn stops_after(self, n: nat) -> bool
        decreases n,
    {
        if n == 0 {
            !self.continues()
        } else {
            self.continues() && self.step().stops_after((n - 1) as nat)
        }
    }

    /// The machine stops at some step.
    pub open spec fn halts(self) -> bool {
        exists|n: nat| self.stops_after(n)
    }

    /// How many steps a machine that halts goes on for.
    pub open spec fn steps(self) -> nat {
        choose|n: nat| self.stops_after(n)
    }

    /// The machine `n` steps later.
    pub open spec fn after_steps(self, n: nat) -> State
        decreases n,
    {
        if n == 0 {
            self
        } else {
            self.step().after_steps((n - 1) as nat)
        }
    }

    /// A machine that halts, after the step at which it stops.
    pub open spec fn ran(self) -> State {
        self.after_steps(self.steps() + 1)
    }
}

/// The bytes of a sequence of instruction words, one word after the other.
pub open spec fn bytes_of(words: Seq<[u8; 4]>) -> Seq<u8> {
    Seq::new(words.len() * WORD as nat, |i: int| words[i / WORD as int]@[i % WORD as int])
}

} // verus!
