//! The machine: a register file, a heap that only grows, a program counter, a
//! comparison flag and a remainder register, driven by a program of four-byte
//! words. What a step does is defined in [`state`]; the machine here is proved
//! to do just that.

pub mod laws;
pub mod state;

use crate::instructions::Opcode;
use crate::text::decimal_string;
use crate::vm::laws::{lemma_division, lemma_run_unfolds};
use crate::vm::state::{bytes_of, unsigned, Fault, Outcome, State, FLAG, REGISTERS, WORD};
use vstd::prelude::*;
use vstd::string::StringExecFns;

verus! {

/// What a handler owes: called on `start` with the opcode byte consumed, it
/// reports how the step ends and, if the step is carried out, leaves the
/// machine as the step defines it. Otherwise it has moved the counter at most.
spec fn handled(start: State, end: State, outcome: Outcome) -> bool {
    &&& outcome == start.outcome()
    &&& if outcome == Outcome::Continue {
        end == start.after()
    } else {
        end == State { pc: end.pc, ..start }
    }
}

/// The machine.
pub struct VM {
    /// The register file.
    pub registers: [i32; 32],
    /// What the last division left over.
    pub remainder: u32,
    /// What the last comparison found.
    pub eq_flag: bool,
    /// The register that was written last, or `FLAG`: what `stdout()` shows.
    pub stdout: usize,
    /// The heap. It only grows.
    pub heap: Vec<u8>,
    /// The program counter: the offset of the next byte to decode.
    pub pc: usize,
    /// The program.
    pub program: Vec<u8>,
}

impl View for VM {
    type V = State;

    open spec fn view(&self) -> State {
        State {
            registers: self.registers@,
            remainder: self.remainder,
            eq_flag: self.eq_flag,
            stdout: self.stdout,
            heap: self.heap@,
            pc: self.pc,
            program: self.program@,
        }
    }
}

impl VM {
    /// `stdout` selects a register or the flag.
    pub open spec fn wf(&self) -> bool {
        self@.wf()
    }

    /// The opcode byte of an `op` instruction has just been consumed, and the
    /// operands it reads are there.
    spec fn ready(&self, op: Opcode) -> bool {
        &&& self.wf()
        &&& 1 <= self.pc
        &&& self.pc + self@.advanced(-1).operands() <= self.program@.len()
        &&& self@.advanced(-1).opcode() == op
    }

    /// A machine with nothing loaded: registers, flag, remainder and counter
    /// are zero, heap and program are empty.
    pub fn new() -> (vm: VM)
        ensures
            vm@ == State::fresh(),
            vm.wf(),
    {
        let vm = VM {
            registers: [0;32],
            pc: 0,
            program: Vec::new(),
            remainder: 0,
            eq_flag: false,
            stdout: 0,
            heap: Vec::new(),
        };
        assert(vm@.registers =~= State::fresh().registers);
        vm
    }

    fn opcode(&mut self) -> (op: Opcode)
        requires
            old(self).wf(),
            old(self)@.is_not_done(),
        ensures
            op == old(self)@.opcode(),
            final(self)@ == old(self)@.advanced(1),
    {
        let op = Opcode::from(self.program[self.pc]);
        self.pc += 1;
        op
    }

    fn next_8_bits(&mut self) -> (bits: u8)
        requires
            old(self).wf(),
            old(self)@.is_not_done(),
        ensures
            bits == old(self)@.operand(0),
            final(self)@ == old(self)@.advanced(1),
    {
        let bits = self.program[self.pc];
        self.pc += 1;
        bits
    }

    fn next_16_bits(&mut self) -> (bits: u16)
        requires
            old(self).wf(),
            old(self).pc + 1 < old(self).program@.len(),
        ensures
            bits == old(self)@.operand(0) * 256 + old(self)@.operand(1),
            final(self)@ == old(self)@.advanced(2),
    {
        let high = self.program[self.pc];
        let low = self.program[self.pc + 1];
        let leftmost_8_bits = (high as u16) << 8;
        let rightmost_8_bits = low as u16;
        let bits = leftmost_8_bits | rightmost_8_bits;
        assert(((high as u16) << 8) | (low as u16) == high * 256 + low) by (bit_vector);
        self.pc += 2;
        bits
    }

    fn load(&mut self) -> (outcome: Outcome)
        requires
            old(self).ready(Opcode::LOAD),
        ensures
            handled(old(self)@.advanced(-1), final(self)@, outcome),
            final(self).wf(),
    {
        let register = self.next_8_bits() as usize;
        let bits = self.next_16_bits();
        let number = #[verifier::truncate] (bits as i16) as i32;
        assert(bits as i16 == if bits < 0x8000 {
            bits as int
        } else {
            bits - 0x1_0000
        }) by (bit_vector);
        if register < REGISTERS {
            self.registers[register] = number;
            self.stdout = register;
            Outcome::Continue
        } else {
            Outcome::Fault(Fault::Register)
        }
    }

    /// Consumes an operand and reads the register it names, if it names one.
    fn read(&mut self) -> (value: Option<i32>)
        requires
            old(self).wf(),
            old(self)@.is_not_done(),
        ensures
            final(self)@ == old(self)@.advanced(1),
            value == if old(self)@.names_register(0) {
                Some(old(self)@.registers[old(self)@.operand(0) as int])
            } else {
                None
            },
    {
        let register = self.next_8_bits() as usize;
        if register < REGISTERS {
            Some(self.registers[register])
        } else {
            None
        }
    }

    /// Consumes two operands and reads the registers they name, if both name
    /// one.
    fn read_two(&mut self) -> (values: Option<(i32, i32)>)
        requires
            old(self).wf(),
            old(self).pc + 1 < old(self).program@.len(),
        ensures
            final(self)@ == old(self)@.advanced(2),
            values == if old(self)@.names_register(0) && old(self)@.names_register(1) {
                Some(
                    (
                        old(self)@.registers[old(self)@.operand(0) as int],
                        old(self)@.registers[old(self)@.operand(1) as int],
                    ),
                )
            } else {
                None
            },
    {
        let register_x = self.read();
        let register_y = self.read();
        match (register_x, register_y) {
            (Some(x), Some(y)) => Some((x, y)),
            _ => None,
        }
    }

    /// Whether the operand at the counter names a register.
    fn can_write(&self) -> (yes: bool)
        requires
            self.wf(),
            self@.is_not_done(),
        ensures
            yes == self@.names_register(0),
    {
        (self.program[self.pc] as usize) < REGISTERS
    }

    /// Consumes an operand and writes `v` to the register it names.
    fn write(&mut self, v: i32)
        requires
            old(self).wf(),
            old(self)@.is_not_done(),
            old(self)@.names_register(0),
        ensures
            final(self)@ == (State {
                registers: old(self)@.registers.update(old(self)@.operand(0) as int, v),
                stdout: old(self)@.operand(0) as usize,
                ..old(self)@.advanced(1)
            }),
    {
        let register = self.next_8_bits() as usize;
        self.registers[register] = v;
        self.stdout = register;
    }

    fn add(&mut self) -> (outcome: Outcome)
        requires
            old(self).ready(Opcode::ADD),
        ensures
            handled(old(self)@.advanced(-1), final(self)@, outcome),
            final(self).wf(),
    {
        match self.read_two() {
            Some((register_x, register_y)) => if self.can_write() {
                match register_x.checked_add(register_y) {
                    Some(sum) => {
                        self.write(sum);
                        Outcome::Continue
                    },
                    None => Outcome::Fault(Fault::Arithmetic),
                }
            } else {
                Outcome::Fault(Fault::Register)
            },
            None => Outcome::Fault(Fault::Register),
        }
    }

    fn sub(&mut self) -> (outcome: Outcome)
        requires
            old(self).ready(Opcode::SUB),
        ensures
            handled(old(self)@.advanced(-1), final(self)@, outcome),
            final(self).wf(),
    {
        match self.read_two() {
            Some((register_x, register_y)) => if self.can_write() {
                match register_x.checked_sub(register_y) {
                    Some(difference) => {
                        self.write(difference);
                        Outcome::Continue
                    },
                    None => Outcome::Fault(Fault::Arithmetic),
                }
            } else {
                Outcome::Fault(Fault::Register)
            },
            None => Outcome::Fault(Fault::Register),
        }
    }

    fn mul(&mut self) -> (outcome: Outcome)
        requires
            old(self).ready(Opcode::MUL),
        ensures
            handled(old(self)@.advanced(-1), final(self)@, outcome),
            final(self).wf(),
    {
        match self.read_two() {
            Some((register_x, register_y)) => if self.can_write() {
                match register_x.checked_mul(register_y) {
                    Some(product) => {
                        self.write(product);
                        Outcome::Continue
                    },
                    None => Outcome::Fault(Fault::Arithmetic),
                }
            } else {
                Outcome::Fault(Fault::Register)
            },
            None => Outcome::Fault(Fault::Register),
        }
    }

    fn div(&mut self) -> (outcome: Outcome)
        requires
            old(self).ready(Opcode::DIV),
        ensures
            handled(old(self)@.advanced(-1), final(self)@, outcome),
            final(self).wf(),
    {
        match self.read_two() {
            Some((register_x, register_y)) => if self.can_write() {
                proof {
                    if register_y != 0 {
                        lemma_division(register_x as int, register_y as int);
                    }
                }
                match (register_x.checked_div(register_y), register_x.checked_rem(register_y)) {
                    (Some(quotient), Some(rest)) => {
                        self.write(quotient);
                        self.remainder = #[verifier::truncate] (rest as u32);
                        assert(rest as u32 == unsigned(rest)) by (bit_vector);
                        Outcome::Continue
                    },
                    _ => Outcome::Fault(Fault::Arithmetic),
                }
            } else {
                Outcome::Fault(Fault::Register)
            },
            None => Outcome::Fault(Fault::Register),
        }
    }

    /// Sets the counter to `target`, if the counter can hold it.
    fn jump_to(&mut self, target: i128) -> (outcome: Outcome)
        ensures
            outcome == if 0 <= target <= usize::MAX {
                Outcome::Continue
            } else {
                Outcome::Fault(Fault::Counter)
            },
            final(self)@ == if 0 <= target <= usize::MAX {
                State { pc: target as usize, ..old(self)@ }
            } else {
                old(self)@
            },
    {
        if 0 <= target && target <= usize::MAX as i128 {
            self.pc = target as usize;
            Outcome::Continue
        } else {
            Outcome::Fault(Fault::Counter)
        }
    }

    /// Moves the counter `bytes` on, if the counter can hold that.
    fn skip(&mut self, bytes: usize) -> (outcome: Outcome)
        ensures
            outcome == if old(self).pc + bytes <= usize::MAX {
                Outcome::Continue
            } else {
                Outcome::Fault(Fault::Counter)
            },
            final(self)@ == if old(self).pc + bytes <= usize::MAX {
                old(self)@.advanced(bytes as int)
            } else {
                old(self)@
            },
    {
        match self.pc.checked_add(bytes) {
            Some(next) => {
                self.pc = next;
                Outcome::Continue
            },
            None => Outcome::Fault(Fault::Counter),
        }
    }

    fn jump(&mut self) -> (outcome: Outcome)
        requires
            old(self).ready(Opcode::JMP),
        ensures
            handled(old(self)@.advanced(-1), final(self)@, outcome),
            final(self).wf(),
    {
        match self.read() {
            Some(offset) => self.jump_to(offset as i128),
            None => Outcome::Fault(Fault::Register),
        }
    }

    fn jump_forward(&mut self) -> (outcome: Outcome)
        requires
            old(self).ready(Opcode::JMPF),
        ensures
            handled(old(self)@.advanced(-1), final(self)@, outcome),
            final(self).wf(),
    {
        match self.read() {
            Some(offset) => self.jump_to(self.pc as i128 + offset as i128),
            None => Outcome::Fault(Fault::Register),
        }
    }

    fn jump_back(&mut self) -> (outcome: Outcome)
        requires
            old(self).ready(Opcode::JMPB),
        ensures
            handled(old(self)@.advanced(-1), final(self)@, outcome),
            final(self).wf(),
    {
        match self.read() {
            Some(offset) => self.jump_to(self.pc as i128 - offset as i128),
            None => Outcome::Fault(Fault::Register),
        }
    }

    fn eq(&mut self) -> (outcome: Outcome)
        requires
            old(self).ready(Opcode::EQ),
        ensures
            handled(old(self)@.advanced(-1), final(self)@, outcome),
            final(self).wf(),
    {
        match self.read_two() {
            Some((register_x, register_y)) => {
                let outcome = self.skip(1);
                if outcome == Outcome::Continue {
                    self.eq_flag = register_x == register_y;
                }
                outcome
            },
            None => Outcome::Fault(Fault::Register),
        }
    }

    fn neq(&mut self) -> (outcome: Outcome)
        requires
            old(self).ready(Opcode::NEQ),
        ensures
            handled(old(self)@.advanced(-1), final(self)@, outcome),
            final(self).wf(),
    {
        match self.read_two() {
            Some((register_x, register_y)) => {
                let outcome = self.skip(1);
                if outcome == Outcome::Continue {
                    self.eq_flag = register_x != register_y;
                }
                outcome
            },
            None => Outcome::Fault(Fault::Register),
        }
    }

    fn gt(&mut self) -> (outcome: Outcome)
        requires
            old(self).ready(Opcode::GT),
        ensures
            handled(old(self)@.advanced(-1), final(self)@, outcome),
            final(self).wf(),
    {
        match self.read_two() {
            Some((register_x, register_y)) => {
                let outcome = self.skip(1);
                if outcome == Outcome::Continue {
                    self.eq_flag = register_x > register_y;
                }
                outcome
            },
            None => Outcome::Fault(Fault::Register),
        }
    }

    fn lt(&mut self) -> (outcome: Outcome)
        requires
            old(self).ready(Opcode::LT),
        ensures
            handled(old(self)@.advanced(-1), final(self)@, outcome),
            final(self).wf(),
    {
        match self.read_two() {
            Some((register_x, register_y)) => {
                let outcome = self.skip(1);
                if outcome == Outcome::Continue {
                    self.eq_flag = register_x < register_y;
                }
                outcome
            },
            None => Outcome::Fault(Fault::Register),
        }
    }

    fn gteq(&mut self) -> (outcome: Outcome)
        requires
            old(self).ready(Opcode::GTEQ),
        ensures
            handled(old(self)@.advanced(-1), final(self)@, outcome),
            final(self).wf(),
    {
        match self.read_two() {
            Some((register_x, register_y)) => {
                let outcome = self.skip(1);
                if outcome == Outcome::Continue {
                    self.eq_flag = register_x >= register_y;
                }
                outcome
            },
            None => Outcome::Fault(Fault::Register),
        }
    }

    fn lteq(&mut self) -> (outcome: Outcome)
        requires
            old(self).ready(Opcode::LTEQ),
        ensures
            handled(old(self)@.advanced(-1), final(self)@, outcome),
            final(self).wf(),
    {
        match self.read_two() {
            Some((register_x, register_y)) => {
                let outcome = self.skip(1);
                if outcome == Outcome::Continue {
                    self.eq_flag = register_x <= register_y;
                }
                outcome
            },
            None => Outcome::Fault(Fault::Register),
        }
    }

    fn jeq(&mut self) -> (outcome: Outcome)
        requires
            old(self).ready(Opcode::JEQ),
        ensures
            handled(old(self)@.advanced(-1), final(self)@, outcome),
            final(self).wf(),
    {
        if self.eq_flag {
            match self.read() {
                Some(offset) => self.jump_to(offset as i128),
                None => Outcome::Fault(Fault::Register),
            }
        } else {
            self.skip(WORD - 1)
        }
    }

    fn allocate(&mut self) -> (outcome: Outcome)
        requires
            old(self).ready(Opcode::ALLOC),
        ensures
            handled(old(self)@.advanced(-1), final(self)@, outcome),
            final(self).wf(),
    {
        match self.read() {
            Some(bytes) => {
                let outcome = self.skip(WORD - 2);
                if outcome != Outcome::Continue {
                    return outcome;
                }
                if bytes < 0 {
                    return Outcome::Fault(Fault::Allocation);
                }
                match self.heap.len().checked_add(bytes as usize) {
                    Some(new_end) => {
                        self.heap.resize(new_end, 0);
                        assert(self.heap@ =~= old(self).heap@ + Seq::new(bytes as nat, |i: int| 0u8));
                        Outcome::Continue
                    },
                    None => Outcome::Fault(Fault::Allocation),
                }
            },
            None => Outcome::Fault(Fault::Register),
        }
    }

    /// How many operand bytes an `op` instruction reads.
    fn operands(&self, op: Opcode) -> (bytes: usize)
        requires
            self.wf(),
            1 <= self.pc <= self.program@.len(),
            self@.advanced(-1).opcode() == op,
        ensures
            bytes == self@.advanced(-1).operands(),
    {
        match op {
            Opcode::HLT | Opcode::ILGL => 0,
            Opcode::LOAD | Opcode::ADD | Opcode::SUB | Opcode::MUL | Opcode::DIV => 3,
            Opcode::EQ | Opcode::NEQ | Opcode::GT | Opcode::LT | Opcode::GTEQ | Opcode::LTEQ => 2,
            Opcode::JMP | Opcode::JMPF | Opcode::JMPB | Opcode::ALLOC => 1,
            Opcode::JEQ => if self.eq_flag {
                1
            } else {
                0
            },
        }
    }

    /// Carries out the instruction at the counter and says how that ended.
    /// When it ends in anything but `Continue`, only the opcode byte has been
    /// consumed.
    pub fn execute_instruction(&mut self) -> (outcome: Outcome)
        requires
            old(self).wf(),
            old(self)@.is_not_done(),
        ensures
            outcome == old(self)@.outcome(),
            final(self)@ == old(self)@.after(),
            final(self).wf(),
    {
        let start = self.pc;
        let op = self.opcode();
        assert(self@.advanced(-1) == old(self)@);
        let whole = self.program.len() - self.pc >= self.operands(op);
        let outcome = match op {
            Opcode::HLT => Outcome::Halt,
            Opcode::ILGL => Outcome::Illegal,
            _ if !whole => Outcome::Fault(Fault::Truncated),
            Opcode::LOAD => self.load(),
            Opcode::ADD => self.add(),
            Opcode::SUB => self.sub(),
            Opcode::MUL => self.mul(),
            Opcode::DIV => self.div(),
            Opcode::JMP => self.jump(),
            Opcode::JMPF => self.jump_forward(),
            Opcode::JMPB => self.jump_back(),
            Opcode::EQ => self.eq(),
            Opcode::NEQ => self.neq(),
            Opcode::GT => self.gt(),
            Opcode::LT => self.lt(),
            Opcode::GTEQ => self.gteq(),
            Opcode::LTEQ => self.lteq(),
            Opcode::JEQ => self.jeq(),
            Opcode::ALLOC => self.allocate(),
        };
        if outcome != Outcome::Continue {
            self.pc = start + 1;
        }
        outcome
    }

    /// Whether the counter points into the program.
    pub fn is_not_done(&self) -> (more: bool)
        ensures
            more == self@.is_not_done(),
    {
        self.pc < self.program.len()
    }

    fn should_run(&mut self) -> (more: bool)
        requires
            old(self).wf(),
        ensures
            more == old(self)@.continues(),
            final(self)@ == old(self)@.step(),
            final(self).wf(),
    {
        self.is_not_done() && self.execute_instruction() == Outcome::Continue
    }

    /// Takes one step, and says whether the machine goes on after it.
    pub fn run_once(&mut self) -> (more: bool)
        requires
            old(self).wf(),
        ensures
            more == old(self)@.continues(),
            final(self)@ == old(self)@.step(),
            final(self).wf(),
    {
        self.should_run()
    }

    /// Steps until the machine stops. A program that never stops is not for
    /// this function: drive such a machine with `run_once`.
    pub fn run(&mut self)
        requires
            old(self).wf(),
            old(self)@.halts(),
        ensures
            final(self)@ == old(self)@.ran(),
            final(self).wf(),
    {
        let mut run = true;
        while run
            invariant
                self.wf(),
                run ==> self@.halts() && self@.ran() == old(self)@.ran(),
                !run ==> self@ == old(self)@.ran(),
            decreases
                    (if run {
                        self@.steps() + 1
                    } else {
                        0
                    }),
        {
            proof {
                lemma_run_unfolds(self@);
            }
            run = self.should_run();
        }
    }

    /// The value a host shows after a step, as text.
    pub fn sdtout_string(&self) -> (text: String)
        requires
            self.wf(),
        ensures
            text@ == self@.output_text(),
    {
        if self.stdout == FLAG {
            if self.eq_flag {
                String::from_str("true")
            } else {
                String::from_str("false")
            }
        } else {
            decimal_string(self.registers[self.stdout])
        }
    }

    /// The bytes of the program.
    pub fn program(&self) -> (bytes: &[u8])
        ensures
            bytes@ == self@.program,
    {
        self.program.as_slice()
    }

    /// What the registers hold.
    pub fn registers(&self) -> (values: &[i32])
        ensures
            values@ == self@.registers,
    {
        self.registers.as_slice()
    }

    /// The value a host shows after a step: the register written last, or
    /// the flag as 0 or 1.
    pub fn stdout(&self) -> (value: i32)
        requires
            self.wf(),
        ensures
            value == self@.output(),
    {
        if self.stdout == FLAG {
            if self.eq_flag {
                1
            } else {
                0
            }
        } else {
            self.registers[self.stdout]
        }
    }
}

/// Feeding a machine its program: one implementation takes bytes, the other
/// whole instruction words.
pub trait Stdin<A> {
    fn stdin(&mut self, program: Vec<A>);
}

impl Stdin<u8> for VM {
    /// Appends bytes to the program.
    fn stdin(&mut self, program: Vec<u8>)
        ensures
            final(self)@ == (State { program: old(self)@.program + program@, ..old(self)@ }),
            old(self).wf() ==> final(self).wf(),
    {
        let mut program = program;
        self.program.append(&mut program);
        let _ = self.program.len();
    }
}

impl Stdin<[u8; 4]> for VM {
    /// Appends instruction words to the program.
    fn stdin(&mut self, program: Vec<[u8; 4]>)
        ensures
            final(self)@ == (State {
                program: old(self)@.program + bytes_of(program@),
                ..old(self)@
            }),
            old(self).wf() ==> final(self).wf(),
    {
        let mut i: usize = 0;
        while i < program.len()
            invariant
                i <= program.len(),
                self@ == (State {
                    program: old(self)@.program + bytes_of(program@.take(i as int)),
                    ..old(self)@
                }),
            decreases program.len() - i,
        {
            let instruction = program[i];
            let ghost before = self.program@;
            self.program.push(instruction[0]);
            self.program.push(instruction[1]);
            self.program.push(instruction[2]);
            self.program.push(instruction[3]);
            i += 1;
            assert(self.program@ =~= old(self)@.program + bytes_of(program@.take(i as int)));
        }
        assert(program@.take(i as int) =~= program@);
        let _ = self.program.len();
    }
}

} // verus!
