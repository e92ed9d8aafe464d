//! What holds of every machine: of division, of runs, and of single
//! instructions.

use crate::assembler::lex::split;
use crate::instructions::{opcode_to_byte, Opcode};
use crate::vm::state::{
    immediate, is_arithmetic, is_comparison, modulus, quotient, unsigned, Outcome, State, WORD,
};
use crate::vm::VM;
use vstd::arithmetic::div_mod::{lemma_fundamental_div_mod, lemma_mod_pos_bound};
use vstd::prelude::*;

verus! {

/// Division rounds towards zero: the quotient times the divisor, plus the
/// modulus, is the dividend; the modulus is smaller in size than the divisor
/// and has the sign of the dividend, or is zero.
pub proof fn lemma_division(x: int, y: int)
    requires
        y != 0,
    ensures
        x == y * quotient(x, y) + modulus(x, y),
        y > 0 ==> -y < modulus(x, y) < y,
        y < 0 ==> y < modulus(x, y) < -y,
        x >= 0 ==> modulus(x, y) >= 0,
        x <= 0 ==> modulus(x, y) <= 0,
{
    let a = if x >= 0 {
        x
    } else {
        -x
    };
    let b = if y > 0 {
        y
    } else {
        -y
    };
    lemma_fundamental_div_mod(a, b);
    lemma_mod_pos_bound(a, b);
    let q = a / b;
    assert(b * -q == -(b * q)) by (nonlinear_arith);
    assert((-b) * q == -(b * q)) by (nonlinear_arith);
    assert((-b) * -q == b * q) by (nonlinear_arith);
    if x == 0 {
        assert(y * 0 == 0);
    }
}

/// A step keeps a machine well formed.
pub proof fn lemma_step_wf(s: State)
    requires
        s.wf(),
    ensures
        s.step().wf(),
{
}

/// A machine stops after one number of steps only.
pub proof fn lemma_stops_once(s: State, n: nat, m: nat)
    requires
        s.stops_after(n),
        s.stops_after(m),
    ensures
        n == m,
    decreases n,
{
    if n > 0 && m > 0 {
        lemma_stops_once(s.step(), (n - 1) as nat, (m - 1) as nat);
    }
}

/// How a run unfolds: a machine that halts and goes on after its next step
/// has one step less to go and ends where its successor ends; one that does
/// not go on ends with that step.
pub proof fn lemma_run_unfolds(s: State)
    requires
        s.halts(),
    ensures
        s.continues() ==> s.step().halts() && s.step().steps() + 1 == s.steps() && s.step().ran()
            == s.ran(),
        !s.continues() ==> s.steps() == 0 && s.ran() == s.step(),
{
    let n = s.steps();
    assert(s.stops_after(n));
    if s.continues() {
        let next = s.step();
        assert(next.stops_after((n - 1) as nat));
        lemma_stops_once(next, (n - 1) as nat, next.steps());
        assert(s.after_steps(n + 1) == next.after_steps(n));
    } else {
        assert(s.after_steps(1) == s.step().after_steps(0));
    }
}

/// A machine whose counter is past its program has halted: it stops at once
/// and stays as it is.
pub proof fn lemma_done(s: State)
    requires
        !s.is_not_done(),
    ensures
        s.halts(),
        s.steps() == 0,
        s.ran() == s,
{
    assert(s.stops_after(0));
    lemma_run_unfolds(s);
}

/// A machine that does not go on after some number of steps halts, and
/// within that number of steps.
pub proof fn lemma_halts_within(s: State, n: nat)
    requires
        !s.after_steps(n).continues(),
    ensures
        s.halts(),
        s.steps() <= n,
    decreases n,
{
    if !s.continues() {
        assert(s.stops_after(0));
        lemma_stops_once(s, 0, s.steps());
    } else {
        lemma_halts_within(s.step(), (n - 1) as nat);
        let rest = s.step().steps();
        assert(s.stops_after(rest + 1));
        lemma_stops_once(s, rest + 1, s.steps());
    }
}

/// Two machines of the same value go on for the same number of steps and end
/// as the same value: a run is determined by the state it starts from.
pub proof fn lemma_run_deterministic(a: VM, b: VM)
    requires
        a@ == b@,
        a@.halts(),
    ensures
        b@.halts(),
        a@.steps() == b@.steps(),
        a@.ran() == b@.ran(),
{
}

/// `load` whose operands are there and whose first names a register writes
/// the value of the other two to that register, marks it as written last,
/// moves the counter past its word and changes nothing else.
pub proof fn lemma_load(s: State)
    requires
        s.wf(),
        s.opcode() == Opcode::LOAD,
        s.pc + 3 < s.program.len(),
        s.names_register(1),
    ensures
        s.continues(),
        s.step() == (State {
            registers: s.registers.update(
                s.operand(1) as int,
                immediate(s.operand(2), s.operand(3)),
            ),
            stdout: s.operand(1) as usize,
            pc: (s.pc + WORD) as usize,
            ..s
        }),
        s.step().output() == immediate(s.operand(2), s.operand(3)),
        -0x8000 <= immediate(s.operand(2), s.operand(3)) < 0x8000,
{
}

/// `add`, `sub`, `mul` and `div` whose operands are there and name
/// registers write the sum, the difference, the product or the quotient of
/// the first two registers to the third where it fits 32 bits, and mark it
/// as written last; `div` also leaves the modulus in the remainder register.
/// Where the result does not fit, or the divisor is zero, they fault.
pub proof fn lemma_arithmetic(s: State)
    requires
        s.wf(),
        is_arithmetic(s.opcode()),
        s.pc + 3 < s.program.len(),
        s.names_register(1),
        s.names_register(2),
        s.names_register(3),
    ensures
        s.result() == match s.opcode() {
            Opcode::ADD => s.register(1) + s.register(2),
            Opcode::SUB => s.register(1) - s.register(2),
            Opcode::MUL => s.register(1) * s.register(2),
            _ => quotient(s.register(1), s.register(2)),
        },
        s.continues() <==> i32::MIN <= s.result() <= i32::MAX && !(s.opcode() == Opcode::DIV
            && s.register(2) == 0),
        s.continues() ==> s.step() == (State {
            registers: s.registers.update(s.operand(3) as int, s.result() as i32),
            stdout: s.operand(3) as usize,
            pc: (s.pc + WORD) as usize,
            remainder: if s.opcode() == Opcode::DIV {
                unsigned(modulus(s.register(1), s.register(2)) as i32)
            } else {
                s.remainder
            },
            ..s
        }),
        !s.continues() ==> s.step() == s.advanced(1),
{
}

/// A jump whose operand is there and names a register sets the counter: `jmp`
/// to the value of the register, `jmpf` and `jmpb` that far forward or back
/// from behind their operand. It changes nothing else, and where the counter
/// cannot hold the value the jump faults.
pub proof fn lemma_jump(s: State)
    requires
        s.wf(),
        s.opcode() == Opcode::JMP || s.opcode() == Opcode::JMPF || s.opcode() == Opcode::JMPB,
        s.pc + 1 < s.program.len(),
        s.names_register(1),
    ensures
        s.target() == match s.opcode() {
            Opcode::JMP => s.register(1),
            Opcode::JMPF => s.pc + 2 + s.register(1),
            _ => s.pc + 2 - s.register(1),
        },
        0 <= s.target() <= usize::MAX ==> s.continues() && s.step() == (State {
            pc: s.target() as usize,
            ..s
        }),
        !(0 <= s.target() <= usize::MAX) ==> !s.continues() && s.step() == s.advanced(1),
{
}

/// A comparison whose two operands are there and name registers sets the
/// flag to what it finds of them, moves the counter past its word and changes
/// nothing else. So `eq` sets the flag when the two registers hold the same
/// value and clears it when they differ.
pub proof fn lemma_comparison(s: State)
    requires
        s.wf(),
        is_comparison(s.opcode()),
        s.pc + 2 < s.program.len(),
        s.names_register(1),
        s.names_register(2),
        s.pc + WORD <= usize::MAX,
    ensures
        s.continues(),
        s.step() == (State { eq_flag: s.verdict(), pc: (s.pc + WORD) as usize, ..s }),
        s.opcode() == Opcode::EQ ==> s.step().eq_flag == (s.register(1) == s.register(2)),
{
}

/// `jeq` with the flag clear moves the counter past its own word; with the
/// flag set it moves the counter to the offset its register holds, or faults
/// where the operand is missing or names no register, or the register holds
/// a negative value. It changes nothing but the counter.
pub proof fn lemma_jeq(s: State)
    requires
        s.wf(),
        s.is_not_done(),
        s.opcode() == Opcode::JEQ,
        s.pc + WORD <= usize::MAX,
    ensures
        !s.eq_flag ==> s.continues() && s.step() == s.advanced(WORD as int),
        s.eq_flag && s.pc + 1 < s.program.len() && s.names_register(1) && s.register(1) >= 0
            ==> s.continues() && s.step() == (State { pc: s.register(1) as usize, ..s }),
        s.eq_flag && !(s.pc + 1 < s.program.len() && s.names_register(1) && s.register(1) >= 0)
            ==> !s.continues() && s.step() == s.advanced(1),
{
}

/// A byte that encodes no instruction stops the machine: the step consumes
/// that byte and leaves registers, flag, remainder, heap and program as the
/// last instruction left them, and a run from there ends with it.
pub proof fn lemma_unmapped_opcode(s: State)
    requires
        s.is_not_done(),
        s.program[s.pc as int] > 16,
    ensures
        s.outcome() == Outcome::Illegal,
        !s.continues(),
        s.step() == s.advanced(1),
        s.halts(),
        s.ran() == s.advanced(1),
{
    assert(s.stops_after(0));
    lemma_run_unfolds(s);
}

/// `alloc` on a register that holds `n >= 0` appends `n` zero bytes to the
/// heap, whatever the heap held, moves the counter past its word and changes
/// nothing else.
pub proof fn lemma_alloc(s: State)
    requires
        s.wf(),
        s.opcode() == Opcode::ALLOC,
        s.pc + 1 < s.program.len(),
        s.names_register(1),
        s.pc + WORD <= usize::MAX,
        0 <= s.register(1),
        s.heap.len() + s.register(1) <= usize::MAX,
    ensures
        s.continues(),
        s.step().heap.len() == s.heap.len() + s.register(1),
        s.step().heap.take(s.heap.len() as int) == s.heap,
        forall|i: int| s.heap.len() <= i < s.step().heap.len() ==> s.step().heap[i] == 0,
        s.step() == (State { heap: s.step().heap, pc: (s.pc + WORD) as usize, ..s }),
{
    assert(s.step().heap.take(s.heap.len() as int) =~= s.heap);
}

/// The two bytes that an integer is split into are read back as the same
/// integer, where it is one of 16 bits in two's complement.
pub proof fn lemma_split_immediate(value: i32)
    requires
        -0x8000 <= value < 0x8000,
    ensures
        immediate(split(value).0, split(value).1) == value,
{
}

/// The word that `load`, a register and an integer are assembled to loads
/// that integer into that register, where the register exists and the
/// integer is one of 16 bits in two's complement.
pub proof fn lemma_assembled_load(s: State, register: u8, value: i32)
    requires
        s.wf(),
        s.pc + WORD <= s.program.len(),
        s.program.subrange(s.pc as int, s.pc + WORD) == seq![
            opcode_to_byte(Opcode::LOAD),
            register,
            split(value).0,
            split(value).1,
        ],
        register < 32,
        -0x8000 <= value < 0x8000,
    ensures
        s.continues(),
        s.step() == s.advanced(WORD as int).wrote(register, value),
        s.step().output() == value,
{
    let word = s.program.subrange(s.pc as int, s.pc + WORD);
    assert(word[0] == s.program[s.pc as int]);
    assert(word[1] == s.operand(1));
    assert(word[2] == s.operand(2));
    assert(word[3] == s.operand(3));
    lemma_split_immediate(value);
}

} // verus!
