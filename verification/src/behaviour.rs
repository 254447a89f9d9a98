//! What holds of every machine and every program: how a stopped machine
//! stays, how steps add up, and what some pairs of instructions do.

use vstd::prelude::*;

use crate::instruction::{ArgumentView, InstructionView, Opcode};
use crate::program::{undefined_in, ProgramView};
use crate::vm::{low_byte, MachineView, OutputView, RuntimeError, Status, MEMORY_SIZE};

verus! {

/// A machine that has halted or has stopped on an error executes nothing
/// more: steps leave it as it is and hand out nothing.
pub proof fn lemma_stopped_stays(m: MachineView, program: ProgramView, steps: nat)
    requires
        m.status != Status::Running,
    ensures
        m.step(program) == m,
        m.step_output(program) is None,
        m.run(program, steps) == m,
        m.run_output(program, steps) == Seq::<OutputView>::empty(),
{
}

/// A step keeps the stack pointer at the height of the stack and the memory
/// at its size.
pub proof fn lemma_step_wf(m: MachineView, program: ProgramView)
    requires
        m.wf(),
        program.wf(),
    ensures
        m.step(program).wf(),
{
}

/// Under a program that is in order, a program counter that is inside the
/// program or at its end stays so: no jump, call or return leads elsewhere.
pub proof fn lemma_step_stays_in_program(m: MachineView, program: ProgramView)
    requires
        m.wf(),
        program.wf(),
        m.pc <= program.instructions.len(),
    ensures
        m.step(program).pc <= program.instructions.len(),
{
    if m.status == Status::Running && m.pc < program.instructions.len() {
        let i = program.instructions[m.pc as int];
        assert(i.well_shaped());
        assert(undefined_in(i, program.labels) is None);
    }
}

/// Running `a` steps and then `b` steps is running `a + b` steps, and hands
/// out the same.
pub proof fn lemma_run_adds(m: MachineView, program: ProgramView, a: nat, b: nat)
    ensures
        m.run(program, a + b) == m.run(program, a).run(program, b),
        m.run_output(program, a + b) == m.run_output(program, a) + m.run(program, a).run_output(
            program,
            b,
        ),
    decreases a,
{
    if m.status != Status::Running {
        lemma_stopped_stays(m, program, a);
        lemma_stopped_stays(m, program, b);
        lemma_stopped_stays(m, program, a + b);
        assert(m.run_output(program, a) + m.run_output(program, b) == m.run_output(program, b));
    } else if a == 0 {
        assert(m.run_output(program, 0) + m.run_output(program, b) == m.run_output(program, b));
    } else {
        let next = m.step(program);
        lemma_run_adds(next, program, (a - 1) as nat, b);
        let first = next.run_output(program, (a - 1) as nat);
        let second = next.run(program, (a - 1) as nat).run_output(program, b);
        assert(next.run_output(program, (a + b - 1) as nat) == first + second);
        match m.step_output(program) {
            Some(output) => {
                assert(seq![output] + (first + second) == (seq![output] + first) + second);
            },
            None => {},
        }
    }
}

/// `PUSH` of a number and then `POP` into a register leave the number in
/// the register and the stack as it was.
pub proof fn lemma_push_then_pop(
    m: MachineView,
    program: ProgramView,
    value: u32,
    register: Seq<char>,
)
    requires
        m.wf(),
        m.status == Status::Running,
        m.stack.len() < u32::MAX,
        m.pc + 1 < program.instructions.len() <= u32::MAX,
        program.instructions[m.pc as int] == (InstructionView {
            opcode: Opcode::PUSH,
            arg1: Some(ArgumentView::Literal(value)),
            arg2: None,
        }),
        program.instructions[m.pc + 1] == (InstructionView {
            opcode: Opcode::POP,
            arg1: Some(ArgumentView::Register(register)),
            arg2: None,
        }),
    ensures
        ({
            let after = m.run(program, 2);
            &&& after.status == Status::Running
            &&& after.pc == m.pc + 2
            &&& after.register(register) == value
            &&& after.registers == m.registers.insert(register, value)
            &&& after.stack == m.stack
            &&& after.sp == m.sp
            &&& after.memory == m.memory
        }),
{
    let pushed = m.step(program);
    assert(pushed.stack.drop_last() == m.stack);
    let after = pushed.step(program);
    assert(pushed.run(program, 1) == after.run(program, 0));
    assert(m.run(program, 2) == pushed.run(program, 1));
}

/// `POP` on an empty stack stops the machine with `StackUnderflow`, and
/// changes nothing else.
pub proof fn lemma_pop_empty_stack(m: MachineView, program: ProgramView)
    requires
        m.status == Status::Running,
        m.pc < program.instructions.len(),
        program.instructions[m.pc as int].opcode == Opcode::POP,
        m.stack.len() == 0,
    ensures
        m.step(program) == m.fault(RuntimeError::StackUnderflow),
        forall|steps: nat|
            steps > 0 ==> #[trigger] m.run(program, steps) == m.fault(RuntimeError::StackUnderflow),
{
    let stopped = m.fault(RuntimeError::StackUnderflow);
    assert forall|steps: nat| steps > 0 implies #[trigger] m.run(program, steps) == stopped by {
        lemma_stopped_stays(stopped, program, (steps - 1) as nat);
    }
}

/// `FETCH_WRITE [cell] from` and then `FETCH_READ [cell] to`, at an address
/// inside the memory, leave in `to` the byte that was written: the lowest
/// byte of what `from` held, which is all of it where that is below 256.
pub proof fn lemma_fetch_round_trip(
    m: MachineView,
    program: ProgramView,
    cell: Seq<char>,
    from: Seq<char>,
    to: Seq<char>,
)
    requires
        m.wf(),
        m.status == Status::Running,
        m.pc + 1 < program.instructions.len() <= u32::MAX,
        program.instructions[m.pc as int] == (InstructionView {
            opcode: Opcode::FETCH_WRITE,
            arg1: Some(ArgumentView::Reference(cell)),
            arg2: Some(ArgumentView::Register(from)),
        }),
        program.instructions[m.pc + 1] == (InstructionView {
            opcode: Opcode::FETCH_READ,
            arg1: Some(ArgumentView::Reference(cell)),
            arg2: Some(ArgumentView::Register(to)),
        }),
        m.address(cell) < MEMORY_SIZE,
    ensures
        ({
            let after = m.run(program, 2);
            &&& after.status == Status::Running
            &&& after.pc == m.pc + 2
            &&& after.memory == m.memory.update(m.address(cell) as int, low_byte(m.register(from)))
            &&& after.register(to) == m.register(from) % 256
            &&& m.register(from) < 256 ==> after.register(to) == m.register(from)
        }),
{
    let written = m.step(program);
    let after = written.step(program);
    assert(written.address(cell) == m.address(cell));
    assert(written.run(program, 1) == after.run(program, 0));
    assert(m.run(program, 2) == written.run(program, 1));
}

/// `FETCH_WRITE` and `FETCH_READ` at an address that is not inside the
/// memory stop the machine with `OutOfBounds`, and change nothing else.
pub proof fn lemma_fetch_out_of_bounds(
    m: MachineView,
    program: ProgramView,
    cell: Seq<char>,
    register: Seq<char>,
)
    requires
        m.status == Status::Running,
        m.pc < program.instructions.len(),
        program.instructions[m.pc as int].opcode == Opcode::FETCH_WRITE
            || program.instructions[m.pc as int].opcode == Opcode::FETCH_READ,
        program.instructions[m.pc as int].arg1 == Some(ArgumentView::Reference(cell)),
        program.instructions[m.pc as int].arg2 == Some(ArgumentView::Register(register)),
        m.address(cell) >= MEMORY_SIZE,
    ensures
        m.step(program) == m.fault(RuntimeError::OutOfBounds),
{
}

/// `DIV` by an operand that stands for 0 stops the machine with
/// `DivisionByZero`, and changes nothing else: the register that was to be
/// divided holds what it held.
pub proof fn lemma_division_by_zero(
    m: MachineView,
    program: ProgramView,
    dividend: Seq<char>,
    divisor: Option<ArgumentView>,
)
    requires
        m.status == Status::Running,
        m.pc < program.instructions.len(),
        program.instructions[m.pc as int] == (InstructionView {
            opcode: Opcode::DIV,
            arg1: Some(ArgumentView::Register(dividend)),
            arg2: divisor,
        }),
        m.value_of(program, divisor) == Ok::<u32, RuntimeError>(0),
    ensures
        m.step(program) == m.fault(RuntimeError::DivisionByZero),
        m.step(program).registers == m.registers,
        forall|steps: nat|
            steps > 0 ==> #[trigger] m.run(program, steps) == m.fault(
                RuntimeError::DivisionByZero,
            ),
{
    let stopped = m.fault(RuntimeError::DivisionByZero);
    assert forall|steps: nat| steps > 0 implies #[trigger] m.run(program, steps) == stopped by {
        lemma_stopped_stays(stopped, program, (steps - 1) as nat);
    }
}

} // verus!
