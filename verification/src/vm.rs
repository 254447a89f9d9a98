//! The virtual machine: registers, a stack, 2048 bytes of memory and a
//! program counter, and the rules by which an instruction changes them.
//!
//! - Every register holds 0 until it is written.
//! - Arithmetic wraps around at 32 bits. Its result goes to the first
//!   operand, where that is a register or a memory reference, and to the
//!   flag; with a literal as first operand only the flag is set.
//! - The flag is what conditional jumps test: `JNZ` jumps where the flag is
//!   not 0; `JE`, `JNE`, `JLT` and `JGT` compare the flag with their second
//!   operand, or with 0 where they have none.
//! - The name in a memory reference is a number, which is the address, or
//!   the name of a register, which holds the address. A byte is read as a
//!   number below 256, and of a number that is written the lowest byte is
//!   kept.
//! - `FCALL` with a label puts the program counter on the stack and jumps;
//!   `FCALL` without operand takes a program counter off the stack and goes
//!   on behind it.
//! - The stack holds `u32::MAX` numbers at most.
//!
//! The rules are stated on `MachineView`, the machine's state as plain
//! values: `step` says what one step does, `run` what a number of steps do.
//! The machine's methods of the same names are proved to do just that. A run
//! is given a number of steps, after which it returns even if the program
//! has not come to its end; who wants a program run to its end runs it again
//! until the machine has stopped.

use vstd::prelude::*;

use crate::instruction::{
    argument_view, Argument, ArgumentView, Instruction, InstructionView, Opcode,
};
use crate::names::NameTable;
use crate::program::{Program, ProgramView};
use crate::text::{all_digits, chars_of, decimal_value, is_all_digits, parse_decimal};

verus! {

pub type Register = u32;

/// The number of bytes of memory.
pub const MEMORY_SIZE: usize = 2048;

/// Why a machine stopped before the end of its program.
#[derive(Debug, Clone, Copy, PartialEq, Eq, Structural)]
pub enum RuntimeError {
    /// A division by 0.
    DivisionByZero,
    /// A number was to be taken off the empty stack.
    StackUnderflow,
    /// An address is not below `MEMORY_SIZE`, a program counter taken off
    /// the stack is not the index of an instruction, or the stack is full.
    OutOfBounds,
}

/// Whether a machine runs, has reached the end of its program, or has
/// stopped on an error.
#[derive(Debug, Clone, Copy, PartialEq, Eq, Structural)]
pub enum Status {
    Running,
    Halted,
    Faulted(RuntimeError),
}

/// What `ECHO` hands out.
#[derive(Debug, PartialEq, Eq)]
pub enum Output {
    Number(u32),
    Text(String),
}

pub enum OutputView {
    Number(u32),
    Text(Seq<char>),
}

impl View for Output {
    type V = OutputView;

    open spec fn view(&self) -> OutputView {
        match self {
            Output::Number(n) => OutputView::Number(*n),
            Output::Text(s) => OutputView::Text(s@),
        }
    }
}

impl Clone for Output {
    fn clone(&self) -> (o: Output)
        ensures
            o@ == self@,
    {
        match self {
            Output::Number(n) => Output::Number(*n),
            Output::Text(s) => Output::Text(s.clone()),
        }
    }
}

/// The views of the outputs in `v`.
pub open spec fn output_views(v: Seq<Output>) -> Seq<OutputView> {
    Seq::new(v.len(), |i: int| v[i]@)
}

/// The state of a machine.
pub struct MachineView {
    /// The index of the instruction that runs next.
    pub pc: u32,
    /// The number of numbers on the stack.
    pub sp: u32,
    /// The result of the last arithmetic instruction.
    pub flag: u32,
    /// The registers that were written, by name.
    pub registers: Map<Seq<char>, u32>,
    /// The stack, its top last.
    pub stack: Seq<u32>,
    pub memory: Seq<u8>,
    pub status: Status,
}

impl MachineView {
    /// The stack pointer counts the stack, and the memory has its size.
    pub open spec fn wf(self) -> bool {
        self.sp == self.stack.len() && self.memory.len() == MEMORY_SIZE
    }

    /// The machine before it runs: everything is 0 or empty.
    pub open spec fn initial() -> MachineView {
        MachineView {
            pc: 0,
            sp: 0,
            flag: 0,
            registers: Map::empty(),
            stack: Seq::empty(),
            memory: Seq::new(MEMORY_SIZE as nat, |i: int| 0u8),
            status: Status::Running,
        }
    }

    /// What the register `name` holds.
    pub open spec fn register(self, name: Seq<char>) -> u32 {
        if self.registers.contains_key(name) {
            self.registers[name]
        } else {
            0
        }
    }

    /// The address that the memory reference `name` means: the number that
    /// `name` writes, or else what the register `name` holds.
    pub open spec fn address(self, name: Seq<char>) -> nat {
        if name.len() > 0 && all_digits(name) {
            decimal_value(name)
        } else {
            self.register(name) as nat
        }
    }

    /// The number that an operand stands for: a literal for itself, a
    /// register for what it holds, a memory reference for the byte at its
    /// address, a label for the index that it names. A string and a missing
    /// operand stand for 0.
    pub open spec fn value_of(self, program: ProgramView, arg: Option<ArgumentView>) -> Result<
        u32,
        RuntimeError,
    > {
        match arg {
            Some(ArgumentView::Literal(n)) => Ok(n),
            Some(ArgumentView::Register(name)) => Ok(self.register(name)),
            Some(ArgumentView::Reference(name)) => if self.address(name) < MEMORY_SIZE {
                Ok(self.memory[self.address(name) as int] as u32)
            } else {
                Err(RuntimeError::OutOfBounds)
            },
            Some(ArgumentView::Label(name)) => if program.labels.contains_key(name) {
                Ok(program.labels[name])
            } else {
                Ok(0)
            },
            _ => Ok(0),
        }
    }

    /// The machine after `value` is written to an operand: into the register,
    /// or its lowest byte into the memory. Writing to any other operand
    /// changes nothing.
    pub open spec fn store(self, arg: Option<ArgumentView>, value: u32) -> Result<
        MachineView,
        RuntimeError,
    > {
        match arg {
            Some(ArgumentView::Register(name)) => Ok(
                MachineView { registers: self.registers.insert(name, value), ..self },
            ),
            Some(ArgumentView::Reference(name)) => if self.address(name) < MEMORY_SIZE {
                Ok(
                    MachineView {
                        memory: self.memory.update(self.address(name) as int, low_byte(value)),
                        ..self
                    },
                )
            } else {
                Err(RuntimeError::OutOfBounds)
            },
            _ => Ok(self),
        }
    }

    /// The machine stopped by `error`; nothing else changes.
    pub open spec fn fault(self, error: RuntimeError) -> MachineView {
        MachineView { status: Status::Faulted(error), ..self }
    }

    /// The machine at the next instruction.
    pub open spec fn advance(self) -> MachineView {
        MachineView { pc: (self.pc + 1) as u32, ..self }
    }

    /// The machine at the instruction with the index `target`.
    pub open spec fn jump_to(self, target: u32) -> MachineView {
        MachineView { pc: target, ..self }
    }

    /// The machine with `value` on top of the stack.
    pub open spec fn pushed(self, value: u32) -> MachineView {
        MachineView { stack: self.stack.push(value), sp: (self.sp + 1) as u32, ..self }
    }

    /// The machine without the top of the stack.
    pub open spec fn popped(self) -> MachineView {
        MachineView { stack: self.stack.drop_last(), sp: (self.sp - 1) as u32, ..self }
    }

    /// `ADD`, `SUB`, `MUL`, `DIV`: both operands are read, the result is
    /// written to the first and to the flag. A division by 0 stops the
    /// machine.
    pub open spec fn arithmetic(self, program: ProgramView, i: InstructionView) -> MachineView {
        match self.value_of(program, i.arg1) {
            Err(e) => self.fault(e),
            Ok(a) => match self.value_of(program, i.arg2) {
                Err(e) => self.fault(e),
                Ok(b) => if i.opcode == Opcode::DIV && b == 0 {
                    self.fault(RuntimeError::DivisionByZero)
                } else {
                    let result = compute(i.opcode, a, b);
                    match self.store(i.arg1, result) {
                        Err(e) => self.fault(e),
                        Ok(written) => MachineView { flag: result, ..written }.advance(),
                    }
                },
            },
        }
    }

    /// The jumps: the machine goes to the label where the jump is taken, and
    /// to the next instruction where it is not.
    pub open spec fn jump(self, program: ProgramView, i: InstructionView) -> MachineView {
        match self.value_of(program, i.arg1) {
            Err(e) => self.fault(e),
            Ok(target) => match self.value_of(program, i.arg2) {
                Err(e) => self.fault(e),
                Ok(operand) => if jump_taken(i.opcode, self.flag, operand) {
                    self.jump_to(target)
                } else {
                    self.advance()
                },
            },
        }
    }

    /// `FCALL`: with a label, the program counter goes on the stack and the
    /// machine to the label; without, a program counter comes off the stack
    /// and the machine goes to the instruction behind it.
    pub open spec fn call(self, program: ProgramView, i: InstructionView) -> MachineView {
        if i.arg1 is Some {
            match self.value_of(program, i.arg1) {
                Err(e) => self.fault(e),
                Ok(target) => if self.stack.len() >= u32::MAX {
                    self.fault(RuntimeError::OutOfBounds)
                } else {
                    self.pushed(self.pc).jump_to(target)
                },
            }
        } else if self.stack.len() == 0 {
            self.fault(RuntimeError::StackUnderflow)
        } else if self.stack.last() >= program.instructions.len() {
            self.fault(RuntimeError::OutOfBounds)
        } else {
            self.popped().jump_to((self.stack.last() + 1) as u32)
        }
    }

    /// `PUSH`: the operand's value goes on the stack.
    pub open spec fn push(self, program: ProgramView, i: InstructionView) -> MachineView {
        match self.value_of(program, i.arg1) {
            Err(e) => self.fault(e),
            Ok(value) => if self.stack.len() >= u32::MAX {
                self.fault(RuntimeError::OutOfBounds)
            } else {
                self.pushed(value).advance()
            },
        }
    }

    /// `POP`: the top of the stack comes off and is written to the operand.
    pub open spec fn pop(self, i: InstructionView) -> MachineView {
        if self.stack.len() == 0 {
            self.fault(RuntimeError::StackUnderflow)
        } else {
            match self.store(i.arg1, self.stack.last()) {
                Err(e) => self.fault(e),
                Ok(written) => written.popped().advance(),
            }
        }
    }

    /// `FETCH_READ`: the value of the first operand, a byte of memory, is
    /// written to the second, a register.
    pub open spec fn fetch_read(self, program: ProgramView, i: InstructionView) -> MachineView {
        match self.value_of(program, i.arg1) {
            Err(e) => self.fault(e),
            Ok(value) => match self.store(i.arg2, value) {
                Err(e) => self.fault(e),
                Ok(written) => written.advance(),
            },
        }
    }

    /// `FETCH_WRITE`: the value of the second operand, a register, is written
    /// to the first, a byte of memory.
    pub open spec fn fetch_write(self, program: ProgramView, i: InstructionView) -> MachineView {
        match self.value_of(program, i.arg2) {
            Err(e) => self.fault(e),
            Ok(value) => match self.store(i.arg1, value) {
                Err(e) => self.fault(e),
                Ok(written) => written.advance(),
            },
        }
    }

    /// `ECHO`: what the operand stands for, if anything is handed out: the
    /// text of a string, the value of any other operand.
    pub open spec fn echoed(self, program: ProgramView, i: InstructionView) -> Option<OutputView> {
        match i.arg1 {
            Some(ArgumentView::String(text)) => Some(OutputView::Text(text)),
            _ => match self.value_of(program, i.arg1) {
                Ok(value) => Some(OutputView::Number(value)),
                Err(_) => None,
            },
        }
    }

    /// `ECHO`: the machine after it.
    pub open spec fn echo(self, program: ProgramView, i: InstructionView) -> MachineView {
        match i.arg1 {
            Some(ArgumentView::String(_)) => self.advance(),
            _ => match self.value_of(program, i.arg1) {
                Ok(_) => self.advance(),
                Err(e) => self.fault(e),
            },
        }
    }

    /// The machine after the instruction `i`.
    pub open spec fn execute(self, program: ProgramView, i: InstructionView) -> MachineView {
        match i.opcode {
            Opcode::ADD | Opcode::SUB | Opcode::MUL | Opcode::DIV => self.arithmetic(program, i),
            Opcode::JMP | Opcode::JNE | Opcode::JE | Opcode::JLT | Opcode::JGT | Opcode::JNZ => self.jump(
                program,
                i,
            ),
            Opcode::FCALL => self.call(program, i),
            Opcode::ECHO => self.echo(program, i),
            Opcode::PUSH => self.push(program, i),
            Opcode::POP => self.pop(i),
            Opcode::FETCH_READ => self.fetch_read(program, i),
            Opcode::FETCH_WRITE => self.fetch_write(program, i),
        }
    }

    /// The machine one step on. A machine that does not run stays as it is.
    /// One whose program counter is behind the last instruction halts. Any
    /// other runs the instruction at its program counter.
    pub open spec fn step(self, program: ProgramView) -> MachineView {
        if self.status != Status::Running {
            self
        } else if self.pc >= program.instructions.len() {
            MachineView { status: Status::Halted, ..self }
        } else {
            self.execute(program, program.instructions[self.pc as int])
        }
    }

    /// What the step hands out: something only where a running machine is at
    /// an `ECHO`.
    pub open spec fn step_output(self, program: ProgramView) -> Option<OutputView> {
        if self.status == Status::Running && self.pc < program.instructions.len()
            && program.instructions[self.pc as int].opcode == Opcode::ECHO {
            self.echoed(program, program.instructions[self.pc as int])
        } else {
            None
        }
    }

    /// The machine `steps` steps on, or as it is when it stops before that.
    pub open spec fn run(self, program: ProgramView, steps: nat) -> MachineView
        decreases steps,
    {
        if steps == 0 || self.status != Status::Running {
            self
        } else {
            self.step(program).run(program, (steps - 1) as nat)
        }
    }

    /// What the machine hands out in `steps` steps, in order.
    pub open spec fn run_output(self, program: ProgramView, steps: nat) -> Seq<OutputView>
        decreases steps,
    {
        if steps == 0 || self.status != Status::Running {
            Seq::empty()
        } else {
            let rest = self.step(program).run_output(program, (steps - 1) as nat);
            match self.step_output(program) {
                Some(output) => seq![output] + rest,
                None => rest,
            }
        }
    }
}

/// The lowest byte of `value`.
pub open spec fn low_byte(value: u32) -> u8 {
    (value % 256) as u8
}

/// The result of an arithmetic operation on `a` and `b`, at 32 bits.
pub open spec fn compute(opcode: Opcode, a: u32, b: u32) -> u32
    recommends
        opcode == Opcode::DIV ==> b != 0,
{
    match opcode {
        Opcode::ADD => ((a + b) % 0x1_0000_0000) as u32,
        Opcode::SUB => ((a - b) % 0x1_0000_0000) as u32,
        Opcode::MUL => ((a * b) % 0x1_0000_0000) as u32,
        Opcode::DIV => (a / b) as u32,
        _ => a,
    }
}

/// Whether a jump is taken when the flag is `flag` and the jump's second
/// operand stands for `operand`.
pub open spec fn jump_taken(opcode: Opcode, flag: u32, operand: u32) -> bool {
    match opcode {
        Opcode::JMP => true,
        Opcode::JNZ => flag != 0,
        Opcode::JE => flag == operand,
        Opcode::JNE => flag != operand,
        Opcode::JLT => flag < operand,
        Opcode::JGT => flag > operand,
        _ => false,
    }
}

/// The virtual machine.
#[derive(Debug)]
pub struct MMVM {
    pc: Register,
    sp: Register,
    flag: Register,
    registers: NameTable,
    stack: Vec<u32>,
    memory: Vec<u8>,
    status: Status,
}

impl View for MMVM {
    type V = MachineView;

    closed spec fn view(&self) -> MachineView {
        MachineView {
            pc: self.pc,
            sp: self.sp,
            flag: self.flag,
            registers: self.registers@,
            stack: self.stack@,
            memory: self.memory@,
            status: self.status,
        }
    }
}

impl MMVM {
    /// The table of registers is in order.
    pub closed spec fn registers_wf(&self) -> bool {
        self.registers.wf()
    }

    pub open spec fn wf(&self) -> bool {
        self.registers_wf() && self@.wf()
    }

    /// A machine before it runs.
    pub fn new() -> (vm: MMVM)
        ensures
            vm.wf(),
            vm@ == MachineView::initial(),
    {
        let mut memory: Vec<u8> = Vec::new();
        while memory.len() < MEMORY_SIZE
            invariant
                memory@.len() <= MEMORY_SIZE,
                forall|i: int| 0 <= i < memory@.len() ==> memory@[i] == 0u8,
            decreases MEMORY_SIZE - memory@.len(),
        {
            memory.push(0u8);
        }
        let vm = MMVM {
            pc: 0,
            sp: 0,
            flag: 0,
            registers: NameTable::new(),
            stack: Vec::new(),
            memory,
            status: Status::Running,
        };
        assert(vm@.memory =~= MachineView::initial().memory);
        vm
    }

    pub fn pc(&self) -> (pc: Register)
        ensures
            pc == self@.pc,
    {
        self.pc
    }

    pub fn sp(&self) -> (sp: Register)
        ensures
            sp == self@.sp,
    {
        self.sp
    }

    pub fn flag(&self) -> (flag: Register)
        ensures
            flag == self@.flag,
    {
        self.flag
    }

    pub fn status(&self) -> (status: Status)
        ensures
            status == self@.status,
    {
        self.status
    }

    /// The stack, its top last.
    pub fn stack(&self) -> (stack: &Vec<u32>)
        ensures
            stack@ == self@.stack,
    {
        &self.stack
    }

    /// The byte at `address`.
    pub fn memory(&self, address: usize) -> (byte: Option<u8>)
        requires
            self.wf(),
        ensures
            byte == if address < MEMORY_SIZE {
                Some(self@.memory[address as int])
            } else {
                None
            },
    {
        if address < MEMORY_SIZE {
            Some(self.memory[address])
        } else {
            None
        }
    }

    /// What the register `name` holds.
    pub fn register(&self, name: &String) -> (value: u32)
        requires
            self.wf(),
        ensures
            value == self@.register(name@),
    {
        match self.registers.get(name) {
            Some(value) => value,
            None => 0,
        }
    }

    /// The address that the memory reference `name` means, if it is inside
    /// the memory.
    pub fn address(&self, name: &String) -> (address: Option<usize>)
        requires
            self.wf(),
        ensures
            match address {
                Some(a) => a == self@.address(name@) && a < MEMORY_SIZE,
                None => self@.address(name@) >= MEMORY_SIZE,
            },
    {
        let chars = chars_of(name.as_str());
        if chars.len() > 0 && is_all_digits(&chars) {
            match parse_decimal(&chars, 2047) {
                Some(n) => Some(n as usize),
                None => None,
            }
        } else {
            let value = self.register(name);
            if value < 2048 {
                Some(value as usize)
            } else {
                None
            }
        }
    }

    /// The number that an operand stands for.
    pub fn value_of(&self, program: &Program, arg: &Option<Argument>) -> (r: Result<
        u32,
        RuntimeError,
    >)
        requires
            self.wf(),
            program.wf(),
        ensures
            r == self@.value_of(program@, argument_view(*arg)),
    {
        match arg {
            Some(Argument::Literal(n)) => Ok(*n),
            Some(Argument::Register(name)) => Ok(self.register(name)),
            Some(Argument::Reference(name)) => match self.address(name) {
                Some(a) => Ok(self.memory[a] as u32),
                None => Err(RuntimeError::OutOfBounds),
            },
            Some(Argument::Label(name)) => match program.label(name) {
                Some(index) => Ok(index),
                None => Ok(0),
            },
            _ => Ok(0),
        }
    }

    /// Writes `value` to an operand.
    pub fn store(&mut self, arg: &Option<Argument>, value: u32) -> (r: Result<(), RuntimeError>)
        requires
            old(self).wf(),
        ensures
            final(self).wf(),
            match old(self)@.store(argument_view(*arg), value) {
                Ok(written) => r is Ok && final(self)@ == written,
                Err(e) => r == Err::<(), RuntimeError>(e) && final(self)@ == old(self)@,
            },
    {
        match arg {
            Some(Argument::Register(name)) => {
                self.registers.set(name.clone(), value);
                Ok(())
            },
            Some(Argument::Reference(name)) => match self.address(name) {
                Some(a) => {
                    self.memory.set(a, (value % 256) as u8);
                    Ok(())
                },
                None => Err(RuntimeError::OutOfBounds),
            },
            _ => Ok(()),
        }
    }
}

impl MMVM {
    /// Stops the machine on `error`.
    fn fault(&mut self, error: RuntimeError)
        requires
            old(self).wf(),
        ensures
            final(self).wf(),
            final(self)@ == old(self)@.fault(error),
    {
        self.status = Status::Faulted(error);
    }

    /// Moves the program counter to the next instruction.
    fn advance(&mut self)
        requires
            old(self).wf(),
            old(self)@.pc < u32::MAX,
        ensures
            final(self).wf(),
            final(self)@ == old(self)@.advance(),
    {
        self.pc = self.pc + 1;
    }

    /// Runs an arithmetic instruction.
    fn arithmetic(&mut self, program: &Program, i: &Instruction)
        requires
            old(self).wf(),
            program.wf(),
            old(self)@.pc < u32::MAX,
        ensures
            final(self).wf(),
            final(self)@ == old(self)@.arithmetic(program@, i@),
    {
        let a = match self.value_of(program, i.arg1()) {
            Ok(a) => a,
            Err(e) => {
                self.fault(e);
                return ;
            },
        };
        let b = match self.value_of(program, i.arg2()) {
            Ok(b) => b,
            Err(e) => {
                self.fault(e);
                return ;
            },
        };
        let opcode = i.opcode();
        if opcode == Opcode::DIV && b == 0 {
            self.fault(RuntimeError::DivisionByZero);
            return ;
        }
        let result = match opcode {
            Opcode::ADD => a.wrapping_add(b),
            Opcode::SUB => a.wrapping_sub(b),
            Opcode::MUL => a.wrapping_mul(b),
            Opcode::DIV => a / b,
            _ => a,
        };
        assert(result == compute(opcode, a, b));
        match self.store(i.arg1(), result) {
            Ok(()) => {
                self.flag = result;
                self.advance();
            },
            Err(e) => {
                self.fault(e);
            },
        }
    }

    /// Runs a jump.
    fn jump(&mut self, program: &Program, i: &Instruction)
        requires
            old(self).wf(),
            program.wf(),
            old(self)@.pc < u32::MAX,
        ensures
            final(self).wf(),
            final(self)@ == old(self)@.jump(program@, i@),
    {
        let target = match self.value_of(program, i.arg1()) {
            Ok(target) => target,
            Err(e) => {
                self.fault(e);
                return ;
            },
        };
        let operand = match self.value_of(program, i.arg2()) {
            Ok(operand) => operand,
            Err(e) => {
                self.fault(e);
                return ;
            },
        };
        let taken = match i.opcode() {
            Opcode::JMP => true,
            Opcode::JNZ => self.flag != 0,
            Opcode::JE => self.flag == operand,
            Opcode::JNE => self.flag != operand,
            Opcode::JLT => self.flag < operand,
            Opcode::JGT => self.flag > operand,
            _ => false,
        };
        if taken {
            self.pc = target;
        } else {
            self.advance();
        }
    }

    /// Runs `FCALL`.
    fn call(&mut self, program: &Program, i: &Instruction)
        requires
            old(self).wf(),
            program.wf(),
        ensures
            final(self).wf(),
            final(self)@ == old(self)@.call(program@, i@),
    {
        if i.arg1().is_some() {
            match self.value_of(program, i.arg1()) {
                Ok(target) => {
                    if self.sp == u32::MAX {
                        self.fault(RuntimeError::OutOfBounds);
                    } else {
                        self.stack.push(self.pc);
                        self.sp = self.sp + 1;
                        self.pc = target;
                    }
                },
                Err(e) => {
                    self.fault(e);
                },
            }
        } else if self.sp == 0 {
            self.fault(RuntimeError::StackUnderflow);
        } else {
            let saved = self.stack[self.stack.len() - 1];
            if saved as usize >= program.len() {
                self.fault(RuntimeError::OutOfBounds);
            } else {
                let _ = self.stack.pop();
                self.sp = self.sp - 1;
                self.pc = saved + 1;
            }
        }
    }

    /// Runs `PUSH`.
    fn push(&mut self, program: &Program, i: &Instruction)
        requires
            old(self).wf(),
            program.wf(),
            old(self)@.pc < u32::MAX,
        ensures
            final(self).wf(),
            final(self)@ == old(self)@.push(program@, i@),
    {
        match self.value_of(program, i.arg1()) {
            Ok(value) => {
                if self.sp == u32::MAX {
                    self.fault(RuntimeError::OutOfBounds);
                } else {
                    self.stack.push(value);
                    self.sp = self.sp + 1;
                    self.advance();
                }
            },
            Err(e) => {
                self.fault(e);
            },
        }
    }

    /// Runs `POP`.
    fn pop(&mut self, i: &Instruction)
        requires
            old(self).wf(),
            old(self)@.pc < u32::MAX,
        ensures
            final(self).wf(),
            final(self)@ == old(self)@.pop(i@),
    {
        if self.sp == 0 {
            self.fault(RuntimeError::StackUnderflow);
            return ;
        }
        let top = self.stack[self.stack.len() - 1];
        match self.store(i.arg1(), top) {
            Ok(()) => {
                let _ = self.stack.pop();
                self.sp = self.sp - 1;
                self.advance();
            },
            Err(e) => {
                self.fault(e);
            },
        }
    }

    /// Runs `FETCH_READ`.
    fn fetch_read(&mut self, program: &Program, i: &Instruction)
        requires
            old(self).wf(),
            program.wf(),
            old(self)@.pc < u32::MAX,
        ensures
            final(self).wf(),
            final(self)@ == old(self)@.fetch_read(program@, i@),
    {
        match self.value_of(program, i.arg1()) {
            Ok(value) => match self.store(i.arg2(), value) {
                Ok(()) => {
                    self.advance();
                },
                Err(e) => {
                    self.fault(e);
                },
            },
            Err(e) => {
                self.fault(e);
            },
        }
    }

    /// Runs `FETCH_WRITE`.
    fn fetch_write(&mut self, program: &Program, i: &Instruction)
        requires
            old(self).wf(),
            program.wf(),
            old(self)@.pc < u32::MAX,
        ensures
            final(self).wf(),
            final(self)@ == old(self)@.fetch_write(program@, i@),
    {
        match self.value_of(program, i.arg2()) {
            Ok(value) => match self.store(i.arg1(), value) {
                Ok(()) => {
                    self.advance();
                },
                Err(e) => {
                    self.fault(e);
                },
            },
            Err(e) => {
                self.fault(e);
            },
        }
    }

    /// Runs `ECHO`: what it hands out is added to `sink`.
    fn echo(&mut self, program: &Program, i: &Instruction, sink: &mut Vec<Output>)
        requires
            old(self).wf(),
            program.wf(),
            old(self)@.pc < u32::MAX,
        ensures
            final(self).wf(),
            final(self)@ == old(self)@.echo(program@, i@),
            output_views(final(sink)@) == match old(self)@.echoed(program@, i@) {
                Some(output) => output_views(old(sink)@).push(output),
                None => output_views(old(sink)@),
            },
    {
        let output = match i.arg1() {
            Some(Argument::String(text)) => Output::Text(text.clone()),
            arg => match self.value_of(program, arg) {
                Ok(value) => Output::Number(value),
                Err(e) => {
                    self.fault(e);
                    return ;
                },
            },
        };
        sink.push(output);
        assert(output_views(sink@) == output_views(old(sink)@).push(output@));
        self.advance();
    }

    /// Runs one step: nothing where the machine does not run, the halt where
    /// the program is over, else the instruction at the program counter.
    /// What that instruction hands out is added to `sink`.
    pub fn step(&mut self, program: &Program, sink: &mut Vec<Output>)
        requires
            old(self).wf(),
            program.wf(),
        ensures
            final(self).wf(),
            final(self)@ == old(self)@.step(program@),
            output_views(final(sink)@) == match old(self)@.step_output(program@) {
                Some(output) => output_views(old(sink)@).push(output),
                None => output_views(old(sink)@),
            },
    {
        if self.status != Status::Running {
            return ;
        }
        let i = match program.instruction(self.pc as usize) {
            Some(i) => i,
            None => {
                self.status = Status::Halted;
                return ;
            },
        };
        match i.opcode() {
            Opcode::ADD | Opcode::SUB | Opcode::MUL | Opcode::DIV => self.arithmetic(program, i),
            Opcode::JMP | Opcode::JNE | Opcode::JE | Opcode::JLT | Opcode::JGT | Opcode::JNZ => self.jump(
                program,
                i,
            ),
            Opcode::FCALL => self.call(program, i),
            Opcode::ECHO => self.echo(program, i, sink),
            Opcode::PUSH => self.push(program, i),
            Opcode::POP => self.pop(i),
            Opcode::FETCH_READ => self.fetch_read(program, i),
            Opcode::FETCH_WRITE => self.fetch_write(program, i),
        }
    }

    /// Runs the program until the machine stops, for `steps` steps at most.
    /// What the program hands out is added to `sink`. The result is the
    /// error on which the machine stopped, if it did; a machine that has
    /// halted and one that still runs both give `Ok`, and `status` tells
    /// them apart.
    pub fn run(&mut self, program: &Program, steps: u64, sink: &mut Vec<Output>) -> (r: Result<
        (),
        RuntimeError,
    >)
        requires
            old(self).wf(),
            program.wf(),
        ensures
            final(self).wf(),
            final(self)@ == old(self)@.run(program@, steps as nat),
            output_views(final(sink)@) == output_views(old(sink)@) + old(self)@.run_output(
                program@,
                steps as nat,
            ),
            match r {
                Ok(_) => !(final(self)@.status is Faulted),
                Err(e) => final(self)@.status == Status::Faulted(e),
            },
    {
        let mut done: u64 = 0;
        assert(output_views(sink@) + self@.run_output(program@, steps as nat) == output_views(
            old(sink)@,
        ) + old(self)@.run_output(program@, steps as nat));
        while done < steps
            invariant
                self.wf(),
                program.wf(),
                done <= steps,
                self@.run(program@, (steps - done) as nat) == old(self)@.run(
                    program@,
                    steps as nat,
                ),
                output_views(sink@) + self@.run_output(program@, (steps - done) as nat)
                    == output_views(old(sink)@) + old(self)@.run_output(program@, steps as nat),
            ensures
                done == steps || self@.status != Status::Running,
            decreases steps - done,
        {
            if self.status != Status::Running {
                break ;
            }
            let ghost before = self@;
            let ghost written = output_views(sink@);
            let ghost left = (steps - done) as nat;
            self.step(program, sink);
            done = done + 1;
            proof {
                let rest = self@.run_output(program@, (left - 1) as nat);
                match before.step_output(program@) {
                    Some(output) => {
                        assert(written.push(output) + rest == written + (seq![output] + rest));
                    },
                    None => {},
                }
            }
        }
        proof {
            assert(output_views(sink@) + Seq::<OutputView>::empty() == output_views(sink@));
        }
        match self.status {
            Status::Faulted(e) => Err(e),
            _ => Ok(()),
        }
    }
}

} // verus!
