//! Instructions: the operations of the machine, their operands, and the
//! operands that each operation takes.

use vstd::prelude::*;

use crate::text::chars_of;

verus! {

/// The operations of the machine.
#[allow(non_camel_case_types)]
#[derive(Debug, Clone, Copy, PartialEq, Eq, Structural)]
pub enum Opcode {
    ADD,
    SUB,
    MUL,
    DIV,
    JMP,
    JNE,
    JE,
    JLT,
    JGT,
    JNZ,
    FCALL,
    ECHO,
    PUSH,
    POP,
    FETCH_READ,
    FETCH_WRITE,
}

/// The name under which the source text writes an operation: upper case only.
pub open spec fn mnemonic(op: Opcode) -> Seq<char> {
    match op {
        Opcode::ADD => "ADD"@,
        Opcode::SUB => "SUB"@,
        Opcode::MUL => "MUL"@,
        Opcode::DIV => "DIV"@,
        Opcode::JMP => "JMP"@,
        Opcode::JNE => "JNE"@,
        Opcode::JE => "JE"@,
        Opcode::JLT => "JLT"@,
        Opcode::JGT => "JGT"@,
        Opcode::JNZ => "JNZ"@,
        Opcode::FCALL => "FCALL"@,
        Opcode::ECHO => "ECHO"@,
        Opcode::PUSH => "PUSH"@,
        Opcode::POP => "POP"@,
        Opcode::FETCH_READ => "FETCH_READ"@,
        Opcode::FETCH_WRITE => "FETCH_WRITE"@,
    }
}

/// The operation that `name` writes, letter for letter; none if no operation
/// has that name.
pub open spec fn opcode_named(name: Seq<char>) -> Option<Opcode> {
    if name == mnemonic(Opcode::ADD) {
        Some(Opcode::ADD)
    } else if name == mnemonic(Opcode::SUB) {
        Some(Opcode::SUB)
    } else if name == mnemonic(Opcode::MUL) {
        Some(Opcode::MUL)
    } else if name == mnemonic(Opcode::DIV) {
        Some(Opcode::DIV)
    } else if name == mnemonic(Opcode::JMP) {
        Some(Opcode::JMP)
    } else if name == mnemonic(Opcode::JNE) {
        Some(Opcode::JNE)
    } else if name == mnemonic(Opcode::JE) {
        Some(Opcode::JE)
    } else if name == mnemonic(Opcode::JLT) {
        Some(Opcode::JLT)
    } else if name == mnemonic(Opcode::JGT) {
        Some(Opcode::JGT)
    } else if name == mnemonic(Opcode::JNZ) {
        Some(Opcode::JNZ)
    } else if name == mnemonic(Opcode::FCALL) {
        Some(Opcode::FCALL)
    } else if name == mnemonic(Opcode::ECHO) {
        Some(Opcode::ECHO)
    } else if name == mnemonic(Opcode::PUSH) {
        Some(Opcode::PUSH)
    } else if name == mnemonic(Opcode::POP) {
        Some(Opcode::POP)
    } else if name == mnemonic(Opcode::FETCH_READ) {
        Some(Opcode::FETCH_READ)
    } else if name == mnemonic(Opcode::FETCH_WRITE) {
        Some(Opcode::FETCH_WRITE)
    } else {
        None
    }
}

/// Every operation is found again under its own name.
pub proof fn lemma_opcode_named_mnemonic(op: Opcode)
    ensures
        opcode_named(mnemonic(op)) == Some(op),
{
    reveal_strlit("ADD");
    reveal_strlit("SUB");
    reveal_strlit("MUL");
    reveal_strlit("DIV");
    reveal_strlit("JMP");
    reveal_strlit("JNE");
    reveal_strlit("JE");
    reveal_strlit("JLT");
    reveal_strlit("JGT");
    reveal_strlit("JNZ");
    reveal_strlit("FCALL");
    reveal_strlit("ECHO");
    reveal_strlit("PUSH");
    reveal_strlit("POP");
    reveal_strlit("FETCH_READ");
    reveal_strlit("FETCH_WRITE");
    let name = mnemonic(op);
    match op {
        Opcode::ADD => {},
        Opcode::SUB => {
            assert(name[0] != "ADD"@[0]);
        },
        Opcode::MUL => {
            assert(name[0] != "ADD"@[0] && name[0] != "SUB"@[0]);
        },
        Opcode::DIV => {
            assert(name[0] != "ADD"@[0] && name[0] != "SUB"@[0] && name[0] != "MUL"@[0]);
        },
        Opcode::JMP => {
            assert(name[0] != "ADD"@[0] && name[0] != "SUB"@[0] && name[0] != "MUL"@[0] && name[0]
                != "DIV"@[0]);
        },
        Opcode::JNE => {
            assert(name[0] != "ADD"@[0] && name[0] != "SUB"@[0] && name[0] != "MUL"@[0] && name[0]
                != "DIV"@[0]);
            assert(name[1] != "JMP"@[1]);
        },
        Opcode::JE => {
            assert(name.len() == 2);
        },
        Opcode::JLT => {
            assert(name[0] != "ADD"@[0] && name[0] != "SUB"@[0] && name[0] != "MUL"@[0] && name[0]
                != "DIV"@[0]);
            assert(name[1] != "JMP"@[1] && name[1] != "JNE"@[1]);
            assert(name.len() != "JE"@.len());
        },
        Opcode::JGT => {
            assert(name[0] != "ADD"@[0] && name[0] != "SUB"@[0] && name[0] != "MUL"@[0] && name[0]
                != "DIV"@[0]);
            assert(name[1] != "JMP"@[1] && name[1] != "JNE"@[1] && name[1] != "JLT"@[1]);
            assert(name.len() != "JE"@.len());
        },
        Opcode::JNZ => {
            assert(name[0] != "ADD"@[0] && name[0] != "SUB"@[0] && name[0] != "MUL"@[0] && name[0]
                != "DIV"@[0]);
            assert(name[1] != "JMP"@[1] && name[1] != "JLT"@[1] && name[1] != "JGT"@[1]);
            assert(name[2] != "JNE"@[2]);
            assert(name.len() != "JE"@.len());
        },
        Opcode::FCALL => {
            assert(name.len() == 5);
        },
        Opcode::ECHO => {
            assert(name.len() == 4);
        },
        Opcode::PUSH => {
            assert(name.len() == 4);
            assert(name[0] != "ECHO"@[0]);
        },
        Opcode::POP => {
            assert(name[0] == 'P');
            assert(name.len() == 3);
        },
        Opcode::FETCH_READ => {
            assert(name.len() == 10);
        },
        Opcode::FETCH_WRITE => {
            assert(name.len() == 11);
        },
    }
}

/// Whether `v` is the text `literal`.
pub fn text_is(v: &Vec<char>, literal: &str) -> (b: bool)
    ensures
        b == (v@ == literal@),
{
    let w = chars_of(literal);
    if v.len() != w.len() {
        return false;
    }
    let mut i: usize = 0;
    while i < v.len()
        invariant
            i <= v.len(),
            v.len() == w.len(),
            w@ == literal@,
            forall|k: int| 0 <= k < i ==> v@[k] == w@[k],
        decreases v.len() - i,
    {
        if v[i] != w[i] {
            return false;
        }
        i += 1;
    }
    assert(v@ =~= w@);
    true
}

impl Opcode {
    /// The operation that `name` writes; the name must be in upper case.
    pub fn from_str(name: &str) -> (op: Option<Opcode>)
        ensures
            op == opcode_named(name@),
    {
        let v = chars_of(name);
        if text_is(&v, "ADD") {
            Some(Opcode::ADD)
        } else if text_is(&v, "SUB") {
            Some(Opcode::SUB)
        } else if text_is(&v, "MUL") {
            Some(Opcode::MUL)
        } else if text_is(&v, "DIV") {
            Some(Opcode::DIV)
        } else if text_is(&v, "JMP") {
            Some(Opcode::JMP)
        } else if text_is(&v, "JNE") {
            Some(Opcode::JNE)
        } else if text_is(&v, "JE") {
            Some(Opcode::JE)
        } else if text_is(&v, "JLT") {
            Some(Opcode::JLT)
        } else if text_is(&v, "JGT") {
            Some(Opcode::JGT)
        } else if text_is(&v, "JNZ") {
            Some(Opcode::JNZ)
        } else if text_is(&v, "FCALL") {
            Some(Opcode::FCALL)
        } else if text_is(&v, "ECHO") {
            Some(Opcode::ECHO)
        } else if text_is(&v, "PUSH") {
            Some(Opcode::PUSH)
        } else if text_is(&v, "POP") {
            Some(Opcode::POP)
        } else if text_is(&v, "FETCH_READ") {
            Some(Opcode::FETCH_READ)
        } else if text_is(&v, "FETCH_WRITE") {
            Some(Opcode::FETCH_WRITE)
        } else {
            None
        }
    }
}

/// An operand of an instruction.
#[derive(Debug, PartialEq, Eq)]
pub enum Argument {
    /// A number written in the source text: unsigned, in decimal digits,
    /// `u32::MAX` at most. The machine has no other numbers, so the source
    /// text has no sign, fraction or exponent.
    Literal(u32),
    /// The text between the quotes of a string, as it is written.
    String(String),
    /// The name of a register.
    Register(String),
    /// The name of a label.
    Label(String),
    /// The name between the brackets of a memory reference.
    Reference(String),
}

/// An operand, with its text as a sequence of characters.
pub enum ArgumentView {
    Literal(u32),
    String(Seq<char>),
    Register(Seq<char>),
    Label(Seq<char>),
    Reference(Seq<char>),
}

impl View for Argument {
    type V = ArgumentView;

    open spec fn view(&self) -> ArgumentView {
        match self {
            Argument::Literal(n) => ArgumentView::Literal(*n),
            Argument::String(s) => ArgumentView::String(s@),
            Argument::Register(s) => ArgumentView::Register(s@),
            Argument::Label(s) => ArgumentView::Label(s@),
            Argument::Reference(s) => ArgumentView::Reference(s@),
        }
    }
}

impl Clone for Argument {
    fn clone(&self) -> (a: Argument)
        ensures
            a@ == self@,
    {
        match self {
            Argument::Literal(n) => Argument::Literal(*n),
            Argument::String(s) => Argument::String(s.clone()),
            Argument::Register(s) => Argument::Register(s.clone()),
            Argument::Label(s) => Argument::Label(s.clone()),
            Argument::Reference(s) => Argument::Reference(s.clone()),
        }
    }
}

/// The view of an operand that may be absent.
pub open spec fn argument_view(arg: Option<Argument>) -> Option<ArgumentView> {
    match arg {
        Some(a) => Some(a@),
        None => None,
    }
}

/// What one operand slot of an operation takes: whether an operand must
/// stand there, and which kinds of operand may.
#[derive(Debug, Clone, Copy, PartialEq, Eq, Structural)]
pub struct Slot {
    pub required: bool,
    pub literal: bool,
    pub string: bool,
    pub register: bool,
    pub label: bool,
    pub reference: bool,
}

impl Slot {
    /// Whether `arg` may stand in this slot.
    pub open spec fn admits(self, arg: Option<ArgumentView>) -> bool {
        match arg {
            None => !self.required,
            Some(ArgumentView::Literal(_)) => self.literal,
            Some(ArgumentView::String(_)) => self.string,
            Some(ArgumentView::Register(_)) => self.register,
            Some(ArgumentView::Label(_)) => self.label,
            Some(ArgumentView::Reference(_)) => self.reference,
        }
    }

    /// Whether `arg` may stand in this slot.
    pub fn check(&self, arg: &Option<Argument>) -> (b: bool)
        ensures
            b == self.admits(argument_view(*arg)),
    {
        match arg {
            None => !self.required,
            Some(Argument::Literal(_)) => self.literal,
            Some(Argument::String(_)) => self.string,
            Some(Argument::Register(_)) => self.register,
            Some(Argument::Label(_)) => self.label,
            Some(Argument::Reference(_)) => self.reference,
        }
    }
}

/// A slot that must stay empty.
pub open spec fn spec_no_operand() -> Slot {
    Slot {
        required: false,
        literal: false,
        string: false,
        register: false,
        label: false,
        reference: false,
    }
}

#[verifier::when_used_as_spec(spec_no_operand)]
pub fn no_operand() -> (slot: Slot)
    ensures
        slot == spec_no_operand(),
{
    Slot {
        required: false,
        literal: false,
        string: false,
        register: false,
        label: false,
        reference: false,
    }
}

/// The two slots of an operation.
#[derive(Debug, Clone, Copy, PartialEq, Eq, Structural)]
pub struct Shape {
    pub first: Slot,
    pub second: Slot,
}

/// The operands that each operation takes.
///
/// - `ADD`, `SUB`, `MUL`, `DIV`: two operands, each a register, a memory
///   reference or a literal.
/// - `JMP`, `JNZ`: a label.
/// - `JNE`, `JE`, `JLT`, `JGT`: a label, and after it a register or nothing.
/// - `FCALL`: a label to call, or nothing to return.
/// - `ECHO`: a string, a literal or a register.
/// - `PUSH`: a literal, a register, a memory reference or a label.
/// - `POP`: a register or a memory reference.
/// - `FETCH_READ`, `FETCH_WRITE`: a memory reference, then a register.
pub open spec fn spec_shape_of(op: Opcode) -> Shape {
    match op {
        Opcode::ADD | Opcode::SUB | Opcode::MUL | Opcode::DIV => Shape {
            first: Slot { required: true, literal: true, register: true, reference: true, ..no_operand() },
            second: Slot { required: true, literal: true, register: true, reference: true, ..no_operand() },
        },
        Opcode::JMP | Opcode::JNZ => Shape {
            first: Slot { required: true, label: true, ..no_operand() },
            second: no_operand(),
        },
        Opcode::JNE | Opcode::JE | Opcode::JLT | Opcode::JGT => Shape {
            first: Slot { required: true, label: true, ..no_operand() },
            second: Slot { register: true, ..no_operand() },
        },
        Opcode::FCALL => Shape { first: Slot { label: true, ..no_operand() }, second: no_operand() },
        Opcode::ECHO => Shape {
            first: Slot { required: true, string: true, literal: true, register: true, ..no_operand() },
            second: no_operand(),
        },
        Opcode::PUSH => Shape {
            first: Slot {
                required: true,
                literal: true,
                register: true,
                reference: true,
                label: true,
                ..no_operand()
            },
            second: no_operand(),
        },
        Opcode::POP => Shape {
            first: Slot { required: true, register: true, reference: true, ..no_operand() },
            second: no_operand(),
        },
        Opcode::FETCH_READ | Opcode::FETCH_WRITE => Shape {
            first: Slot { required: true, reference: true, ..no_operand() },
            second: Slot { required: true, register: true, ..no_operand() },
        },
    }
}

#[verifier::when_used_as_spec(spec_shape_of)]
pub fn shape_of(op: Opcode) -> (shape: Shape)
    ensures
        shape == spec_shape_of(op),
{
    match op {
        Opcode::ADD | Opcode::SUB | Opcode::MUL | Opcode::DIV => Shape {
            first: Slot { required: true, literal: true, register: true, reference: true, ..no_operand() },
            second: Slot { required: true, literal: true, register: true, reference: true, ..no_operand() },
        },
        Opcode::JMP | Opcode::JNZ => Shape {
            first: Slot { required: true, label: true, ..no_operand() },
            second: no_operand(),
        },
        Opcode::JNE | Opcode::JE | Opcode::JLT | Opcode::JGT => Shape {
            first: Slot { required: true, label: true, ..no_operand() },
            second: Slot { register: true, ..no_operand() },
        },
        Opcode::FCALL => Shape { first: Slot { label: true, ..no_operand() }, second: no_operand() },
        Opcode::ECHO => Shape {
            first: Slot { required: true, string: true, literal: true, register: true, ..no_operand() },
            second: no_operand(),
        },
        Opcode::PUSH => Shape {
            first: Slot {
                required: true,
                literal: true,
                register: true,
                reference: true,
                label: true,
                ..no_operand()
            },
            second: no_operand(),
        },
        Opcode::POP => Shape {
            first: Slot { required: true, register: true, reference: true, ..no_operand() },
            second: no_operand(),
        },
        Opcode::FETCH_READ | Opcode::FETCH_WRITE => Shape {
            first: Slot { required: true, reference: true, ..no_operand() },
            second: Slot { required: true, register: true, ..no_operand() },
        },
    }
}

/// An operation with its operands.
#[derive(Debug, PartialEq, Eq)]
pub struct Instruction {
    opcode: Opcode,
    arg1: Option<Argument>,
    arg2: Option<Argument>,
}

/// An instruction, with its operands' texts as sequences of characters.
pub struct InstructionView {
    pub opcode: Opcode,
    pub arg1: Option<ArgumentView>,
    pub arg2: Option<ArgumentView>,
}

impl InstructionView {
    /// The operands are those that the operation takes.
    pub open spec fn well_shaped(self) -> bool {
        spec_shape_of(self.opcode).first.admits(self.arg1) && spec_shape_of(
            self.opcode,
        ).second.admits(self.arg2)
    }
}

impl View for Instruction {
    type V = InstructionView;

    closed spec fn view(&self) -> InstructionView {
        InstructionView {
            opcode: self.opcode,
            arg1: argument_view(self.arg1),
            arg2: argument_view(self.arg2),
        }
    }
}

impl Instruction {
    /// The instruction of `opcode` on the given operands, if they are those
    /// that the operation takes.
    pub fn new(opcode: Opcode, arg1: Option<Argument>, arg2: Option<Argument>) -> (r: Option<
        Instruction,
    >)
        ensures
            ({
                let view = InstructionView {
                    opcode,
                    arg1: argument_view(arg1),
                    arg2: argument_view(arg2),
                };
                match r {
                    Some(instruction) => view.well_shaped() && instruction@ == view,
                    None => !view.well_shaped(),
                }
            }),
    {
        let shape = shape_of(opcode);
        if shape.first.check(&arg1) && shape.second.check(&arg2) {
            Some(Instruction { opcode, arg1, arg2 })
        } else {
            None
        }
    }

    pub fn opcode(&self) -> (op: Opcode)
        ensures
            op == self@.opcode,
    {
        self.opcode
    }

    /// The first operand.
    pub fn arg1(&self) -> (arg: &Option<Argument>)
        ensures
            argument_view(*arg) == self@.arg1,
    {
        &self.arg1
    }

    /// The second operand.
    pub fn arg2(&self) -> (arg: &Option<Argument>)
        ensures
            argument_view(*arg) == self@.arg2,
    {
        &self.arg2
    }
}

} // verus!
