//! Programs: instructions in the order in which they run, and the labels that
//! name places among them.

use vstd::prelude::*;

use crate::instruction::{Argument, ArgumentView, Instruction, InstructionView};
use crate::names::NameTable;

verus! {

/// What is wrong with a source text.
#[derive(Debug, PartialEq, Eq)]
pub enum ParseError {
    /// Where an operation should stand there is no name of one.
    UnknownOpcode,
    /// The operands are not those that the operation takes, in number or in
    /// kind.
    ArityMismatch,
    /// An operand is none of a label, a memory reference, a string, a number
    /// and a register name; or a label is defined without a name.
    MalformedOperand,
    /// An operand names a label that the text does not define.
    UndefinedLabel(String),
}

pub enum ParseErrorView {
    UnknownOpcode,
    ArityMismatch,
    MalformedOperand,
    UndefinedLabel(Seq<char>),
}

impl View for ParseError {
    type V = ParseErrorView;

    open spec fn view(&self) -> ParseErrorView {
        match self {
            ParseError::UnknownOpcode => ParseErrorView::UnknownOpcode,
            ParseError::ArityMismatch => ParseErrorView::ArityMismatch,
            ParseError::MalformedOperand => ParseErrorView::MalformedOperand,
            ParseError::UndefinedLabel(name) => ParseErrorView::UndefinedLabel(name@),
        }
    }
}

/// What a program is: its instructions, and the index that each label names.
pub struct ProgramView {
    pub instructions: Seq<InstructionView>,
    pub labels: Map<Seq<char>, u32>,
}

/// The label that `arg` names without `labels` defining it, if `arg` does so.
pub open spec fn undefined_label(arg: Option<ArgumentView>, labels: Map<Seq<char>, u32>) -> Option<
    Seq<char>,
> {
    match arg {
        Some(ArgumentView::Label(name)) => if labels.contains_key(name) {
            None
        } else {
            Some(name)
        },
        _ => None,
    }
}

/// The first label that an operand of `instruction` names without `labels`
/// defining it.
pub open spec fn undefined_in(instruction: InstructionView, labels: Map<Seq<char>, u32>) -> Option<
    Seq<char>,
> {
    match undefined_label(instruction.arg1, labels) {
        Some(name) => Some(name),
        None => undefined_label(instruction.arg2, labels),
    }
}

/// The first label that an operand of `instructions[from..]` names without
/// `labels` defining it.
pub open spec fn first_undefined(
    instructions: Seq<InstructionView>,
    labels: Map<Seq<char>, u32>,
    from: nat,
) -> Option<Seq<char>>
    decreases instructions.len() - from,
{
    if from >= instructions.len() {
        None
    } else {
        match undefined_in(instructions[from as int], labels) {
            Some(name) => Some(name),
            None => first_undefined(instructions, labels, from + 1),
        }
    }
}

/// Every label names an index that is `count` at most.
pub open spec fn labels_in_range(labels: Map<Seq<char>, u32>, count: nat) -> bool {
    forall|name: Seq<char>| labels.contains_key(name) ==> #[trigger] labels[name] <= count
}

impl ProgramView {
    /// Every instruction has the operands that its operation takes, every
    /// label that an operand names is defined, every label names the index
    /// of an instruction or the end of the program, and the instructions can
    /// be counted in a register.
    pub open spec fn wf(self) -> bool {
        &&& self.instructions.len() <= u32::MAX
        &&& labels_in_range(self.labels, self.instructions.len())
        &&& forall|i: int|
            0 <= i < self.instructions.len() ==> (#[trigger] self.instructions[i]).well_shaped()
        &&& forall|i: int|
            0 <= i < self.instructions.len() ==> undefined_in(
                #[trigger] self.instructions[i],
                self.labels,
            ) is None
    }
}

/// Where no operand from `from` on names an undefined label, none of the
/// instructions from there on does.
pub proof fn lemma_first_undefined_none(
    instructions: Seq<InstructionView>,
    labels: Map<Seq<char>, u32>,
    from: nat,
)
    requires
        first_undefined(instructions, labels, from) is None,
    ensures
        forall|i: int|
            from <= i < instructions.len() ==> undefined_in(#[trigger] instructions[i], labels)
                is None,
    decreases instructions.len() - from,
{
    if from < instructions.len() {
        lemma_first_undefined_none(instructions, labels, from + 1);
    }
}

/// The views of the instructions of `v`.
pub open spec fn instruction_views(v: Seq<Instruction>) -> Seq<InstructionView> {
    Seq::new(v.len(), |i: int| v[i]@)
}

/// A program: instructions in the order in which they run, and a table that
/// gives each label the index of an instruction.
#[derive(Debug)]
pub struct Program {
    instructions: Vec<Instruction>,
    labels: NameTable,
}

impl View for Program {
    type V = ProgramView;

    closed spec fn view(&self) -> ProgramView {
        ProgramView { instructions: instruction_views(self.instructions@), labels: self.labels@ }
    }
}

/// The label that `arg` names without `labels` defining it, if `arg` does so.
fn check_label(arg: &Option<Argument>, labels: &NameTable) -> (r: Option<String>)
    requires
        labels.wf(),
    ensures
        match r {
            Some(name) => undefined_label(crate::instruction::argument_view(*arg), labels@) == Some(
                name@,
            ),
            None => undefined_label(crate::instruction::argument_view(*arg), labels@) is None,
        },
{
    match arg {
        Some(Argument::Label(name)) => {
            if labels.get(name).is_none() {
                Some(name.clone())
            } else {
                None
            }
        },
        _ => None,
    }
}

impl Program {
    /// The table of labels is in order.
    pub closed spec fn labels_wf(&self) -> bool {
        self.labels.wf()
    }

    /// The program is one that a machine can run.
    pub open spec fn wf(&self) -> bool {
        self.labels_wf() && self@.wf()
    }

    /// Makes a program of `instructions` and `labels`, if every label that an
    /// operand names is defined; else says which label is the first that is
    /// not. The instructions must be well shaped and no more than a register
    /// counts, and no label may point behind the end of the program.
    pub fn resolve(instructions: Vec<Instruction>, labels: NameTable) -> (r: Result<
        Program,
        ParseError,
    >)
        requires
            labels.wf(),
            instructions@.len() <= u32::MAX,
            labels_in_range(labels@, instructions@.len() as nat),
            forall|i: int|
                0 <= i < instructions@.len() ==> (#[trigger] instructions@[i])@.well_shaped(),
        ensures
            match r {
                Ok(program) => {
                    &&& first_undefined(instruction_views(instructions@), labels@, 0) is None
                    &&& program.wf()
                    &&& program@ == (ProgramView {
                        instructions: instruction_views(instructions@),
                        labels: labels@,
                    })
                },
                Err(e) => {
                    &&& first_undefined(instruction_views(instructions@), labels@, 0) matches Some(
                        name,
                    )
                    &&& e@ == ParseErrorView::UndefinedLabel(name)
                },
            },
    {
        let ghost views = instruction_views(instructions@);
        let mut i: usize = 0;
        while i < instructions.len()
            invariant
                i <= instructions.len(),
                labels.wf(),
                views == instruction_views(instructions@),
                first_undefined(views, labels@, 0) == first_undefined(views, labels@, i as nat),
            decreases instructions.len() - i,
        {
            let instruction = &instructions[i];
            assert(views[i as int] == instruction@);
            match check_label(instruction.arg1(), &labels) {
                Some(name) => {
                    return Err(ParseError::UndefinedLabel(name));
                },
                None => {},
            }
            match check_label(instruction.arg2(), &labels) {
                Some(name) => {
                    return Err(ParseError::UndefinedLabel(name));
                },
                None => {},
            }
            i += 1;
        }
        proof {
            lemma_first_undefined_none(views, labels@, 0);
        }
        Ok(Program { instructions, labels })
    }

    /// The number of instructions.
    pub fn len(&self) -> (n: usize)
        ensures
            n == self@.instructions.len(),
    {
        self.instructions.len()
    }

    /// The instruction at `index`.
    pub fn instruction(&self, index: usize) -> (instruction: Option<&Instruction>)
        ensures
            match instruction {
                Some(found) => index < self@.instructions.len() && found@
                    == self@.instructions[index as int],
                None => index >= self@.instructions.len(),
            },
    {
        if index < self.instructions.len() {
            Some(&self.instructions[index])
        } else {
            None
        }
    }

    /// The index that `name` names, if the program defines that label.
    pub fn label(&self, name: &String) -> (index: Option<u32>)
        requires
            self.wf(),
        ensures
            index == if self@.labels.contains_key(name@) {
                Some(self@.labels[name@])
            } else {
                None
            },
    {
        self.labels.get(name)
    }
}

} // verus!
