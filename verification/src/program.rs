use vstd::prelude::*;
use crate::errors::{RuntimeError, RuntimeErrorView};

verus! {

/// An instruction argument that supplies a value: a literal, the contents of
/// a register, or the contents of the register whose index is stored in a
/// register (one level of indirection).
#[derive(Clone, Copy, Debug, PartialEq, Eq, Structural)]
pub enum Operand {
    Immediate(u64),
    DirectAddress(usize),
    IndirectAddress(usize),
}

/// An instruction argument that supplies a location to write to; there is no
/// immediate form.
#[derive(Clone, Copy, Debug, PartialEq, Eq, Structural)]
pub enum Address {
    Direct(usize),
    Indirect(usize),
}

/// One machine instruction.
#[derive(Debug, PartialEq, Eq)]
pub enum Instruction {
    Load(Operand),
    Store(Address),
    Add(Operand),
    Sub(Operand),
    Mul(Operand),
    Div(Operand),
    Goto(String),
    Jzero(String),
    Jnzero(String),
    End,
}

/// Mathematical image of an `Instruction`: label names become character
/// sequences.
pub ghost enum InstructionView {
    Load(Operand),
    Store(Address),
    Add(Operand),
    Sub(Operand),
    Mul(Operand),
    Div(Operand),
    Goto(Seq<char>),
    Jzero(Seq<char>),
    Jnzero(Seq<char>),
    End,
}

impl View for Instruction {
    type V = InstructionView;

    open spec fn view(&self) -> InstructionView {
        match self {
            Instruction::Load(op) => InstructionView::Load(*op),
            Instruction::Store(a) => InstructionView::Store(*a),
            Instruction::Add(op) => InstructionView::Add(*op),
            Instruction::Sub(op) => InstructionView::Sub(*op),
            Instruction::Mul(op) => InstructionView::Mul(*op),
            Instruction::Div(op) => InstructionView::Div(*op),
            Instruction::Goto(l) => InstructionView::Goto(l@),
            Instruction::Jzero(l) => InstructionView::Jzero(l@),
            Instruction::Jnzero(l) => InstructionView::Jnzero(l@),
            Instruction::End => InstructionView::End,
        }
    }
}

impl Clone for Instruction {
    fn clone(&self) -> (r: Instruction)
        ensures
            r@ == self@,
    {
        match self {
            Instruction::Load(op) => Instruction::Load(*op),
            Instruction::Store(a) => Instruction::Store(*a),
            Instruction::Add(op) => Instruction::Add(*op),
            Instruction::Sub(op) => Instruction::Sub(*op),
            Instruction::Mul(op) => Instruction::Mul(*op),
            Instruction::Div(op) => Instruction::Div(*op),
            Instruction::Goto(l) => Instruction::Goto(l.clone()),
            Instruction::Jzero(l) => Instruction::Jzero(l.clone()),
            Instruction::Jnzero(l) => Instruction::Jnzero(l.clone()),
            Instruction::End => Instruction::End,
        }
    }
}

/// An instruction together with the 1-based source line it came from.
#[derive(Debug)]
pub struct Line {
    instruction: Instruction,
    line_number: usize,
}

/// Mathematical image of a `Line`.
pub ghost struct LineView {
    pub instruction: InstructionView,
    pub line_number: nat,
}

impl View for Line {
    type V = LineView;

    closed spec fn view(&self) -> LineView {
        LineView {
            instruction: self.instruction@,
            line_number: self.line_number as nat,
        }
    }
}

impl Clone for Line {
    fn clone(&self) -> (r: Line)
        ensures
            r@ == self@,
    {
        Line {
            instruction: self.instruction.clone(),
            line_number: self.line_number,
        }
    }
}

impl Line {
    pub fn new(instruction: Instruction, line_number: usize) -> (l: Line)
        ensures
            l@.instruction == instruction@,
            l@.line_number == line_number as nat,
    {
        Line { instruction, line_number }
    }

    pub fn instruction(&self) -> (i: &Instruction)
        ensures
            i@ == self@.instruction,
    {
        &self.instruction
    }

    pub fn line_number(&self) -> (n: usize)
        ensures
            n as nat == self@.line_number,
    {
        self.line_number
    }
}

/// The label table as a sequence of definitions, read as a map in which a
/// later definition of the same name wins, as an insertion into a map would.
pub open spec fn spec_label_map(entries: Seq<(String, usize)>) -> Map<Seq<char>, usize>
    decreases entries.len(),
{
    if entries.len() == 0 {
        Map::empty()
    } else {
        spec_label_map(entries.drop_last()).insert(entries.last().0@, entries.last().1)
    }
}

/// Accumulates instructions and label definitions, then builds a `Program`.
#[derive(Debug)]
pub struct ProgramBuilder {
    lines: Vec<Line>,
    labels: Vec<(String, usize)>,
}

/// Mathematical image of a `ProgramBuilder`.
pub ghost struct ProgramBuilderView {
    pub lines: Seq<LineView>,
    pub labels: Map<Seq<char>, usize>,
}

impl View for ProgramBuilder {
    type V = ProgramBuilderView;

    closed spec fn view(&self) -> ProgramBuilderView {
        ProgramBuilderView {
            lines: self.lines@.map_values(|l: Line| l@),
            labels: spec_label_map(self.labels@),
        }
    }
}

impl ProgramBuilder {
    pub fn new() -> (b: ProgramBuilder)
        ensures
            b@.lines == Seq::<LineView>::empty(),
            b@.labels == Map::<Seq<char>, usize>::empty(),
    {
        let b = ProgramBuilder { lines: Vec::new(), labels: Vec::new() };
        proof {
            assert(b.lines@.map_values(|l: Line| l@) =~= Seq::<LineView>::empty());
        }
        b
    }

    /// Append one instruction line.
    pub fn add_line(&mut self, line: Line)
        ensures
            final(self)@.lines == old(self)@.lines.push(line@),
            final(self)@.labels == old(self)@.labels,
    {
        proof {
            assert(self.lines@.push(line).map_values(|l: Line| l@) =~= self.lines@.map_values(
                |l: Line| l@,
            ).push(line@));
        }
        self.lines.push(line);
    }

    /// Bind `label` to the instruction index `position`; a later binding of
    /// the same name replaces an earlier one.
    pub fn add_label(&mut self, label: String, position: usize)
        ensures
            final(self)@.labels == old(self)@.labels.insert(label@, position),
            final(self)@.lines == old(self)@.lines,
    {
        self.labels.push((label, position));
        proof {
            assert(self.labels@.drop_last() =~= old(self).labels@);
        }
    }

    /// Whether `label` is already bound.
    pub fn label_exists(&self, label: &String) -> (b: bool)
        ensures
            b == self@.labels.contains_key(label@),
    {
        let n = self.labels.len();
        let mut i: usize = 0;
        while i < n
            invariant
                n == self.labels@.len(),
                i <= n,
                forall|j: int| 0 <= j < i ==> self.labels@[j].0@ != label@,
            decreases n - i,
        {
            if self.labels[i].0 == *label {
                proof {
                    lemma_label_map_contains(self.labels@, label@);
                }
                return true;
            }
            i += 1;
        }
        proof {
            lemma_label_map_contains(self.labels@, label@);
        }
        false
    }

    /// The index the next instruction will get.
    pub fn current_instruction_index(&self) -> (i: usize)
        ensures
            i as nat == self@.lines.len(),
    {
        self.lines.len()
    }

    /// Freeze the accumulated lines and labels into a `Program` whose cursor
    /// starts at instruction 0.
    pub fn build(self) -> (p: Program)
        ensures
            p@.lines == self@.lines,
            p@.labels == self@.labels,
            p@.program_counter == 0,
    {
        Program { lines: self.lines, labels: self.labels, program_counter: 0 }
    }
}

/// A name is in the label map exactly when some entry bears it.
proof fn lemma_label_map_contains(entries: Seq<(String, usize)>, name: Seq<char>)
    ensures
        spec_label_map(entries).contains_key(name) <==> exists|j: int|
            0 <= j < entries.len() && entries[j].0@ == name,
    decreases entries.len(),
{
    if entries.len() > 0 {
        lemma_label_map_contains(entries.drop_last(), name);
        if entries.last().0@ != name && spec_label_map(entries.drop_last()).contains_key(name) {
            let j = choose|j: int|
                0 <= j < entries.drop_last().len() && entries.drop_last()[j].0@ == name;
            assert(entries[j].0@ == name);
        }
        if exists|j: int| 0 <= j < entries.len() && entries[j].0@ == name {
            let j = choose|j: int| 0 <= j < entries.len() && entries[j].0@ == name;
            if j < entries.len() - 1 {
                assert(entries.drop_last()[j].0@ == name);
            }
        }
    }
}

/// The value the label map gives a name is the one of the last entry bearing
/// that name.
proof fn lemma_label_map_last(entries: Seq<(String, usize)>, name: Seq<char>, j: int)
    requires
        0 <= j < entries.len(),
        entries[j].0@ == name,
        forall|k: int| j < k < entries.len() ==> entries[k].0@ != name,
    ensures
        spec_label_map(entries).contains_key(name),
        spec_label_map(entries)[name] == entries[j].1,
    decreases entries.len(),
{
    if j == entries.len() - 1 {
    } else {
        assert(entries.drop_last()[j] == entries[j]);
        lemma_label_map_last(entries.drop_last(), name, j);
    }
}

/// Immutable instruction sequence, label table, and a cursor (the program
/// counter) for sequential fetch and label-directed jumps.
#[derive(Debug)]
pub struct Program {
    lines: Vec<Line>,
    labels: Vec<(String, usize)>,
    program_counter: usize,
}

/// Mathematical image of a `Program`.
pub ghost struct ProgramView {
    pub lines: Seq<LineView>,
    pub labels: Map<Seq<char>, usize>,
    pub program_counter: nat,
}

impl View for Program {
    type V = ProgramView;

    closed spec fn view(&self) -> ProgramView {
        ProgramView {
            lines: self.lines@.map_values(|l: Line| l@),
            labels: spec_label_map(self.labels@),
            program_counter: self.program_counter as nat,
        }
    }
}

impl Program {
    /// The line under the cursor, or `None` when the cursor is past the end
    /// (which execution treats as an implicit `end`).
    pub fn fetch(&mut self) -> (r: Option<Line>)
        ensures
            final(self)@ == old(self)@,
            old(self)@.program_counter < old(self)@.lines.len() ==> (r matches Some(l) && l@
                == old(self)@.lines[old(self)@.program_counter as int]),
            old(self)@.program_counter >= old(self)@.lines.len() ==> r is None,
    {
        if self.program_counter < self.lines.len() {
            Some(self.lines[self.program_counter].clone())
        } else {
            None
        }
    }

    /// Move the cursor to the next instruction. Advancing is only meaningful
    /// from an instruction that exists, which also keeps the cursor within
    /// the index range.
    pub fn advance(&mut self)
        requires
            old(self)@.program_counter < old(self)@.lines.len(),
        ensures
            final(self)@.program_counter == old(self)@.program_counter + 1,
            final(self)@.lines == old(self)@.lines,
            final(self)@.labels == old(self)@.labels,
    {
        let n = self.lines.len();
        self.program_counter = self.program_counter + 1;
    }

    /// Move the cursor to the instruction index bound to `label`, or fail
    /// with `UnknownLabel` when the program never defines that label.
    pub fn goto(&mut self, label: &String) -> (r: Result<(), RuntimeError>)
        ensures
            final(self)@.lines == old(self)@.lines,
            final(self)@.labels == old(self)@.labels,
            old(self)@.labels.contains_key(label@) ==> {
                &&& r is Ok
                &&& final(self)@.program_counter == old(self)@.labels[label@] as nat
            },
            !old(self)@.labels.contains_key(label@) ==> {
                &&& r matches Err(e) && e@ == RuntimeErrorView::UnknownLabel(label@)
                &&& final(self)@ == old(self)@
            },
    {
        let n = self.labels.len();
        let mut i: usize = n;
        while i > 0
            invariant
                self.lines == old(self).lines,
                self.labels == old(self).labels,
                self.program_counter == old(self).program_counter,
                n == self.labels@.len(),
                i <= n,
                forall|k: int| i <= k < n ==> self.labels@[k].0@ != label@,
            decreases i,
        {
            i = i - 1;
            if self.labels[i].0 == *label {
                proof {
                    lemma_label_map_last(self.labels@, label@, i as int);
                }
                self.program_counter = self.labels[i].1;
                return Ok(());
            }
        }
        proof {
            lemma_label_map_contains(self.labels@, label@);
        }
        Err(RuntimeError::UnknownLabel { label: label.clone() })
    }
}

} // verus!
