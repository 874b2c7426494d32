use vstd::prelude::*;
use crate::text::{spec_decimal, u64_to_string};

verus! {

/// Classification of a fault found while compiling source text.
#[derive(Clone, Copy, Debug, PartialEq, Eq, Structural)]
pub enum CompileErrorKind {
    UnknownToken,
    ExpectedToken,
    UnexpectedToken,
    DuplicateLabelDefinition,
    MissingArgument,
    InvalidArgument,
}

/// A single fault found while compiling, tied to the 1-based source line
/// where it was found and to the text that caused it.
#[derive(Debug)]
pub struct CompileError {
    line_number: usize,
    kind: CompileErrorKind,
    context: String,
}

/// Mathematical image of a `CompileError`.
pub ghost struct CompileErrorView {
    pub line_number: nat,
    pub kind: CompileErrorKind,
    pub context: Seq<char>,
}

impl View for CompileError {
    type V = CompileErrorView;

    closed spec fn view(&self) -> CompileErrorView {
        CompileErrorView {
            line_number: self.line_number as nat,
            kind: self.kind,
            context: self.context@,
        }
    }
}

impl CompileError {
    pub fn new(line_number: usize, kind: CompileErrorKind, context: String) -> (e: CompileError)
        ensures
            e@ == (CompileErrorView { line_number: line_number as nat, kind, context: context@ }),
    {
        CompileError { line_number, kind, context }
    }

    pub fn line_number(&self) -> (n: usize)
        ensures
            n as nat == self@.line_number,
    {
        self.line_number
    }

    pub fn kind(&self) -> (k: &CompileErrorKind)
        ensures
            *k == self@.kind,
    {
        &self.kind
    }

    pub fn context(&self) -> (c: &str)
        ensures
            c@ == self@.context,
    {
        self.context.as_str()
    }
}

/// A fault that stops execution: a jump to a label that the program never
/// defines, or an operation attempted on a machine that has already stopped.
#[derive(Debug)]
pub enum RuntimeError {
    UnknownLabel { label: String },
    MachineStopped,
}

/// Mathematical image of a `RuntimeError`.
pub ghost enum RuntimeErrorView {
    UnknownLabel(Seq<char>),
    MachineStopped,
}

impl View for RuntimeError {
    type V = RuntimeErrorView;

    open spec fn view(&self) -> RuntimeErrorView {
        match self {
            RuntimeError::UnknownLabel { label } => RuntimeErrorView::UnknownLabel(label@),
            RuntimeError::MachineStopped => RuntimeErrorView::MachineStopped,
        }
    }
}

/// The human-readable description of a compile fault.
pub open spec fn spec_compile_error_message(e: CompileErrorView) -> Seq<char> {
    match e.kind {
        CompileErrorKind::UnknownToken => "Unknown token '"@ + e.context + "' at line "@
            + spec_decimal(e.line_number),
        CompileErrorKind::ExpectedToken => "Expected "@ + e.context + " at line "@ + spec_decimal(
            e.line_number,
        ),
        CompileErrorKind::UnexpectedToken => "Unexpected token '"@ + e.context + "' at line "@
            + spec_decimal(e.line_number),
        CompileErrorKind::DuplicateLabelDefinition => "Duplicate label definition '"@ + e.context
            + "' at line "@ + spec_decimal(e.line_number),
        CompileErrorKind::MissingArgument => "Missing argument for '"@ + e.context + "' at line "@
            + spec_decimal(e.line_number),
        CompileErrorKind::InvalidArgument => "Invalid or malformed argument '"@ + e.context
            + "' at line "@ + spec_decimal(e.line_number),
    }
}

/// The human-readable description of a runtime fault.
pub open spec fn spec_runtime_error_message(e: RuntimeErrorView) -> Seq<char> {
    match e {
        RuntimeErrorView::UnknownLabel(label) => "Tried to jump to unknown label '"@ + label
            + "'"@,
        RuntimeErrorView::MachineStopped => "Tried to operate on a stopped machine"@,
    }
}

impl CompileError {
    /// Describe this fault in words, with its source line.
    pub fn message(&self) -> (r: String)
        ensures
            r@ == spec_compile_error_message(self@),
    {
        let mut s = match self.kind {
            CompileErrorKind::UnknownToken => String::from_str("Unknown token '"),
            CompileErrorKind::ExpectedToken => String::from_str("Expected "),
            CompileErrorKind::UnexpectedToken => String::from_str("Unexpected token '"),
            CompileErrorKind::DuplicateLabelDefinition => String::from_str(
                "Duplicate label definition '",
            ),
            CompileErrorKind::MissingArgument => String::from_str("Missing argument for '"),
            CompileErrorKind::InvalidArgument => String::from_str(
                "Invalid or malformed argument '",
            ),
        };
        s.append(self.context.as_str());
        match self.kind {
            CompileErrorKind::ExpectedToken => s.append(" at line "),
            _ => s.append("' at line "),
        }
        let line = u64_to_string(self.line_number as u64);
        s.append(line.as_str());
        proof {
            assert(s@ =~= spec_compile_error_message(self@));
        }
        s
    }
}

impl RuntimeError {
    /// Describe this fault in words.
    pub fn message(&self) -> (r: String)
        ensures
            r@ == spec_runtime_error_message(self@),
    {
        match self {
            RuntimeError::UnknownLabel { label } => {
                let mut s = String::from_str("Tried to jump to unknown label '");
                s.append(label.as_str());
                s.append("'");
                proof {
                    assert(s@ =~= spec_runtime_error_message(self@));
                }
                s
            },
            RuntimeError::MachineStopped => String::from_str(
                "Tried to operate on a stopped machine",
            ),
        }
    }
}

} // verus!
