use vstd::prelude::*;
use crate::lsp_errors::{LSPError, LSPErrorView};

verus! {

/// The syntactic class of one annotated token.
#[derive(Clone, Copy, Debug, PartialEq, Eq, Structural)]
pub enum LSPTokenKind {
    Load,
    Store,
    Add,
    Sub,
    Mul,
    Div,
    Goto,
    Jzero,
    Jnzero,
    End,
    LabelDefinition,
    JumpArgument,
    ImmediateArgument,
    IndirectAddressArgument,
    DirectAddressArgument,
    Comment,
    NewLine,
    Unknown,
}

/// One annotated token: its class, the text it covers, and the diagnostics
/// attached to it.
#[derive(Debug)]
pub struct LSPToken {
    kind: LSPTokenKind,
    lexeme: String,
    errors: Vec<LSPError>,
}

/// Mathematical image of an `LSPToken`.
pub ghost struct LSPTokenView {
    pub kind: LSPTokenKind,
    pub lexeme: Seq<char>,
    pub errors: Seq<LSPErrorView>,
}

impl View for LSPToken {
    type V = LSPTokenView;

    closed spec fn view(&self) -> LSPTokenView {
        LSPTokenView {
            kind: self.kind,
            lexeme: self.lexeme@,
            errors: self.errors@.map_values(|e: LSPError| e@),
        }
    }
}

impl LSPToken {
    pub fn new(kind: LSPTokenKind, lexeme: String, errors: Vec<LSPError>) -> (t: LSPToken)
        ensures
            t@.kind == kind,
            t@.lexeme == lexeme@,
            t@.errors == errors@.map_values(|e: LSPError| e@),
    {
        LSPToken { kind, lexeme, errors }
    }

    pub fn kind(&self) -> (k: &LSPTokenKind)
        ensures
            *k == self@.kind,
    {
        &self.kind
    }

    pub fn lexeme(&self) -> (l: &str)
        ensures
            l@ == self@.lexeme,
    {
        self.lexeme.as_str()
    }

    pub fn errors(&self) -> (e: &Vec<LSPError>)
        ensures
            e@.map_values(|e: LSPError| e@) == self@.errors,
    {
        &self.errors
    }
}

/// The hover text that describes the syntax a token class stands for; the
/// argument and structural classes that need no description give an empty
/// string.
pub open spec fn spec_about_text(kind: LSPTokenKind) -> Seq<char> {
    match kind {
        LSPTokenKind::Load => "Syntax: `load <operand>`\nLoads the value of the operand into the accumulator."@,
        LSPTokenKind::Store => "Syntax: `store <operand>`\nStores the value of the accumulator into the operand."@,
        LSPTokenKind::Add => "Syntax: `add <operand>`\nAdds the value of the operand to the accumulator."@,
        LSPTokenKind::Sub => "Syntax: `sub <operand>`\nSubtracts the value of the operand from the accumulator."@,
        LSPTokenKind::Mul => "Syntax: `mul <operand>`\nMultiplies the accumulator by the value of the operand."@,
        LSPTokenKind::Div => "Syntax: `div <operand>`\nDivides the accumulator by the value of the operand."@,
        LSPTokenKind::Goto => "Syntax: `goto <label>`\nUnconditionally jumps to the instruction marked with the given label."@,
        LSPTokenKind::Jzero => "Syntax: `jzero <label>`\nJumps to the instruction marked with the given label if the accumulator is zero."@,
        LSPTokenKind::Jnzero => "Syntax: `jnzero <label>`\nJumps to the instruction marked with the given label if the accumulator is not zero."@,
        LSPTokenKind::End => "Syntax: `end`\nEnds the program."@,
        LSPTokenKind::LabelDefinition => "Syntax: `<label_name>:`\nA label marks a position in the program that can be jumped to."@,
        LSPTokenKind::JumpArgument => "A label"@,
        LSPTokenKind::ImmediateArgument => "Syntax: `#<value>`\nUses a constant value directly."@,
        LSPTokenKind::IndirectAddressArgument => "Syntax: `*<register_address>`\nUses the value stored in the given register as a register address. This is equivalent to a pointer with a depth of 1."@,
        LSPTokenKind::DirectAddressArgument => "Syntax: `<register_address>`\nUses the value at the address stored in the given register."@,
        _ => ""@,
    }
}

impl LSPTokenKind {
    /// The hover text for this token class.
    pub fn get_about_text(&self) -> (r: String)
        ensures
            r@ == spec_about_text(*self),
    {
        match self {
            LSPTokenKind::Load => String::from_str("Syntax: `load <operand>`\nLoads the value of the operand into the accumulator."),
            LSPTokenKind::Store => String::from_str("Syntax: `store <operand>`\nStores the value of the accumulator into the operand."),
            LSPTokenKind::Add => String::from_str("Syntax: `add <operand>`\nAdds the value of the operand to the accumulator."),
            LSPTokenKind::Sub => String::from_str("Syntax: `sub <operand>`\nSubtracts the value of the operand from the accumulator."),
            LSPTokenKind::Mul => String::from_str("Syntax: `mul <operand>`\nMultiplies the accumulator by the value of the operand."),
            LSPTokenKind::Div => String::from_str("Syntax: `div <operand>`\nDivides the accumulator by the value of the operand."),
            LSPTokenKind::Goto => String::from_str("Syntax: `goto <label>`\nUnconditionally jumps to the instruction marked with the given label."),
            LSPTokenKind::Jzero => String::from_str("Syntax: `jzero <label>`\nJumps to the instruction marked with the given label if the accumulator is zero."),
            LSPTokenKind::Jnzero => String::from_str("Syntax: `jnzero <label>`\nJumps to the instruction marked with the given label if the accumulator is not zero."),
            LSPTokenKind::End => String::from_str("Syntax: `end`\nEnds the program."),
            LSPTokenKind::LabelDefinition => String::from_str("Syntax: `<label_name>:`\nA label marks a position in the program that can be jumped to."),
            LSPTokenKind::JumpArgument => String::from_str("A label"),
            LSPTokenKind::ImmediateArgument => String::from_str("Syntax: `#<value>`\nUses a constant value directly."),
            LSPTokenKind::IndirectAddressArgument => String::from_str("Syntax: `*<register_address>`\nUses the value stored in the given register as a register address. This is equivalent to a pointer with a depth of 1."),
            LSPTokenKind::DirectAddressArgument => String::from_str("Syntax: `<register_address>`\nUses the value at the address stored in the given register."),
            LSPTokenKind::Comment => String::from_str(""),
            LSPTokenKind::NewLine => String::from_str(""),
            LSPTokenKind::Unknown => String::from_str(""),
        }
    }
}

/// The short lower-case name of a token class, as diagnostics print it.
pub open spec fn spec_kind_name(kind: LSPTokenKind) -> Seq<char> {
    match kind {
        LSPTokenKind::Load => "load"@,
        LSPTokenKind::Store => "store"@,
        LSPTokenKind::Add => "add"@,
        LSPTokenKind::Sub => "sub"@,
        LSPTokenKind::Mul => "mul"@,
        LSPTokenKind::Div => "div"@,
        LSPTokenKind::Goto => "goto"@,
        LSPTokenKind::Jzero => "jzero"@,
        LSPTokenKind::Jnzero => "jnzero"@,
        LSPTokenKind::End => "end"@,
        LSPTokenKind::LabelDefinition => "label_definition"@,
        LSPTokenKind::JumpArgument => "jump_argument"@,
        LSPTokenKind::ImmediateArgument => "immediate_argument"@,
        LSPTokenKind::IndirectAddressArgument => "indirect_address_argument"@,
        LSPTokenKind::DirectAddressArgument => "direct_address_argument"@,
        LSPTokenKind::Comment => "comment"@,
        LSPTokenKind::NewLine => "newline"@,
        LSPTokenKind::Unknown => "unknown"@,
    }
}

impl LSPTokenKind {
    /// The short lower-case name of this token class.
    pub fn name(&self) -> (r: String)
        ensures
            r@ == spec_kind_name(*self),
    {
        match self {
            LSPTokenKind::Load => String::from_str("load"),
            LSPTokenKind::Store => String::from_str("store"),
            LSPTokenKind::Add => String::from_str("add"),
            LSPTokenKind::Sub => String::from_str("sub"),
            LSPTokenKind::Mul => String::from_str("mul"),
            LSPTokenKind::Div => String::from_str("div"),
            LSPTokenKind::Goto => String::from_str("goto"),
            LSPTokenKind::Jzero => String::from_str("jzero"),
            LSPTokenKind::Jnzero => String::from_str("jnzero"),
            LSPTokenKind::End => String::from_str("end"),
            LSPTokenKind::LabelDefinition => String::from_str("label_definition"),
            LSPTokenKind::JumpArgument => String::from_str("jump_argument"),
            LSPTokenKind::ImmediateArgument => String::from_str("immediate_argument"),
            LSPTokenKind::IndirectAddressArgument => String::from_str("indirect_address_argument"),
            LSPTokenKind::DirectAddressArgument => String::from_str("direct_address_argument"),
            LSPTokenKind::Comment => String::from_str("comment"),
            LSPTokenKind::NewLine => String::from_str("newline"),
            LSPTokenKind::Unknown => String::from_str("unknown"),
        }
    }
}

} // verus!
