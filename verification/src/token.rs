use vstd::prelude::*;

verus! {

/// One lexical token: a mnemonic, a label definition, an argument, a
/// comment, or a line break, each tagged with the 1-based source line it
/// came from.
#[derive(Debug, PartialEq, Eq)]
pub enum Token {
    Load { line_number: usize },
    Store { line_number: usize },
    Add { line_number: usize },
    Sub { line_number: usize },
    Mul { line_number: usize },
    Div { line_number: usize },
    Goto { line_number: usize },
    Jzero { line_number: usize },
    Jnzero { line_number: usize },
    End { line_number: usize },
    LabelDefinition { line_number: usize, value: String },
    Argument { line_number: usize, value: String },
    Comment { line_number: usize, value: String },
    NewLine { line_number: usize },
}

/// Mathematical image of a `Token`.
pub ghost enum TokenView {
    Load { line_number: nat },
    Store { line_number: nat },
    Add { line_number: nat },
    Sub { line_number: nat },
    Mul { line_number: nat },
    Div { line_number: nat },
    Goto { line_number: nat },
    Jzero { line_number: nat },
    Jnzero { line_number: nat },
    End { line_number: nat },
    LabelDefinition { line_number: nat, value: Seq<char> },
    Argument { line_number: nat, value: Seq<char> },
    Comment { line_number: nat, value: Seq<char> },
    NewLine { line_number: nat },
}

impl View for Token {
    type V = TokenView;

    open spec fn view(&self) -> TokenView {
        match self {
            Token::Load { line_number } => TokenView::Load { line_number: *line_number as nat },
            Token::Store { line_number } => TokenView::Store { line_number: *line_number as nat },
            Token::Add { line_number } => TokenView::Add { line_number: *line_number as nat },
            Token::Sub { line_number } => TokenView::Sub { line_number: *line_number as nat },
            Token::Mul { line_number } => TokenView::Mul { line_number: *line_number as nat },
            Token::Div { line_number } => TokenView::Div { line_number: *line_number as nat },
            Token::Goto { line_number } => TokenView::Goto { line_number: *line_number as nat },
            Token::Jzero { line_number } => TokenView::Jzero { line_number: *line_number as nat },
            Token::Jnzero { line_number } => TokenView::Jnzero {
                line_number: *line_number as nat,
            },
            Token::End { line_number } => TokenView::End { line_number: *line_number as nat },
            Token::LabelDefinition { line_number, value } => TokenView::LabelDefinition {
                line_number: *line_number as nat,
                value: value@,
            },
            Token::Argument { line_number, value } => TokenView::Argument {
                line_number: *line_number as nat,
                value: value@,
            },
            Token::Comment { line_number, value } => TokenView::Comment {
                line_number: *line_number as nat,
                value: value@,
            },
            Token::NewLine { line_number } => TokenView::NewLine {
                line_number: *line_number as nat,
            },
        }
    }
}

impl Clone for Token {
    fn clone(&self) -> (r: Token)
        ensures
            r@ == self@,
    {
        match self {
            Token::Load { line_number } => Token::Load { line_number: *line_number },
            Token::Store { line_number } => Token::Store { line_number: *line_number },
            Token::Add { line_number } => Token::Add { line_number: *line_number },
            Token::Sub { line_number } => Token::Sub { line_number: *line_number },
            Token::Mul { line_number } => Token::Mul { line_number: *line_number },
            Token::Div { line_number } => Token::Div { line_number: *line_number },
            Token::Goto { line_number } => Token::Goto { line_number: *line_number },
            Token::Jzero { line_number } => Token::Jzero { line_number: *line_number },
            Token::Jnzero { line_number } => Token::Jnzero { line_number: *line_number },
            Token::End { line_number } => Token::End { line_number: *line_number },
            Token::LabelDefinition { line_number, value } => Token::LabelDefinition {
                line_number: *line_number,
                value: value.clone(),
            },
            Token::Argument { line_number, value } => Token::Argument {
                line_number: *line_number,
                value: value.clone(),
            },
            Token::Comment { line_number, value } => Token::Comment {
                line_number: *line_number,
                value: value.clone(),
            },
            Token::NewLine { line_number } => Token::NewLine { line_number: *line_number },
        }
    }
}

} // verus!
