use vstd::prelude::*;

verus! {

/// A diagnostic attached to one annotated token.
#[derive(Debug)]
pub enum LSPError {
    UnknownToken(String),
    UnexpectedToken(String),
    MissingArgument,
    InvalidArgument(String),
    DuplicateLabelDefinition(String),
    LabelNotFound(String),
}

/// Mathematical image of an `LSPError`.
pub ghost enum LSPErrorView {
    UnknownToken(Seq<char>),
    UnexpectedToken(Seq<char>),
    MissingArgument,
    InvalidArgument(Seq<char>),
    DuplicateLabelDefinition(Seq<char>),
    LabelNotFound(Seq<char>),
}

impl View for LSPError {
    type V = LSPErrorView;

    open spec fn view(&self) -> LSPErrorView {
        match self {
            LSPError::UnknownToken(s) => LSPErrorView::UnknownToken(s@),
            LSPError::UnexpectedToken(s) => LSPErrorView::UnexpectedToken(s@),
            LSPError::MissingArgument => LSPErrorView::MissingArgument,
            LSPError::InvalidArgument(s) => LSPErrorView::InvalidArgument(s@),
            LSPError::DuplicateLabelDefinition(s) => LSPErrorView::DuplicateLabelDefinition(s@),
            LSPError::LabelNotFound(s) => LSPErrorView::LabelNotFound(s@),
        }
    }
}

impl Clone for LSPError {
    fn clone(&self) -> (r: LSPError)
        ensures
            r@ == self@,
    {
        match self {
            LSPError::UnknownToken(s) => LSPError::UnknownToken(s.clone()),
            LSPError::UnexpectedToken(s) => LSPError::UnexpectedToken(s.clone()),
            LSPError::MissingArgument => LSPError::MissingArgument,
            LSPError::InvalidArgument(s) => LSPError::InvalidArgument(s.clone()),
            LSPError::DuplicateLabelDefinition(s) => LSPError::DuplicateLabelDefinition(s.clone()),
            LSPError::LabelNotFound(s) => LSPError::LabelNotFound(s.clone()),
        }
    }
}

/// The human-readable description of a diagnostic.
pub open spec fn spec_lsp_error_message(e: LSPErrorView) -> Seq<char> {
    match e {
        LSPErrorView::UnknownToken(t) => "Unknown token '"@ + t + "'"@,
        LSPErrorView::UnexpectedToken(t) => "Unexpected token '"@ + t + "'"@,
        LSPErrorView::MissingArgument => "Expected an argument but none was found"@,
        LSPErrorView::InvalidArgument(a) => "Argument '"@ + a + "' is invalid or malformed"@,
        LSPErrorView::DuplicateLabelDefinition(l) => "Label '"@ + l + "' is defined more than once"@,
        LSPErrorView::LabelNotFound(l) => "Definition for label '"@ + l + "' not found"@,
    }
}

impl LSPError {
    /// Describe this diagnostic in words.
    pub fn message(&self) -> (r: String)
        ensures
            r@ == spec_lsp_error_message(self@),
    {
        match self {
            LSPError::UnknownToken(t) => {
                let mut s = String::from_str("Unknown token '");
                s.append(t.as_str());
                s.append("'");
                proof {
                    assert(s@ =~= spec_lsp_error_message(self@));
                }
                s
            },
            LSPError::UnexpectedToken(t) => {
                let mut s = String::from_str("Unexpected token '");
                s.append(t.as_str());
                s.append("'");
                proof {
                    assert(s@ =~= spec_lsp_error_message(self@));
                }
                s
            },
            LSPError::MissingArgument => String::from_str(
                "Expected an argument but none was found",
            ),
            LSPError::InvalidArgument(a) => {
                let mut s = String::from_str("Argument '");
                s.append(a.as_str());
                s.append("' is invalid or malformed");
                proof {
                    assert(s@ =~= spec_lsp_error_message(self@));
                }
                s
            },
            LSPError::DuplicateLabelDefinition(l) => {
                let mut s = String::from_str("Label '");
                s.append(l.as_str());
                s.append("' is defined more than once");
                proof {
                    assert(s@ =~= spec_lsp_error_message(self@));
                }
                s
            },
            LSPError::LabelNotFound(l) => {
                let mut s = String::from_str("Definition for label '");
                s.append(l.as_str());
                s.append("' not found");
                proof {
                    assert(s@ =~= spec_lsp_error_message(self@));
                }
                s
            },
        }
    }
}

} // verus!
