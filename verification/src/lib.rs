pub mod analyzer;
pub mod compiler;
pub mod errors;
pub mod executor;
pub mod lsp_errors;
pub mod lsp_token;
pub mod machine;
pub mod parser;
pub mod preseed;
pub mod program;
pub mod source;
pub mod text;
pub mod token;
pub mod tokenizer;

pub use analyzer::analyze;
pub use compiler::compile;
pub use errors::{CompileError, CompileErrorKind, RuntimeError};
pub use executor::execute;
pub use lsp_errors::LSPError;
pub use lsp_token::{LSPToken, LSPTokenKind};
pub use machine::{Machine, MachineState, StoppedReason};
pub use parser::parse;
pub use program::Program;
pub use source::IntoSourceCode;
pub use tokenizer::tokenize;
