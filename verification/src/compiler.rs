use vstd::prelude::*;
use crate::errors::CompileError;
use crate::parser::{parse, spec_parse};
use crate::program::Program;
use crate::source::IntoSourceCode;
use crate::tokenizer::{spec_error_views, spec_tokenize, tokenize};

verus! {

/// The whole compilation pipeline: scan the source into tokens, then parse
/// the tokens into a `Program`. Lexical faults end the pipeline with the
/// tokenizer's full batch; otherwise parse faults end it with the parser's
/// full batch; otherwise the built program comes back, its cursor at the
/// first instruction.
pub fn compile<S: IntoSourceCode>(source_code: S) -> (r: Result<Program, Vec<CompileError>>)
    ensures
        ({
            let t = spec_tokenize(source_code.spec_source_lines());
            let p = spec_parse(t.0);
            match r {
                Ok(prog) => {
                    &&& t.1.len() == 0
                    &&& p.2.len() == 0
                    &&& prog@.lines == p.0
                    &&& prog@.labels == p.1
                    &&& prog@.program_counter == 0
                },
                Err(es) => (t.1.len() > 0 && spec_error_views(es@) == t.1) || (t.1.len() == 0
                    && p.2.len() > 0 && spec_error_views(es@) == p.2),
            }
        }),
{
    match tokenize(source_code) {
        Ok(tokens) => parse(tokens),
        Err(errors) => Err(errors),
    }
}

} // verus!
