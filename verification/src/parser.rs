use vstd::prelude::*;
use crate::errors::{CompileError, CompileErrorKind, CompileErrorView};
use crate::program::{Address, Instruction, InstructionView, Line, LineView, Operand, Program, ProgramBuilder};
use crate::text::{lemma_decimal_parse, lemma_decimal_parse_usize, lemma_decimal_value, spec_decimal, spec_is_digit, spec_parse_u64, spec_parse_usize, spec_strip_leading, parse_u64, parse_usize, strip_leading};
use crate::token::{Token, TokenView};
use crate::tokenizer::{lemma_error_views_push, spec_error_views, spec_token_views};

verus! {

/// What a word names as an operand: `#` introduces a 64-bit literal, `*` a
/// register index read indirectly, and bare digits a register index; each
/// prefix run is stripped as a whole and the rest must parse as a number.
pub open spec fn spec_parse_operand(s: Seq<char>) -> Option<Operand> {
    if s.len() > 0 && s[0] == '#' {
        match spec_parse_u64(spec_strip_leading(s, '#')) {
            Some(v) => Some(Operand::Immediate(v)),
            None => None,
        }
    } else if s.len() > 0 && s[0] == '*' {
        match spec_parse_usize(spec_strip_leading(s, '*')) {
            Some(a) => Some(Operand::IndirectAddress(a)),
            None => None,
        }
    } else {
        match spec_parse_usize(s) {
            Some(a) => Some(Operand::DirectAddress(a)),
            None => None,
        }
    }
}

/// What a word names as a store target: `*` a register index read
/// indirectly, bare digits a register index; there is no literal form.
pub open spec fn spec_parse_address(s: Seq<char>) -> Option<Address> {
    if s.len() > 0 && s[0] == '*' {
        match spec_parse_usize(spec_strip_leading(s, '*')) {
            Some(a) => Some(Address::Indirect(a)),
            None => None,
        }
    } else {
        match spec_parse_usize(s) {
            Some(a) => Some(Address::Direct(a)),
            None => None,
        }
    }
}

/// Read an operand from its textual form.
pub fn operand_from_str(s: &str) -> (r: Option<Operand>)
    ensures
        r == spec_parse_operand(s@),
{
    let len = s.unicode_len();
    if len > 0 && s.get_char(0) == '#' {
        let body = strip_leading(s, '#');
        match parse_u64(body.as_str()) {
            Some(v) => Some(Operand::Immediate(v)),
            None => None,
        }
    } else if len > 0 && s.get_char(0) == '*' {
        let body = strip_leading(s, '*');
        match parse_usize(body.as_str()) {
            Some(a) => Some(Operand::IndirectAddress(a)),
            None => None,
        }
    } else {
        match parse_usize(s) {
            Some(a) => Some(Operand::DirectAddress(a)),
            None => None,
        }
    }
}

/// Read a store target from its textual form.
pub fn address_from_str(s: &str) -> (r: Option<Address>)
    ensures
        r == spec_parse_address(s@),
{
    let len = s.unicode_len();
    if len > 0 && s.get_char(0) == '*' {
        let body = strip_leading(s, '*');
        match parse_usize(body.as_str()) {
            Some(a) => Some(Address::Indirect(a)),
            None => None,
        }
    } else {
        match parse_usize(s) {
            Some(a) => Some(Address::Direct(a)),
            None => None,
        }
    }
}

/// Round trip of the operand notation: rendering a value behind each prefix
/// and reading it back recovers the same classification and the same value —
/// `#` stays an immediate, `*` stays an indirect register index, and bare
/// digits stay a direct register index.
pub proof fn lemma_operand_round_trip(v: u64, a: usize)
    ensures
        spec_parse_operand(seq!['#'] + spec_decimal(v as nat)) == Some(Operand::Immediate(v)),
        spec_parse_operand(seq!['*'] + spec_decimal(a as nat)) == Some(
            Operand::IndirectAddress(a),
        ),
        spec_parse_operand(spec_decimal(a as nat)) == Some(Operand::DirectAddress(a)),
        spec_parse_address(seq!['*'] + spec_decimal(a as nat)) == Some(Address::Indirect(a)),
        spec_parse_address(spec_decimal(a as nat)) == Some(Address::Direct(a)),
{
    lemma_decimal_value(v as nat);
    lemma_decimal_value(a as nat);
    lemma_decimal_parse(v);
    lemma_decimal_parse_usize(a);
    let dv = spec_decimal(v as nat);
    let da = spec_decimal(a as nat);
    assert(spec_is_digit(dv[0]));
    assert(spec_is_digit(da[0]));
    let sv = seq!['#'] + dv;
    assert(sv[0] == '#');
    assert(sv.drop_first() =~= dv);
    assert(spec_strip_leading(sv, '#') == spec_strip_leading(dv, '#'));
    assert(spec_strip_leading(dv, '#') == dv);
    let sa = seq!['*'] + da;
    assert(sa[0] == '*');
    assert(sa.drop_first() =~= da);
    assert(spec_strip_leading(sa, '*') == spec_strip_leading(da, '*'));
    assert(spec_strip_leading(da, '*') == da);
}

/// The parser state after the tokens from index `i` on: the instruction
/// lines built, the label table, and the faults found.
///
/// A mnemonic consumes the following token; when that token is an argument
/// of the right shape the instruction is built, when it is malformed an
/// `InvalidArgument` is recorded at the argument's line, and when it is
/// missing or of another kind a `MissingArgument` is recorded at the
/// mnemonic's line. A label definition binds the name to the next
/// instruction index, and a name bound twice is a `DuplicateLabelDefinition`
/// at the second definition's line. A stray argument is an
/// `UnexpectedToken`. Comments and line breaks carry nothing. Faults never
/// stop the scan: every token is examined and all faults come back together.
pub open spec fn spec_parse_at(
    tokens: Seq<TokenView>,
    i: int,
    lines: Seq<LineView>,
    labels: Map<Seq<char>, usize>,
    errors: Seq<CompileErrorView>,
) -> (Seq<LineView>, Map<Seq<char>, usize>, Seq<CompileErrorView>)
    decreases tokens.len() - i, 1int,
{
    if i < 0 || i >= tokens.len() {
        (lines, labels, errors)
    } else {
        match tokens[i] {
            TokenView::Load { line_number } => {
                if i + 1 < tokens.len() {
                    match tokens[i + 1] {
                        TokenView::Argument { line_number: arg_line, value } => match spec_parse_operand(value) {
                            Some(op) => spec_parse_at(
                                tokens,
                                i + 2,
                                lines.push(
                                    LineView {
                                        instruction: InstructionView::Load(op),
                                        line_number,
                                    },
                                ),
                                labels,
                                errors,
                            ),
                            None => spec_parse_at(
                                tokens,
                                i + 2,
                                lines,
                                labels,
                                errors.push(
                                    CompileErrorView {
                                        line_number: arg_line,
                                        kind: CompileErrorKind::InvalidArgument,
                                        context: value,
                                    },
                                ),
                            ),
                        },
                        _ => spec_parse_at(
                            tokens,
                            i + 2,
                            lines,
                            labels,
                            errors.push(
                                CompileErrorView {
                                    line_number,
                                    kind: CompileErrorKind::MissingArgument,
                                    context: "load"@,
                                },
                            ),
                        ),
                    }
                } else {
                    spec_parse_at(
                        tokens,
                        i + 1,
                        lines,
                        labels,
                        errors.push(
                            CompileErrorView {
                                line_number,
                                kind: CompileErrorKind::MissingArgument,
                                context: "load"@,
                            },
                        ),
                    )
                }
            },
            TokenView::Add { line_number } => {
                if i + 1 < tokens.len() {
                    match tokens[i + 1] {
                        TokenView::Argument { line_number: arg_line, value } => match spec_parse_operand(value) {
                            Some(op) => spec_parse_at(
                                tokens,
                                i + 2,
                                lines.push(
                                    LineView {
                                        instruction: InstructionView::Add(op),
                                        line_number,
                                    },
                                ),
                                labels,
                                errors,
                            ),
                            None => spec_parse_at(
                                tokens,
                                i + 2,
                                lines,
                                labels,
                                errors.push(
                                    CompileErrorView {
                                        line_number: arg_line,
                                        kind: CompileErrorKind::InvalidArgument,
                                        context: value,
                                    },
                                ),
                            ),
                        },
                        _ => spec_parse_at(
                            tokens,
                            i + 2,
                            lines,
                            labels,
                            errors.push(
                                CompileErrorView {
                                    line_number,
                                    kind: CompileErrorKind::MissingArgument,
                                    context: "add"@,
                                },
                            ),
                        ),
                    }
                } else {
                    spec_parse_at(
                        tokens,
                        i + 1,
                        lines,
                        labels,
                        errors.push(
                            CompileErrorView {
                                line_number,
                                kind: CompileErrorKind::MissingArgument,
                                context: "add"@,
                            },
                        ),
                    )
                }
            },
            TokenView::Sub { line_number } => {
                if i + 1 < tokens.len() {
                    match tokens[i + 1] {
                        TokenView::Argument { line_number: arg_line, value } => match spec_parse_operand(value) {
                            Some(op) => spec_parse_at(
                                tokens,
                                i + 2,
                                lines.push(
                                    LineView {
                                        instruction: InstructionView::Sub(op),
                                        line_number,
                                    },
                                ),
                                labels,
                                errors,
                            ),
                            None => spec_parse_at(
                                tokens,
                                i + 2,
                                lines,
                                labels,
                                errors.push(
                                    CompileErrorView {
                                        line_number: arg_line,
                                        kind: CompileErrorKind::InvalidArgument,
                                        context: value,
                                    },
                                ),
                            ),
                        },
                        _ => spec_parse_at(
                            tokens,
                            i + 2,
                            lines,
                            labels,
                            errors.push(
                                CompileErrorView {
                                    line_number,
                                    kind: CompileErrorKind::MissingArgument,
                                    context: "sub"@,
                                },
                            ),
                        ),
                    }
                } else {
                    spec_parse_at(
                        tokens,
                        i + 1,
                        lines,
                        labels,
                        errors.push(
                            CompileErrorView {
                                line_number,
                                kind: CompileErrorKind::MissingArgument,
                                context: "sub"@,
                            },
                        ),
                    )
                }
            },
            TokenView::Mul { line_number } => {
                if i + 1 < tokens.len() {
                    match tokens[i + 1] {
                        TokenView::Argument { line_number: arg_line, value } => match spec_parse_operand(value) {
                            Some(op) => spec_parse_at(
                                tokens,
                                i + 2,
                                lines.push(
                                    LineView {
                                        instruction: InstructionView::Mul(op),
                                        line_number,
                                    },
                                ),
                                labels,
                                errors,
                            ),
                            None => spec_parse_at(
                                tokens,
                                i + 2,
                                lines,
                                labels,
                                errors.push(
                                    CompileErrorView {
                                        line_number: arg_line,
                                        kind: CompileErrorKind::InvalidArgument,
                                        context: value,
                                    },
                                ),
                            ),
                        },
                        _ => spec_parse_at(
                            tokens,
                            i + 2,
                            lines,
                            labels,
                            errors.push(
                                CompileErrorView {
                                    line_number,
                                    kind: CompileErrorKind::MissingArgument,
                                    context: "mul"@,
                                },
                            ),
                        ),
                    }
                } else {
                    spec_parse_at(
                        tokens,
                        i + 1,
                        lines,
                        labels,
                        errors.push(
                            CompileErrorView {
                                line_number,
                                kind: CompileErrorKind::MissingArgument,
                                context: "mul"@,
                            },
                        ),
                    )
                }
            },
            TokenView::Div { line_number } => {
                if i + 1 < tokens.len() {
                    match tokens[i + 1] {
                        TokenView::Argument { line_number: arg_line, value } => match spec_parse_operand(value) {
                            Some(op) => spec_parse_at(
                                tokens,
                                i + 2,
                                lines.push(
                                    LineView {
                                        instruction: InstructionView::Div(op),
                                        line_number,
                                    },
                                ),
                                labels,
                                errors,
                            ),
                            None => spec_parse_at(
                                tokens,
                                i + 2,
                                lines,
                                labels,
                                errors.push(
                                    CompileErrorView {
                                        line_number: arg_line,
                                        kind: CompileErrorKind::InvalidArgument,
                                        context: value,
                                    },
                                ),
                            ),
                        },
                        _ => spec_parse_at(
                            tokens,
                            i + 2,
                            lines,
                            labels,
                            errors.push(
                                CompileErrorView {
                                    line_number,
                                    kind: CompileErrorKind::MissingArgument,
                                    context: "div"@,
                                },
                            ),
                        ),
                    }
                } else {
                    spec_parse_at(
                        tokens,
                        i + 1,
                        lines,
                        labels,
                        errors.push(
                            CompileErrorView {
                                line_number,
                                kind: CompileErrorKind::MissingArgument,
                                context: "div"@,
                            },
                        ),
                    )
                }
            },
            TokenView::Store { line_number } => {
                if i + 1 < tokens.len() {
                    match tokens[i + 1] {
                        TokenView::Argument { line_number: arg_line, value } => match spec_parse_address(value) {
                            Some(a) => spec_parse_at(
                                tokens,
                                i + 2,
                                lines.push(
                                    LineView {
                                        instruction: InstructionView::Store(a),
                                        line_number,
                                    },
                                ),
                                labels,
                                errors,
                            ),
                            None => spec_parse_at(
                                tokens,
                                i + 2,
                                lines,
                                labels,
                                errors.push(
                                    CompileErrorView {
                                        line_number: arg_line,
                                        kind: CompileErrorKind::InvalidArgument,
                                        context: value,
                                    },
                                ),
                            ),
                        },
                        _ => spec_parse_at(
                            tokens,
                            i + 2,
                            lines,
                            labels,
                            errors.push(
                                CompileErrorView {
                                    line_number,
                                    kind: CompileErrorKind::MissingArgument,
                                    context: "store"@,
                                },
                            ),
                        ),
                    }
                } else {
                    spec_parse_at(
                        tokens,
                        i + 1,
                        lines,
                        labels,
                        errors.push(
                            CompileErrorView {
                                line_number,
                                kind: CompileErrorKind::MissingArgument,
                                context: "store"@,
                            },
                        ),
                    )
                }
            },
            TokenView::Goto { line_number } => {
                if i + 1 < tokens.len() {
                    match tokens[i + 1] {
                        TokenView::Argument { value, .. } => spec_parse_at(
                            tokens,
                            i + 2,
                            lines.push(
                                LineView {
                                    instruction: InstructionView::Goto(value),
                                    line_number,
                                },
                            ),
                            labels,
                            errors,
                        ),
                        _ => spec_parse_at(
                            tokens,
                            i + 2,
                            lines,
                            labels,
                            errors.push(
                                CompileErrorView {
                                    line_number,
                                    kind: CompileErrorKind::MissingArgument,
                                    context: "goto"@,
                                },
                            ),
                        ),
                    }
                } else {
                    spec_parse_at(
                        tokens,
                        i + 1,
                        lines,
                        labels,
                        errors.push(
                            CompileErrorView {
                                line_number,
                                kind: CompileErrorKind::MissingArgument,
                                context: "goto"@,
                            },
                        ),
                    )
                }
            },
            TokenView::Jzero { line_number } => {
                if i + 1 < tokens.len() {
                    match tokens[i + 1] {
                        TokenView::Argument { value, .. } => spec_parse_at(
                            tokens,
                            i + 2,
                            lines.push(
                                LineView {
                                    instruction: InstructionView::Jzero(value),
                                    line_number,
                                },
                            ),
                            labels,
                            errors,
                        ),
                        _ => spec_parse_at(
                            tokens,
                            i + 2,
                            lines,
                            labels,
                            errors.push(
                                CompileErrorView {
                                    line_number,
                                    kind: CompileErrorKind::MissingArgument,
                                    context: "jzero"@,
                                },
                            ),
                        ),
                    }
                } else {
                    spec_parse_at(
                        tokens,
                        i + 1,
                        lines,
                        labels,
                        errors.push(
                            CompileErrorView {
                                line_number,
                                kind: CompileErrorKind::MissingArgument,
                                context: "jzero"@,
                            },
                        ),
                    )
                }
            },
            TokenView::Jnzero { line_number } => {
                if i + 1 < tokens.len() {
                    match tokens[i + 1] {
                        TokenView::Argument { value, .. } => spec_parse_at(
                            tokens,
                            i + 2,
                            lines.push(
                                LineView {
                                    instruction: InstructionView::Jnzero(value),
                                    line_number,
                                },
                            ),
                            labels,
                            errors,
                        ),
                        _ => spec_parse_at(
                            tokens,
                            i + 2,
                            lines,
                            labels,
                            errors.push(
                                CompileErrorView {
                                    line_number,
                                    kind: CompileErrorKind::MissingArgument,
                                    context: "jnzero"@,
                                },
                            ),
                        ),
                    }
                } else {
                    spec_parse_at(
                        tokens,
                        i + 1,
                        lines,
                        labels,
                        errors.push(
                            CompileErrorView {
                                line_number,
                                kind: CompileErrorKind::MissingArgument,
                                context: "jnzero"@,
                            },
                        ),
                    )
                }
            },
            TokenView::End { line_number } => spec_parse_at(
                tokens,
                i + 1,
                lines.push(LineView { instruction: InstructionView::End, line_number }),
                labels,
                errors,
            ),
            TokenView::LabelDefinition { line_number, value } => {
                if labels.contains_key(value) {
                    spec_parse_at(
                        tokens,
                        i + 1,
                        lines,
                        labels,
                        errors.push(
                            CompileErrorView {
                                line_number,
                                kind: CompileErrorKind::DuplicateLabelDefinition,
                                context: value,
                            },
                        ),
                    )
                } else {
                    spec_parse_at(
                        tokens,
                        i + 1,
                        lines,
                        labels.insert(value, lines.len() as usize),
                        errors,
                    )
                }
            },
            TokenView::Argument { line_number, value } => spec_parse_at(
                tokens,
                i + 1,
                lines,
                labels,
                errors.push(
                    CompileErrorView {
                        line_number,
                        kind: CompileErrorKind::UnexpectedToken,
                        context: value,
                    },
                ),
            ),
            TokenView::Comment { .. } => spec_parse_at(tokens, i + 1, lines, labels, errors),
            TokenView::NewLine { .. } => spec_parse_at(tokens, i + 1, lines, labels, errors),
        }
    }
}

/// The parse of a whole token stream, from an empty program.
pub open spec fn spec_parse(tokens: Seq<TokenView>) -> (
    Seq<LineView>,
    Map<Seq<char>, usize>,
    Seq<CompileErrorView>,
) {
    spec_parse_at(tokens, 0, Seq::empty(), Map::empty(), Seq::empty())
}

/// Parse a token stream into a `Program`, or into the full batch of faults
/// found over the whole stream.
#[verifier::loop_isolation(false)]
#[verifier::rlimit(100)]
pub fn parse(tokens: Vec<Token>) -> (r: Result<Program, Vec<CompileError>>)
    ensures
        ({
            let p = spec_parse(spec_token_views(tokens@));
            match r {
                Ok(prog) => {
                    &&& p.2.len() == 0
                    &&& prog@.lines == p.0
                    &&& prog@.labels == p.1
                    &&& prog@.program_counter == 0
                },
                Err(es) => p.2.len() > 0 && spec_error_views(es@) == p.2,
            }
        }),
{
    let ghost tv = spec_token_views(tokens@);
    let mut builder = ProgramBuilder::new();
    let mut errors: Vec<CompileError> = Vec::new();
    proof {
        assert(spec_error_views(errors@) =~= Seq::<CompileErrorView>::empty());
    }
    let n = tokens.len();
    let mut i: usize = 0;
    while i < n
        invariant
            i <= n,
            n == tokens@.len(),
            spec_parse(tv) == spec_parse_at(
                tv,
                i as int,
                builder@.lines,
                builder@.labels,
                spec_error_views(errors@),
            ),
        decreases n - i,
    {
        proof {
            assert(tv[i as int] == tokens@[i as int]@);
        }
        match &tokens[i] {
            Token::Load { line_number } => {
                if i + 1 < n {
                    proof {
                        assert(tv[i + 1] == tokens@[i + 1]@);
                    }
                    match &tokens[i + 1] {
                        Token::Argument { line_number: arg_line, value } => {
                            match operand_from_str(value.as_str()) {
                                Some(op) => {
                                    builder.add_line(Line::new(Instruction::Load(op), *line_number));
                                },
                                None => {
                                    let e = CompileError::new(
                                        *arg_line,
                                        CompileErrorKind::InvalidArgument,
                                        value.clone(),
                                    );
                                    proof {
                                        lemma_error_views_push(errors@, e);
                                    }
                                    errors.push(e);
                                },
                            }
                        },
                        _ => {
                            let e = CompileError::new(
                                *line_number,
                                CompileErrorKind::MissingArgument,
                                String::from_str("load"),
                            );
                            proof {
                                lemma_error_views_push(errors@, e);
                            }
                            errors.push(e);
                        },
                    }
                    i += 2;
                } else {
                    let e = CompileError::new(
                        *line_number,
                        CompileErrorKind::MissingArgument,
                        String::from_str("load"),
                    );
                    proof {
                        lemma_error_views_push(errors@, e);
                    }
                    errors.push(e);
                    i += 1;
                }
            },
            Token::Store { line_number } => {
                if i + 1 < n {
                    proof {
                        assert(tv[i + 1] == tokens@[i + 1]@);
                    }
                    match &tokens[i + 1] {
                        Token::Argument { line_number: arg_line, value } => {
                            match address_from_str(value.as_str()) {
                                Some(a) => {
                                    builder.add_line(Line::new(Instruction::Store(a), *line_number));
                                },
                                None => {
                                    let e = CompileError::new(
                                        *arg_line,
                                        CompileErrorKind::InvalidArgument,
                                        value.clone(),
                                    );
                                    proof {
                                        lemma_error_views_push(errors@, e);
                                    }
                                    errors.push(e);
                                },
                            }
                        },
                        _ => {
                            let e = CompileError::new(
                                *line_number,
                                CompileErrorKind::MissingArgument,
                                String::from_str("store"),
                            );
                            proof {
                                lemma_error_views_push(errors@, e);
                            }
                            errors.push(e);
                        },
                    }
                    i += 2;
                } else {
                    let e = CompileError::new(
                        *line_number,
                        CompileErrorKind::MissingArgument,
                        String::from_str("store"),
                    );
                    proof {
                        lemma_error_views_push(errors@, e);
                    }
                    errors.push(e);
                    i += 1;
                }
            },
            Token::Add { line_number } => {
                if i + 1 < n {
                    proof {
                        assert(tv[i + 1] == tokens@[i + 1]@);
                    }
                    match &tokens[i + 1] {
                        Token::Argument { line_number: arg_line, value } => {
                            match operand_from_str(value.as_str()) {
                                Some(op) => {
                                    builder.add_line(Line::new(Instruction::Add(op), *line_number));
                                },
                                None => {
                                    let e = CompileError::new(
                                        *arg_line,
                                        CompileErrorKind::InvalidArgument,
                                        value.clone(),
                                    );
                                    proof {
                                        lemma_error_views_push(errors@, e);
                                    }
                                    errors.push(e);
                                },
                            }
                        },
                        _ => {
                            let e = CompileError::new(
                                *line_number,
                                CompileErrorKind::MissingArgument,
                                String::from_str("add"),
                            );
                            proof {
                                lemma_error_views_push(errors@, e);
                            }
                            errors.push(e);
                        },
                    }
                    i += 2;
                } else {
                    let e = CompileError::new(
                        *line_number,
                        CompileErrorKind::MissingArgument,
                        String::from_str("add"),
                    );
                    proof {
                        lemma_error_views_push(errors@, e);
                    }
                    errors.push(e);
                    i += 1;
                }
            },
            Token::Sub { line_number } => {
                if i + 1 < n {
                    proof {
                        assert(tv[i + 1] == tokens@[i + 1]@);
                    }
                    match &tokens[i + 1] {
                        Token::Argument { line_number: arg_line, value } => {
                            match operand_from_str(value.as_str()) {
                                Some(op) => {
                                    builder.add_line(Line::new(Instruction::Sub(op), *line_number));
                                },
                                None => {
                                    let e = CompileError::new(
                                        *arg_line,
                                        CompileErrorKind::InvalidArgument,
                                        value.clone(),
                                    );
                                    proof {
                                        lemma_error_views_push(errors@, e);
                                    }
                                    errors.push(e);
                                },
                            }
                        },
                        _ => {
                            let e = CompileError::new(
                                *line_number,
                                CompileErrorKind::MissingArgument,
                                String::from_str("sub"),
                            );
                            proof {
                                lemma_error_views_push(errors@, e);
                            }
                            errors.push(e);
                        },
                    }
                    i += 2;
                } else {
                    let e = CompileError::new(
                        *line_number,
                        CompileErrorKind::MissingArgument,
                        String::from_str("sub"),
                    );
                    proof {
                        lemma_error_views_push(errors@, e);
                    }
                    errors.push(e);
                    i += 1;
                }
            },
            Token::Mul { line_number } => {
                if i + 1 < n {
                    proof {
                        assert(tv[i + 1] == tokens@[i + 1]@);
                    }
                    match &tokens[i + 1] {
                        Token::Argument { line_number: arg_line, value } => {
                            match operand_from_str(value.as_str()) {
                                Some(op) => {
                                    builder.add_line(Line::new(Instruction::Mul(op), *line_number));
                                },
                                None => {
                                    let e = CompileError::new(
                                        *arg_line,
                                        CompileErrorKind::InvalidArgument,
                                        value.clone(),
                                    );
                                    proof {
                                        lemma_error_views_push(errors@, e);
                                    }
                                    errors.push(e);
                                },
                            }
                        },
                        _ => {
                            let e = CompileError::new(
                                *line_number,
                                CompileErrorKind::MissingArgument,
                                String::from_str("mul"),
                            );
                            proof {
                                lemma_error_views_push(errors@, e);
                            }
                            errors.push(e);
                        },
                    }
                    i += 2;
                } else {
                    let e = CompileError::new(
                        *line_number,
                        CompileErrorKind::MissingArgument,
                        String::from_str("mul"),
                    );
                    proof {
                        lemma_error_views_push(errors@, e);
                    }
                    errors.push(e);
                    i += 1;
                }
            },
            Token::Div { line_number } => {
                if i + 1 < n {
                    proof {
                        assert(tv[i + 1] == tokens@[i + 1]@);
                    }
                    match &tokens[i + 1] {
                        Token::Argument { line_number: arg_line, value } => {
                            match operand_from_str(value.as_str()) {
                                Some(op) => {
                                    builder.add_line(Line::new(Instruction::Div(op), *line_number));
                                },
                                None => {
                                    let e = CompileError::new(
                                        *arg_line,
                                        CompileErrorKind::InvalidArgument,
                                        value.clone(),
                                    );
                                    proof {
                                        lemma_error_views_push(errors@, e);
                                    }
                                    errors.push(e);
                                },
                            }
                        },
                        _ => {
                            let e = CompileError::new(
                                *line_number,
                                CompileErrorKind::MissingArgument,
                                String::from_str("div"),
                            );
                            proof {
                                lemma_error_views_push(errors@, e);
                            }
                            errors.push(e);
                        },
                    }
                    i += 2;
                } else {
                    let e = CompileError::new(
                        *line_number,
                        CompileErrorKind::MissingArgument,
                        String::from_str("div"),
                    );
                    proof {
                        lemma_error_views_push(errors@, e);
                    }
                    errors.push(e);
                    i += 1;
                }
            },
            Token::Goto { line_number } => {
                if i + 1 < n {
                    proof {
                        assert(tv[i + 1] == tokens@[i + 1]@);
                    }
                    match &tokens[i + 1] {
                        Token::Argument { value, .. } => {
                            builder.add_line(Line::new(Instruction::Goto(value.clone()), *line_number));
                        },
                        _ => {
                            let e = CompileError::new(
                                *line_number,
                                CompileErrorKind::MissingArgument,
                                String::from_str("goto"),
                            );
                            proof {
                                lemma_error_views_push(errors@, e);
                            }
                            errors.push(e);
                        },
                    }
                    i += 2;
                } else {
                    let e = CompileError::new(
                        *line_number,
                        CompileErrorKind::MissingArgument,
                        String::from_str("goto"),
                    );
                    proof {
                        lemma_error_views_push(errors@, e);
                    }
                    errors.push(e);
                    i += 1;
                }
            },
            Token::Jzero { line_number } => {
                if i + 1 < n {
                    proof {
                        assert(tv[i + 1] == tokens@[i + 1]@);
                    }
                    match &tokens[i + 1] {
                        Token::Argument { value, .. } => {
                            builder.add_line(Line::new(Instruction::Jzero(value.clone()), *line_number));
                        },
                        _ => {
                            let e = CompileError::new(
                                *line_number,
                                CompileErrorKind::MissingArgument,
                                String::from_str("jzero"),
                            );
                            proof {
                                lemma_error_views_push(errors@, e);
                            }
                            errors.push(e);
                        },
                    }
                    i += 2;
                } else {
                    let e = CompileError::new(
                        *line_number,
                        CompileErrorKind::MissingArgument,
                        String::from_str("jzero"),
                    );
                    proof {
                        lemma_error_views_push(errors@, e);
                    }
                    errors.push(e);
                    i += 1;
                }
            },
            Token::Jnzero { line_number } => {
                if i + 1 < n {
                    proof {
                        assert(tv[i + 1] == tokens@[i + 1]@);
                    }
                    match &tokens[i + 1] {
                        Token::Argument { value, .. } => {
                            builder.add_line(Line::new(Instruction::Jnzero(value.clone()), *line_number));
                        },
                        _ => {
                            let e = CompileError::new(
                                *line_number,
                                CompileErrorKind::MissingArgument,
                                String::from_str("jnzero"),
                            );
                            proof {
                                lemma_error_views_push(errors@, e);
                            }
                            errors.push(e);
                        },
                    }
                    i += 2;
                } else {
                    let e = CompileError::new(
                        *line_number,
                        CompileErrorKind::MissingArgument,
                        String::from_str("jnzero"),
                    );
                    proof {
                        lemma_error_views_push(errors@, e);
                    }
                    errors.push(e);
                    i += 1;
                }
            },
            Token::End { line_number } => {
                builder.add_line(Line::new(Instruction::End, *line_number));
                i += 1;
            },
            Token::LabelDefinition { line_number, value } => {
                if builder.label_exists(value) {
                    let e = CompileError::new(
                        *line_number,
                        CompileErrorKind::DuplicateLabelDefinition,
                        value.clone(),
                    );
                    proof {
                        lemma_error_views_push(errors@, e);
                    }
                    errors.push(e);
                } else {
                    let position = builder.current_instruction_index();
                    builder.add_label(value.clone(), position);
                }
                i += 1;
            },
            Token::Argument { line_number, value } => {
                let e = CompileError::new(
                    *line_number,
                    CompileErrorKind::UnexpectedToken,
                    value.clone(),
                );
                proof {
                    lemma_error_views_push(errors@, e);
                }
                errors.push(e);
                i += 1;
            },
            Token::Comment { .. } => {
                i += 1;
            },
            Token::NewLine { .. } => {
                i += 1;
            },
        }
    }
    if errors.len() == 0 {
        Ok(builder.build())
    } else {
        Err(errors)
    }
}

} // verus!
