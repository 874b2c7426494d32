use vstd::prelude::*;
use crate::errors::{CompileError, CompileErrorKind, CompileErrorView};
use crate::source::IntoSourceCode;
use crate::text::{
    eq_lowered, join_words_from, spec_join_words, spec_lower_seq, spec_strip_trailing,
    spec_words, split_words, strip_trailing,
};
use crate::token::{Token, TokenView};

verus! {

/// The token sequence a token list stands for.
pub open spec fn spec_token_views(ts: Seq<Token>) -> Seq<TokenView> {
    ts.map_values(|t: Token| t@)
}

/// The error sequence an error list stands for.
pub open spec fn spec_error_views(es: Seq<CompileError>) -> Seq<CompileErrorView> {
    es.map_values(|e: CompileError| e@)
}

/// Whether a token is a mnemonic, which expects the next word of the line
/// to be its argument.
pub open spec fn spec_expects_argument(t: TokenView) -> bool {
    match t {
        TokenView::Load { .. } => true,
        TokenView::Store { .. } => true,
        TokenView::Add { .. } => true,
        TokenView::Sub { .. } => true,
        TokenView::Mul { .. } => true,
        TokenView::Div { .. } => true,
        TokenView::Goto { .. } => true,
        TokenView::Jzero { .. } => true,
        TokenView::Jnzero { .. } => true,
        TokenView::End { .. } => true,
        TokenView::LabelDefinition { .. } => false,
        TokenView::Argument { .. } => false,
        TokenView::Comment { .. } => false,
        TokenView::NewLine { .. } => false,
    }
}

/// One line's words from index `k` on, scanned into tokens and errors.
///
/// Each word is classified in this order: a mnemonic (matched
/// case-insensitively); a comment opener `//`, which swallows the rest of
/// the line; a label definition `name:` (a bare `:` is an unknown token); an
/// argument, when the previous token is a mnemonic; the fault of a second
/// argument in a row; otherwise an unknown token.
pub open spec fn spec_tokenize_words(
    words: Seq<Seq<char>>,
    k: int,
    line: nat,
    tokens: Seq<TokenView>,
    errors: Seq<CompileErrorView>,
) -> (Seq<TokenView>, Seq<CompileErrorView>)
    decreases words.len() - k,
{
    if k < 0 || k >= words.len() {
        (tokens, errors)
    } else {
        let w = words[k];
        let lw = spec_lower_seq(w);
        if lw == "load"@ {
            spec_tokenize_words(
                words,
                k + 1,
                line,
                tokens.push(TokenView::Load { line_number: line }),
                errors,
            )
        } else if lw == "store"@ {
            spec_tokenize_words(
                words,
                k + 1,
                line,
                tokens.push(TokenView::Store { line_number: line }),
                errors,
            )
        } else if lw == "add"@ {
            spec_tokenize_words(
                words,
                k + 1,
                line,
                tokens.push(TokenView::Add { line_number: line }),
                errors,
            )
        } else if lw == "sub"@ {
            spec_tokenize_words(
                words,
                k + 1,
                line,
                tokens.push(TokenView::Sub { line_number: line }),
                errors,
            )
        } else if lw == "mul"@ {
            spec_tokenize_words(
                words,
                k + 1,
                line,
                tokens.push(TokenView::Mul { line_number: line }),
                errors,
            )
        } else if lw == "div"@ {
            spec_tokenize_words(
                words,
                k + 1,
                line,
                tokens.push(TokenView::Div { line_number: line }),
                errors,
            )
        } else if lw == "goto"@ {
            spec_tokenize_words(
                words,
                k + 1,
                line,
                tokens.push(TokenView::Goto { line_number: line }),
                errors,
            )
        } else if lw == "jzero"@ {
            spec_tokenize_words(
                words,
                k + 1,
                line,
                tokens.push(TokenView::Jzero { line_number: line }),
                errors,
            )
        } else if lw == "jnzero"@ {
            spec_tokenize_words(
                words,
                k + 1,
                line,
                tokens.push(TokenView::Jnzero { line_number: line }),
                errors,
            )
        } else if lw == "end"@ {
            spec_tokenize_words(
                words,
                k + 1,
                line,
                tokens.push(TokenView::End { line_number: line }),
                errors,
            )
        } else if w.len() >= 2 && w[0] == '/' && w[1] == '/' {
            (
                tokens.push(
                    TokenView::Comment { line_number: line, value: spec_join_words(words.skip(k + 1)) },
                ),
                errors,
            )
        } else if w.len() > 0 && w.last() == ':' {
            let name = spec_strip_trailing(w, ':');
            if name.len() == 0 {
                spec_tokenize_words(
                    words,
                    k + 1,
                    line,
                    tokens,
                    errors.push(
                        CompileErrorView {
                            line_number: line,
                            kind: CompileErrorKind::UnknownToken,
                            context: w,
                        },
                    ),
                )
            } else {
                spec_tokenize_words(
                    words,
                    k + 1,
                    line,
                    tokens.push(TokenView::LabelDefinition { line_number: line, value: name }),
                    errors,
                )
            }
        } else if tokens.len() > 0 && spec_expects_argument(tokens.last()) {
            spec_tokenize_words(
                words,
                k + 1,
                line,
                tokens.push(TokenView::Argument { line_number: line, value: w }),
                errors,
            )
        } else if tokens.len() > 0 && tokens.last() matches TokenView::Argument { .. } {
            spec_tokenize_words(
                words,
                k + 1,
                line,
                tokens,
                errors.push(
                    CompileErrorView {
                        line_number: line,
                        kind: CompileErrorKind::ExpectedToken,
                        context: "new line, got '"@ + w + "'"@,
                    },
                ),
            )
        } else {
            spec_tokenize_words(
                words,
                k + 1,
                line,
                tokens,
                errors.push(
                    CompileErrorView {
                        line_number: line,
                        kind: CompileErrorKind::UnknownToken,
                        context: w,
                    },
                ),
            )
        }
    }
}

/// The lines from index `i` on, scanned into tokens and errors; a `NewLine`
/// token follows every line but the last.
pub open spec fn spec_tokenize_lines(
    lines: Seq<Seq<char>>,
    i: int,
    tokens: Seq<TokenView>,
    errors: Seq<CompileErrorView>,
) -> (Seq<TokenView>, Seq<CompileErrorView>)
    decreases lines.len() - i,
{
    if i < 0 || i >= lines.len() {
        (tokens, errors)
    } else {
        let r = spec_tokenize_words(spec_words(lines[i]), 0, (i + 1) as nat, tokens, errors);
        let ts = if i + 1 < lines.len() {
            r.0.push(TokenView::NewLine { line_number: (i + 1) as nat })
        } else {
            r.0
        };
        spec_tokenize_lines(lines, i + 1, ts, r.1)
    }
}

/// The whole token stream and error batch of a source text.
pub open spec fn spec_tokenize(lines: Seq<Seq<char>>) -> (Seq<TokenView>, Seq<CompileErrorView>) {
    spec_tokenize_lines(lines, 0, Seq::empty(), Seq::empty())
}

pub(crate) proof fn lemma_token_views_push(ts: Seq<Token>, t: Token)
    ensures
        spec_token_views(ts.push(t)) == spec_token_views(ts).push(t@),
{
    assert(spec_token_views(ts.push(t)) =~= spec_token_views(ts).push(t@));
}

pub(crate) proof fn lemma_error_views_push(es: Seq<CompileError>, e: CompileError)
    ensures
        spec_error_views(es.push(e)) == spec_error_views(es).push(e@),
{
    assert(spec_error_views(es.push(e)) =~= spec_error_views(es).push(e@));
}

/// Scan one line's words, appending this line's tokens and faults.
#[verifier::loop_isolation(false)]
#[verifier::rlimit(60)]
fn tokenize_words(
    words: &Vec<String>,
    line_number: usize,
    tokens: &mut Vec<Token>,
    errors: &mut Vec<CompileError>,
)
    ensures
        ({
            let r = spec_tokenize_words(
                words@.map_values(|w: String| w@),
                0,
                line_number as nat,
                spec_token_views(old(tokens)@),
                spec_error_views(old(errors)@),
            );
            &&& spec_token_views(final(tokens)@) == r.0
            &&& spec_error_views(final(errors)@) == r.1
        }),
{
    let ghost wv = words@.map_values(|w: String| w@);
    let ghost t0 = spec_token_views(tokens@);
    let ghost e0 = spec_error_views(errors@);
    let n = words.len();
    let mut k: usize = 0;
    while k < n
        invariant
            k <= n,
            n == words@.len(),
            spec_tokenize_words(wv, 0, line_number as nat, t0, e0) == spec_tokenize_words(
                wv,
                k as int,
                line_number as nat,
                spec_token_views(tokens@),
                spec_error_views(errors@),
            ),
        decreases n - k,
    {
        let word = &words[k];
        proof {
            assert(wv[k as int] == word@);
        }
        if eq_lowered(word.as_str(), "load") {
            proof {
                lemma_token_views_push(
                    tokens@,
                    Token::Load { line_number },
                );
            }
            tokens.push(Token::Load { line_number });
        } else if eq_lowered(word.as_str(), "store") {
            proof {
                lemma_token_views_push(tokens@, Token::Store { line_number });
            }
            tokens.push(Token::Store { line_number });
        } else if eq_lowered(word.as_str(), "add") {
            proof {
                lemma_token_views_push(tokens@, Token::Add { line_number });
            }
            tokens.push(Token::Add { line_number });
        } else if eq_lowered(word.as_str(), "sub") {
            proof {
                lemma_token_views_push(tokens@, Token::Sub { line_number });
            }
            tokens.push(Token::Sub { line_number });
        } else if eq_lowered(word.as_str(), "mul") {
            proof {
                lemma_token_views_push(tokens@, Token::Mul { line_number });
            }
            tokens.push(Token::Mul { line_number });
        } else if eq_lowered(word.as_str(), "div") {
            proof {
                lemma_token_views_push(tokens@, Token::Div { line_number });
            }
            tokens.push(Token::Div { line_number });
        } else if eq_lowered(word.as_str(), "goto") {
            proof {
                lemma_token_views_push(tokens@, Token::Goto { line_number });
            }
            tokens.push(Token::Goto { line_number });
        } else if eq_lowered(word.as_str(), "jzero") {
            proof {
                lemma_token_views_push(tokens@, Token::Jzero { line_number });
            }
            tokens.push(Token::Jzero { line_number });
        } else if eq_lowered(word.as_str(), "jnzero") {
            proof {
                lemma_token_views_push(tokens@, Token::Jnzero { line_number });
            }
            tokens.push(Token::Jnzero { line_number });
        } else if eq_lowered(word.as_str(), "end") {
            proof {
                lemma_token_views_push(tokens@, Token::End { line_number });
            }
            tokens.push(Token::End { line_number });
        } else {
            let wlen = word.as_str().unicode_len();
            let starts_comment = wlen >= 2 && word.as_str().get_char(0) == '/'
                && word.as_str().get_char(1) == '/';
            if starts_comment {
                let comment = join_words_from(words, k + 1);
                let t = Token::Comment { line_number, value: comment };
                proof {
                    lemma_token_views_push(tokens@, t);
                }
                tokens.push(t);
                return ;
            }
            let ends_colon = wlen > 0 && word.as_str().get_char(wlen - 1) == ':';
            if ends_colon {
                let name = strip_trailing(word.as_str(), ':');
                if name.as_str().unicode_len() == 0 {
                    let e = CompileError::new(
                        line_number,
                        CompileErrorKind::UnknownToken,
                        word.clone(),
                    );
                    proof {
                        lemma_error_views_push(errors@, e);
                    }
                    errors.push(e);
                } else {
                    let t = Token::LabelDefinition { line_number, value: name };
                    proof {
                        lemma_token_views_push(tokens@, t);
                    }
                    tokens.push(t);
                }
            } else {
                let last_expects = if tokens.len() > 0 {
                    token_expects_argument(&tokens[tokens.len() - 1])
                } else {
                    false
                };
                if last_expects {
                    let t = Token::Argument { line_number, value: word.clone() };
                    proof {
                        lemma_token_views_push(tokens@, t);
                    }
                    tokens.push(t);
                } else {
                    let last_is_argument = if tokens.len() > 0 {
                        match &tokens[tokens.len() - 1] {
                            Token::Argument { .. } => true,
                            _ => false,
                        }
                    } else {
                        false
                    };
                    if last_is_argument {
                        let mut context = String::new();
                        context.append("new line, got '");
                        context.append(word.as_str());
                        context.append("'");
                        proof {
                            assert(context@ =~= "new line, got '"@ + word@ + "'"@);
                        }
                        let e = CompileError::new(
                            line_number,
                            CompileErrorKind::ExpectedToken,
                            context,
                        );
                        proof {
                            lemma_error_views_push(errors@, e);
                        }
                        errors.push(e);
                    } else {
                        let e = CompileError::new(
                            line_number,
                            CompileErrorKind::UnknownToken,
                            word.clone(),
                        );
                        proof {
                            lemma_error_views_push(errors@, e);
                        }
                        errors.push(e);
                    }
                }
            }
        }
        k += 1;
    }
}

/// Whether this token is a mnemonic awaiting its argument.
fn token_expects_argument(t: &Token) -> (b: bool)
    ensures
        b == spec_expects_argument(t@),
{
    match t {
        Token::Load { .. } => true,
        Token::Store { .. } => true,
        Token::Add { .. } => true,
        Token::Sub { .. } => true,
        Token::Mul { .. } => true,
        Token::Div { .. } => true,
        Token::Goto { .. } => true,
        Token::Jzero { .. } => true,
        Token::Jnzero { .. } => true,
        Token::End { .. } => true,
        Token::LabelDefinition { .. } => false,
        Token::Argument { .. } => false,
        Token::Comment { .. } => false,
        Token::NewLine { .. } => false,
    }
}

/// Scan source text into its token stream. Tokenization only fails on
/// lexical faults — a bare `:`, or a second argument in a row — and then
/// returns every fault found over the whole input.
#[verifier::loop_isolation(false)]
pub fn tokenize<S: IntoSourceCode>(source_code: S) -> (r: Result<Vec<Token>, Vec<CompileError>>)
    ensures
        ({
            let t = spec_tokenize(source_code.spec_source_lines());
            match r {
                Ok(ts) => t.1.len() == 0 && spec_token_views(ts@) == t.0,
                Err(es) => t.1.len() > 0 && spec_error_views(es@) == t.1,
            }
        }),
{
    let ghost src = source_code.spec_source_lines();
    let lines = source_code.into_lines();
    let ghost lv = lines@.map_values(|l: String| l@);
    let mut tokens: Vec<Token> = Vec::new();
    let mut errors: Vec<CompileError> = Vec::new();
    proof {
        assert(spec_token_views(tokens@) =~= Seq::<TokenView>::empty());
        assert(spec_error_views(errors@) =~= Seq::<CompileErrorView>::empty());
    }
    let n = lines.len();
    let mut i: usize = 0;
    while i < n
        invariant
            i <= n,
            n == lines@.len(),
            spec_tokenize(src) == spec_tokenize_lines(
                lv,
                i as int,
                spec_token_views(tokens@),
                spec_error_views(errors@),
            ),
        decreases n - i,
    {
        let words = split_words(lines[i].as_str());
        tokenize_words(&words, i + 1, &mut tokens, &mut errors);
        if i + 1 < n {
            let t = Token::NewLine { line_number: i + 1 };
            proof {
                lemma_token_views_push(tokens@, t);
            }
            tokens.push(t);
        }
        proof {
            assert(lv[i as int] == lines@[i as int]@);
        }
        i += 1;
    }
    if errors.len() == 0 {
        Ok(tokens)
    } else {
        Err(errors)
    }
}

} // verus!
