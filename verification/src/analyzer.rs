use vstd::prelude::*;
use crate::lsp_errors::{LSPError, LSPErrorView};
use crate::parser::{spec_parse_address, spec_parse_operand};
use crate::lsp_token::{LSPToken, LSPTokenKind, LSPTokenView};
use crate::source::IntoSourceCode;
use crate::text::{
    eq_lowered, join_words_from, spec_join_words, spec_lower_seq, spec_parse_u64,
    spec_parse_usize, spec_strip_leading, spec_strip_trailing, spec_words, parse_u64, parse_usize,
    split_words, strip_leading, strip_trailing,
};

verus! {

/// The annotated-token sequence a token list stands for.
pub open spec fn spec_lsp_views(ts: Seq<LSPToken>) -> Seq<LSPTokenView> {
    ts.map_values(|t: LSPToken| t@)
}

/// Whether this token class is a mnemonic, after which a fresh word on the
/// same line is out of place.
pub open spec fn spec_kind_is_mnemonic(k: LSPTokenKind) -> bool {
    match k {
        LSPTokenKind::Load => true,
        LSPTokenKind::Store => true,
        LSPTokenKind::Add => true,
        LSPTokenKind::Sub => true,
        LSPTokenKind::Mul => true,
        LSPTokenKind::Div => true,
        LSPTokenKind::Goto => true,
        LSPTokenKind::Jzero => true,
        LSPTokenKind::Jnzero => true,
        LSPTokenKind::End => true,
        _ => false,
    }
}

/// How a word reads as an operand: the argument class its prefix gives it,
/// with an `InvalidArgument` diagnostic when the rest is not a number of the
/// right width.
pub open spec fn spec_analyze_operand(s: Seq<char>) -> LSPTokenView {
    if s.len() > 0 && s[0] == '#' {
        if spec_parse_u64(spec_strip_leading(s, '#')) is Some {
            LSPTokenView { kind: LSPTokenKind::ImmediateArgument, lexeme: s, errors: Seq::empty() }
        } else {
            LSPTokenView {
                kind: LSPTokenKind::ImmediateArgument,
                lexeme: s,
                errors: seq![LSPErrorView::InvalidArgument(s)],
            }
        }
    } else if s.len() > 0 && s[0] == '*' {
        if spec_parse_usize(spec_strip_leading(s, '*')) is Some {
            LSPTokenView {
                kind: LSPTokenKind::IndirectAddressArgument,
                lexeme: s,
                errors: Seq::empty(),
            }
        } else {
            LSPTokenView {
                kind: LSPTokenKind::IndirectAddressArgument,
                lexeme: s,
                errors: seq![LSPErrorView::InvalidArgument(s)],
            }
        }
    } else {
        if spec_parse_usize(s) is Some {
            LSPTokenView {
                kind: LSPTokenKind::DirectAddressArgument,
                lexeme: s,
                errors: Seq::empty(),
            }
        } else {
            LSPTokenView {
                kind: LSPTokenKind::DirectAddressArgument,
                lexeme: s,
                errors: seq![LSPErrorView::InvalidArgument(s)],
            }
        }
    }
}

/// How a word reads as a store target: as an operand, without the literal
/// form.
pub open spec fn spec_analyze_address(s: Seq<char>) -> LSPTokenView {
    if s.len() > 0 && s[0] == '*' {
        if spec_parse_usize(spec_strip_leading(s, '*')) is Some {
            LSPTokenView {
                kind: LSPTokenKind::IndirectAddressArgument,
                lexeme: s,
                errors: Seq::empty(),
            }
        } else {
            LSPTokenView {
                kind: LSPTokenKind::IndirectAddressArgument,
                lexeme: s,
                errors: seq![LSPErrorView::InvalidArgument(s)],
            }
        }
    } else {
        if spec_parse_usize(s) is Some {
            LSPTokenView {
                kind: LSPTokenKind::DirectAddressArgument,
                lexeme: s,
                errors: Seq::empty(),
            }
        } else {
            LSPTokenView {
                kind: LSPTokenKind::DirectAddressArgument,
                lexeme: s,
                errors: seq![LSPErrorView::InvalidArgument(s)],
            }
        }
    }
}

/// The analyzer agrees with the compiler on what an argument is: a word it
/// annotates without diagnostics is exactly a word the parser accepts, for
/// operands and for store targets alike.
pub proof fn lemma_analyzer_agrees_with_parser(w: Seq<char>)
    ensures
        (spec_analyze_operand(w).errors.len() == 0) == (spec_parse_operand(w) is Some),
        (spec_analyze_address(w).errors.len() == 0) == (spec_parse_address(w) is Some),
{
}

/// A mnemonic token with no diagnostics.
pub open spec fn spec_plain(kind: LSPTokenKind, lexeme: Seq<char>) -> LSPTokenView {
    LSPTokenView { kind, lexeme, errors: Seq::empty() }
}

/// A mnemonic token whose argument is missing at the end of its line.
pub open spec fn spec_missing_argument(kind: LSPTokenKind, lexeme: Seq<char>) -> LSPTokenView {
    LSPTokenView { kind, lexeme, errors: seq![LSPErrorView::MissingArgument] }
}

/// An unknown token with one diagnostic.
pub open spec fn spec_unknown(lexeme: Seq<char>, e: LSPErrorView) -> LSPTokenView {
    LSPTokenView { kind: LSPTokenKind::Unknown, lexeme, errors: seq![e] }
}

/// One line's words from index `k` on, annotated. Mnemonics consume the
/// next word of the same line as their argument; a word straight after a
/// mnemonic's argument-less form, a bare `:`, and anything unrecognized get
/// `Unknown` tokens with diagnostics; a word ending in `:` defines a label;
/// `//` opens a comment that runs to the end of the line.
pub open spec fn spec_analyze_words(
    words: Seq<Seq<char>>,
    k: int,
    tokens: Seq<LSPTokenView>,
) -> Seq<LSPTokenView>
    decreases words.len() - k,
{
    if k < 0 || k >= words.len() {
        tokens
    } else {
        let w = words[k];
        let lw = spec_lower_seq(w);
        if tokens.len() > 0 && spec_kind_is_mnemonic(tokens.last().kind) {
            spec_analyze_words(
                words,
                k + 1,
                tokens.push(spec_unknown(w, LSPErrorView::UnexpectedToken(w))),
            )
        } else if lw == "load"@ {
            if k + 1 < words.len() {
                spec_analyze_words(
                    words,
                    k + 2,
                    tokens.push(spec_plain(LSPTokenKind::Load, w)).push(
                        spec_analyze_operand(words[k + 1]),
                    ),
                )
            } else {
                spec_analyze_words(
                    words,
                    k + 1,
                    tokens.push(spec_missing_argument(LSPTokenKind::Load, w)),
                )
            }
        } else if lw == "store"@ {
            if k + 1 < words.len() {
                spec_analyze_words(
                    words,
                    k + 2,
                    tokens.push(spec_plain(LSPTokenKind::Store, w)).push(
                        spec_analyze_address(words[k + 1]),
                    ),
                )
            } else {
                spec_analyze_words(
                    words,
                    k + 1,
                    tokens.push(spec_missing_argument(LSPTokenKind::Store, w)),
                )
            }
        } else if lw == "add"@ {
            if k + 1 < words.len() {
                spec_analyze_words(
                    words,
                    k + 2,
                    tokens.push(spec_plain(LSPTokenKind::Add, w)).push(
                        spec_analyze_operand(words[k + 1]),
                    ),
                )
            } else {
                spec_analyze_words(
                    words,
                    k + 1,
                    tokens.push(spec_missing_argument(LSPTokenKind::Add, w)),
                )
            }
        } else if lw == "sub"@ {
            if k + 1 < words.len() {
                spec_analyze_words(
                    words,
                    k + 2,
                    tokens.push(spec_plain(LSPTokenKind::Sub, w)).push(
                        spec_analyze_operand(words[k + 1]),
                    ),
                )
            } else {
                spec_analyze_words(
                    words,
                    k + 1,
                    tokens.push(spec_missing_argument(LSPTokenKind::Sub, w)),
                )
            }
        } else if lw == "mul"@ {
            if k + 1 < words.len() {
                spec_analyze_words(
                    words,
                    k + 2,
                    tokens.push(spec_plain(LSPTokenKind::Mul, w)).push(
                        spec_analyze_operand(words[k + 1]),
                    ),
                )
            } else {
                spec_analyze_words(
                    words,
                    k + 1,
                    tokens.push(spec_missing_argument(LSPTokenKind::Mul, w)),
                )
            }
        } else if lw == "div"@ {
            if k + 1 < words.len() {
                spec_analyze_words(
                    words,
                    k + 2,
                    tokens.push(spec_plain(LSPTokenKind::Div, w)).push(
                        spec_analyze_operand(words[k + 1]),
                    ),
                )
            } else {
                spec_analyze_words(
                    words,
                    k + 1,
                    tokens.push(spec_missing_argument(LSPTokenKind::Div, w)),
                )
            }
        } else if lw == "goto"@ {
            if k + 1 < words.len() {
                spec_analyze_words(
                    words,
                    k + 2,
                    tokens.push(spec_plain(LSPTokenKind::Goto, w)).push(
                        spec_plain(LSPTokenKind::JumpArgument, words[k + 1]),
                    ),
                )
            } else {
                spec_analyze_words(
                    words,
                    k + 1,
                    tokens.push(spec_missing_argument(LSPTokenKind::Goto, w)),
                )
            }
        } else if lw == "jzero"@ {
            if k + 1 < words.len() {
                spec_analyze_words(
                    words,
                    k + 2,
                    tokens.push(spec_plain(LSPTokenKind::Jzero, w)).push(
                        spec_plain(LSPTokenKind::JumpArgument, words[k + 1]),
                    ),
                )
            } else {
                spec_analyze_words(
                    words,
                    k + 1,
                    tokens.push(spec_missing_argument(LSPTokenKind::Jzero, w)),
                )
            }
        } else if lw == "jnzero"@ {
            if k + 1 < words.len() {
                spec_analyze_words(
                    words,
                    k + 2,
                    tokens.push(spec_plain(LSPTokenKind::Jnzero, w)).push(
                        spec_plain(LSPTokenKind::JumpArgument, words[k + 1]),
                    ),
                )
            } else {
                spec_analyze_words(
                    words,
                    k + 1,
                    tokens.push(spec_missing_argument(LSPTokenKind::Jnzero, w)),
                )
            }
        } else if lw == "end"@ {
            spec_analyze_words(words, k + 1, tokens.push(spec_plain(LSPTokenKind::End, w)))
        } else if w.len() > 0 && w.last() == ':' {
            let name = spec_strip_trailing(w, ':');
            if name.len() > 0 {
                spec_analyze_words(
                    words,
                    k + 1,
                    tokens.push(spec_plain(LSPTokenKind::LabelDefinition, name)),
                )
            } else {
                spec_analyze_words(
                    words,
                    k + 1,
                    tokens.push(spec_unknown(w, LSPErrorView::UnknownToken(w))),
                )
            }
        } else if w.len() >= 2 && w[0] == '/' && w[1] == '/' {
            tokens.push(spec_plain(LSPTokenKind::Comment, spec_join_words(words.skip(k + 1))))
        } else {
            spec_analyze_words(
                words,
                k + 1,
                tokens.push(spec_unknown(w, LSPErrorView::UnknownToken(w))),
            )
        }
    }
}

/// Every line of a source text annotated, with a `NewLine` token closing
/// every line but the last.
pub open spec fn spec_analyze(lines: Seq<Seq<char>>) -> Seq<Seq<LSPTokenView>> {
    Seq::new(
        lines.len(),
        |i: int|
            {
                let ts = spec_analyze_words(spec_words(lines[i]), 0, Seq::empty());
                if i + 1 < lines.len() {
                    ts.push(spec_plain(LSPTokenKind::NewLine, Seq::empty()))
                } else {
                    ts
                }
            },
    )
}

fn no_errors() -> (r: Vec<LSPError>)
    ensures
        r@.map_values(|e: LSPError| e@) == Seq::<LSPErrorView>::empty(),
{
    let r: Vec<LSPError> = Vec::new();
    proof {
        assert(r@.map_values(|e: LSPError| e@) =~= Seq::<LSPErrorView>::empty());
    }
    r
}

fn one_error(e: LSPError) -> (r: Vec<LSPError>)
    ensures
        r@.map_values(|x: LSPError| x@) == seq![e@],
{
    let ghost ev = e@;
    let mut r: Vec<LSPError> = Vec::new();
    r.push(e);
    proof {
        assert(r@.map_values(|x: LSPError| x@) =~= seq![ev]);
    }
    r
}

/// Annotate one word as an operand.
pub fn analyze_operand(s: &str) -> (t: LSPToken)
    ensures
        t@ == spec_analyze_operand(s@),
{
    let len = s.unicode_len();
    if len > 0 && s.get_char(0) == '#' {
        let body = strip_leading(s, '#');
        match parse_u64(body.as_str()) {
            Some(_) => LSPToken::new(LSPTokenKind::ImmediateArgument, s.to_owned(), no_errors()),
            None => LSPToken::new(
                LSPTokenKind::ImmediateArgument,
                s.to_owned(),
                one_error(LSPError::InvalidArgument(s.to_owned())),
            ),
        }
    } else if len > 0 && s.get_char(0) == '*' {
        let body = strip_leading(s, '*');
        match parse_usize(body.as_str()) {
            Some(_) => LSPToken::new(
                LSPTokenKind::IndirectAddressArgument,
                s.to_owned(),
                no_errors(),
            ),
            None => LSPToken::new(
                LSPTokenKind::IndirectAddressArgument,
                s.to_owned(),
                one_error(LSPError::InvalidArgument(s.to_owned())),
            ),
        }
    } else {
        match parse_usize(s) {
            Some(_) => LSPToken::new(LSPTokenKind::DirectAddressArgument, s.to_owned(), no_errors()),
            None => LSPToken::new(
                LSPTokenKind::DirectAddressArgument,
                s.to_owned(),
                one_error(LSPError::InvalidArgument(s.to_owned())),
            ),
        }
    }
}

/// Annotate one word as a store target.
pub fn analyze_address(s: &str) -> (t: LSPToken)
    ensures
        t@ == spec_analyze_address(s@),
{
    let len = s.unicode_len();
    if len > 0 && s.get_char(0) == '*' {
        let body = strip_leading(s, '*');
        match parse_usize(body.as_str()) {
            Some(_) => LSPToken::new(
                LSPTokenKind::IndirectAddressArgument,
                s.to_owned(),
                no_errors(),
            ),
            None => LSPToken::new(
                LSPTokenKind::IndirectAddressArgument,
                s.to_owned(),
                one_error(LSPError::InvalidArgument(s.to_owned())),
            ),
        }
    } else {
        match parse_usize(s) {
            Some(_) => LSPToken::new(LSPTokenKind::DirectAddressArgument, s.to_owned(), no_errors()),
            None => LSPToken::new(
                LSPTokenKind::DirectAddressArgument,
                s.to_owned(),
                one_error(LSPError::InvalidArgument(s.to_owned())),
            ),
        }
    }
}

proof fn lemma_lsp_views_push(ts: Seq<LSPToken>, t: LSPToken)
    ensures
        spec_lsp_views(ts.push(t)) == spec_lsp_views(ts).push(t@),
{
    assert(spec_lsp_views(ts.push(t)) =~= spec_lsp_views(ts).push(t@));
}

/// Whether this token's class is a mnemonic.
fn kind_is_mnemonic(t: &LSPToken) -> (b: bool)
    ensures
        b == spec_kind_is_mnemonic(t@.kind),
{
    match *t.kind() {
        LSPTokenKind::Load => true,
        LSPTokenKind::Store => true,
        LSPTokenKind::Add => true,
        LSPTokenKind::Sub => true,
        LSPTokenKind::Mul => true,
        LSPTokenKind::Div => true,
        LSPTokenKind::Goto => true,
        LSPTokenKind::Jzero => true,
        LSPTokenKind::Jnzero => true,
        LSPTokenKind::End => true,
        LSPTokenKind::LabelDefinition => false,
        LSPTokenKind::JumpArgument => false,
        LSPTokenKind::ImmediateArgument => false,
        LSPTokenKind::IndirectAddressArgument => false,
        LSPTokenKind::DirectAddressArgument => false,
        LSPTokenKind::Comment => false,
        LSPTokenKind::NewLine => false,
        LSPTokenKind::Unknown => false,
    }
}

/// Annotate one line's words.
#[verifier::loop_isolation(false)]
#[verifier::rlimit(100)]
fn analyze_words(words: &Vec<String>) -> (r: Vec<LSPToken>)
    ensures
        spec_lsp_views(r@) == spec_analyze_words(words@.map_values(|w: String| w@), 0, Seq::empty()),
{
    let ghost wv = words@.map_values(|w: String| w@);
    let mut tokens: Vec<LSPToken> = Vec::new();
    proof {
        assert(spec_lsp_views(tokens@) =~= Seq::<LSPTokenView>::empty());
    }
    let n = words.len();
    let mut k: usize = 0;
    while k < n
        invariant
            k <= n,
            n == words@.len(),
            spec_analyze_words(wv, 0, Seq::empty()) == spec_analyze_words(
                wv,
                k as int,
                spec_lsp_views(tokens@),
            ),
        decreases n - k,
    {
        let word = &words[k];
        proof {
            assert(wv[k as int] == word@);
        }
        let last_is_mnemonic = if tokens.len() > 0 {
            kind_is_mnemonic(&tokens[tokens.len() - 1])
        } else {
            false
        };
        if last_is_mnemonic {
            let t = LSPToken::new(
                LSPTokenKind::Unknown,
                word.clone(),
                one_error(LSPError::UnexpectedToken(word.clone())),
            );
            proof {
                lemma_lsp_views_push(tokens@, t);
            }
            tokens.push(t);
            k += 1;
        } else if eq_lowered(word.as_str(), "load") {
            if k + 1 < n {
                proof {
                    assert(wv[k + 1] == words@[k + 1]@);
                }
                let t = LSPToken::new(LSPTokenKind::Load, word.clone(), no_errors());
                proof {
                    lemma_lsp_views_push(tokens@, t);
                }
                tokens.push(t);
                let arg = analyze_operand(words[k + 1].as_str());
                proof {
                    lemma_lsp_views_push(tokens@, arg);
                }
                tokens.push(arg);
                k += 2;
            } else {
                let t = LSPToken::new(
                    LSPTokenKind::Load,
                    word.clone(),
                    one_error(LSPError::MissingArgument),
                );
                proof {
                    lemma_lsp_views_push(tokens@, t);
                }
                tokens.push(t);
                k += 1;
            }
        } else if eq_lowered(word.as_str(), "store") {
            if k + 1 < n {
                proof {
                    assert(wv[k + 1] == words@[k + 1]@);
                }
                let t = LSPToken::new(LSPTokenKind::Store, word.clone(), no_errors());
                proof {
                    lemma_lsp_views_push(tokens@, t);
                }
                tokens.push(t);
                let arg = analyze_address(words[k + 1].as_str());
                proof {
                    lemma_lsp_views_push(tokens@, arg);
                }
                tokens.push(arg);
                k += 2;
            } else {
                let t = LSPToken::new(
                    LSPTokenKind::Store,
                    word.clone(),
                    one_error(LSPError::MissingArgument),
                );
                proof {
                    lemma_lsp_views_push(tokens@, t);
                }
                tokens.push(t);
                k += 1;
            }
        } else if eq_lowered(word.as_str(), "add") {
            if k + 1 < n {
                proof {
                    assert(wv[k + 1] == words@[k + 1]@);
                }
                let t = LSPToken::new(LSPTokenKind::Add, word.clone(), no_errors());
                proof {
                    lemma_lsp_views_push(tokens@, t);
                }
                tokens.push(t);
                let arg = analyze_operand(words[k + 1].as_str());
                proof {
                    lemma_lsp_views_push(tokens@, arg);
                }
                tokens.push(arg);
                k += 2;
            } else {
                let t = LSPToken::new(
                    LSPTokenKind::Add,
                    word.clone(),
                    one_error(LSPError::MissingArgument),
                );
                proof {
                    lemma_lsp_views_push(tokens@, t);
                }
                tokens.push(t);
                k += 1;
            }
        } else if eq_lowered(word.as_str(), "sub") {
            if k + 1 < n {
                proof {
                    assert(wv[k + 1] == words@[k + 1]@);
                }
                let t = LSPToken::new(LSPTokenKind::Sub, word.clone(), no_errors());
                proof {
                    lemma_lsp_views_push(tokens@, t);
                }
                tokens.push(t);
                let arg = analyze_operand(words[k + 1].as_str());
                proof {
                    lemma_lsp_views_push(tokens@, arg);
                }
                tokens.push(arg);
                k += 2;
            } else {
                let t = LSPToken::new(
                    LSPTokenKind::Sub,
                    word.clone(),
                    one_error(LSPError::MissingArgument),
                );
                proof {
                    lemma_lsp_views_push(tokens@, t);
                }
                tokens.push(t);
                k += 1;
            }
        } else if eq_lowered(word.as_str(), "mul") {
            if k + 1 < n {
                proof {
                    assert(wv[k + 1] == words@[k + 1]@);
                }
                let t = LSPToken::new(LSPTokenKind::Mul, word.clone(), no_errors());
                proof {
                    lemma_lsp_views_push(tokens@, t);
                }
                tokens.push(t);
                let arg = analyze_operand(words[k + 1].as_str());
                proof {
                    lemma_lsp_views_push(tokens@, arg);
                }
                tokens.push(arg);
                k += 2;
            } else {
                let t = LSPToken::new(
                    LSPTokenKind::Mul,
                    word.clone(),
                    one_error(LSPError::MissingArgument),
                );
                proof {
                    lemma_lsp_views_push(tokens@, t);
                }
                tokens.push(t);
                k += 1;
            }
        } else if eq_lowered(word.as_str(), "div") {
            if k + 1 < n {
                proof {
                    assert(wv[k + 1] == words@[k + 1]@);
                }
                let t = LSPToken::new(LSPTokenKind::Div, word.clone(), no_errors());
                proof {
                    lemma_lsp_views_push(tokens@, t);
                }
                tokens.push(t);
                let arg = analyze_operand(words[k + 1].as_str());
                proof {
                    lemma_lsp_views_push(tokens@, arg);
                }
                tokens.push(arg);
                k += 2;
            } else {
                let t = LSPToken::new(
                    LSPTokenKind::Div,
                    word.clone(),
                    one_error(LSPError::MissingArgument),
                );
                proof {
                    lemma_lsp_views_push(tokens@, t);
                }
                tokens.push(t);
                k += 1;
            }
        } else if eq_lowered(word.as_str(), "goto") {
            if k + 1 < n {
                proof {
                    assert(wv[k + 1] == words@[k + 1]@);
                }
                let t = LSPToken::new(LSPTokenKind::Goto, word.clone(), no_errors());
                proof {
                    lemma_lsp_views_push(tokens@, t);
                }
                tokens.push(t);
                let arg = LSPToken::new(
                    LSPTokenKind::JumpArgument,
                    words[k + 1].clone(),
                    no_errors(),
                );
                proof {
                    lemma_lsp_views_push(tokens@, arg);
                }
                tokens.push(arg);
                k += 2;
            } else {
                let t = LSPToken::new(
                    LSPTokenKind::Goto,
                    word.clone(),
                    one_error(LSPError::MissingArgument),
                );
                proof {
                    lemma_lsp_views_push(tokens@, t);
                }
                tokens.push(t);
                k += 1;
            }
        } else if eq_lowered(word.as_str(), "jzero") {
            if k + 1 < n {
                proof {
                    assert(wv[k + 1] == words@[k + 1]@);
                }
                let t = LSPToken::new(LSPTokenKind::Jzero, word.clone(), no_errors());
                proof {
                    lemma_lsp_views_push(tokens@, t);
                }
                tokens.push(t);
                let arg = LSPToken::new(
                    LSPTokenKind::JumpArgument,
                    words[k + 1].clone(),
                    no_errors(),
                );
                proof {
                    lemma_lsp_views_push(tokens@, arg);
                }
                tokens.push(arg);
                k += 2;
            } else {
                let t = LSPToken::new(
                    LSPTokenKind::Jzero,
                    word.clone(),
                    one_error(LSPError::MissingArgument),
                );
                proof {
                    lemma_lsp_views_push(tokens@, t);
                }
                tokens.push(t);
                k += 1;
            }
        } else if eq_lowered(word.as_str(), "jnzero") {
            if k + 1 < n {
                proof {
                    assert(wv[k + 1] == words@[k + 1]@);
                }
                let t = LSPToken::new(LSPTokenKind::Jnzero, word.clone(), no_errors());
                proof {
                    lemma_lsp_views_push(tokens@, t);
                }
                tokens.push(t);
                let arg = LSPToken::new(
                    LSPTokenKind::JumpArgument,
                    words[k + 1].clone(),
                    no_errors(),
                );
                proof {
                    lemma_lsp_views_push(tokens@, arg);
                }
                tokens.push(arg);
                k += 2;
            } else {
                let t = LSPToken::new(
                    LSPTokenKind::Jnzero,
                    word.clone(),
                    one_error(LSPError::MissingArgument),
                );
                proof {
                    lemma_lsp_views_push(tokens@, t);
                }
                tokens.push(t);
                k += 1;
            }
        } else if eq_lowered(word.as_str(), "end") {
            let t = LSPToken::new(LSPTokenKind::End, word.clone(), no_errors());
            proof {
                lemma_lsp_views_push(tokens@, t);
            }
            tokens.push(t);
            k += 1;
        } else {
            let wlen = word.as_str().unicode_len();
            let ends_colon = wlen > 0 && word.as_str().get_char(wlen - 1) == ':';
            if ends_colon {
                let name = strip_trailing(word.as_str(), ':');
                if name.as_str().unicode_len() > 0 {
                    let t = LSPToken::new(LSPTokenKind::LabelDefinition, name, no_errors());
                    proof {
                        lemma_lsp_views_push(tokens@, t);
                    }
                    tokens.push(t);
                } else {
                    let t = LSPToken::new(
                        LSPTokenKind::Unknown,
                        word.clone(),
                        one_error(LSPError::UnknownToken(word.clone())),
                    );
                    proof {
                        lemma_lsp_views_push(tokens@, t);
                    }
                    tokens.push(t);
                }
                k += 1;
            } else {
                let starts_comment = wlen >= 2 && word.as_str().get_char(0) == '/'
                    && word.as_str().get_char(1) == '/';
                if starts_comment {
                    let comment = join_words_from(words, k + 1);
                    let t = LSPToken::new(LSPTokenKind::Comment, comment, no_errors());
                    proof {
                        lemma_lsp_views_push(tokens@, t);
                    }
                    tokens.push(t);
                    return tokens;
                } else {
                    let t = LSPToken::new(
                        LSPTokenKind::Unknown,
                        word.clone(),
                        one_error(LSPError::UnknownToken(word.clone())),
                    );
                    proof {
                        lemma_lsp_views_push(tokens@, t);
                    }
                    tokens.push(t);
                    k += 1;
                }
            }
        }
    }
    tokens
}

/// Annotate source text line by line for editor tooling: each line becomes
/// the ordered annotated tokens the analyzer reads in it, closed by a
/// `NewLine` token on every line but the last.
#[verifier::loop_isolation(false)]
pub fn analyze<S: IntoSourceCode>(source_code: S) -> (r: Vec<Vec<LSPToken>>)
    ensures
        r@.map_values(|v: Vec<LSPToken>| spec_lsp_views(v@)) == spec_analyze(
            source_code.spec_source_lines(),
        ),
{
    let ghost src = source_code.spec_source_lines();
    let lines = source_code.into_lines();
    let ghost lv = lines@.map_values(|l: String| l@);
    let mut result: Vec<Vec<LSPToken>> = Vec::new();
    let n = lines.len();
    let mut i: usize = 0;
    while i < n
        invariant
            i <= n,
            n == lines@.len(),
            result@.len() == i,
            forall|j: int|
                0 <= j < i ==> spec_lsp_views(#[trigger] result@[j]@) == spec_analyze(src)[j],
        decreases n - i,
    {
        proof {
            assert(lv[i as int] == lines@[i as int]@);
        }
        let words = split_words(lines[i].as_str());
        let mut tokens = analyze_words(&words);
        if i + 1 < n {
            let t = LSPToken::new(LSPTokenKind::NewLine, String::new(), no_errors());
            proof {
                lemma_lsp_views_push(tokens@, t);
            }
            tokens.push(t);
        }
        proof {
            assert(spec_lsp_views(tokens@) == spec_analyze(src)[i as int]);
        }
        result.push(tokens);
        i += 1;
    }
    proof {
        assert(result@.map_values(|v: Vec<LSPToken>| spec_lsp_views(v@)) =~= spec_analyze(src));
    }
    result
}

} // verus!
