//! The tokenizer: one left-to-right pass over the characters of the
//! source, longest-match greedy for each token class, no backtracking.
//!
//! The model is `spec_tokenize`, a recursive scan over the character
//! sequence; `Lexer::tokenize` is proved to return exactly its result.

pub mod error;
pub mod token;

use vstd::prelude::*;

use crate::text::{chars_of, push_char};
use crate::lexer::error::{LexerError, LexerErrorV};
use crate::lexer::token::{Token, TokenV, keyword_or_identifier, let_word, mutable_word, unit_word};
use vstd::string::StringExecFns;

verus! {

pub open spec fn is_digit(c: char) -> bool {
    '0' <= c && c <= '9'
}

pub open spec fn is_ident_start(c: char) -> bool {
    ('a' <= c && c <= 'z') || ('A' <= c && c <= 'Z') || c == '_'
}

pub open spec fn is_ident_char(c: char) -> bool {
    is_digit(c) || is_ident_start(c)
}

pub open spec fn is_space(c: char) -> bool {
    c == ' ' || c == '\t' || c == '\n'
}

/// Scan of a number literal: starting at `j`, extend over digits, and over
/// one decimal point; a second point stops the scan.  Returns the position
/// after the literal and whether a point was seen.
pub open spec fn scan_number(cs: Seq<char>, j: int, has_dot: bool) -> (int, bool)
    decreases cs.len() - j,
        when 0 <= j
{
    if j >= cs.len() {
        (j, has_dot)
    } else if is_digit(cs[j]) {
        scan_number(cs, j + 1, has_dot)
    } else if cs[j] == '.' && !has_dot {
        scan_number(cs, j + 1, true)
    } else {
        (j, has_dot)
    }
}

pub proof fn lemma_scan_number_bounds(cs: Seq<char>, j: int, has_dot: bool)
    requires
        0 <= j <= cs.len(),
    ensures
        j <= scan_number(cs, j, has_dot).0 <= cs.len(),
    decreases cs.len() - j,
{
    if j < cs.len() {
        if is_digit(cs[j]) {
            lemma_scan_number_bounds(cs, j + 1, has_dot);
        } else if cs[j] == '.' && !has_dot {
            lemma_scan_number_bounds(cs, j + 1, true);
        }
    }
}

/// Scan of an identifier: extend while the characters are alphanumeric or
/// an underscore.  Returns the position after the word.
pub open spec fn scan_ident(cs: Seq<char>, j: int) -> int
    decreases cs.len() - j,
        when 0 <= j
{
    if j >= cs.len() {
        j
    } else if is_ident_char(cs[j]) {
        scan_ident(cs, j + 1)
    } else {
        j
    }
}

pub proof fn lemma_scan_ident_bounds(cs: Seq<char>, j: int)
    requires
        0 <= j <= cs.len(),
    ensures
        j <= scan_ident(cs, j) <= cs.len(),
    decreases cs.len() - j,
{
    if j < cs.len() && is_ident_char(cs[j]) {
        lemma_scan_ident_bounds(cs, j + 1);
    }
}

/// Scan of a string literal body, starting after the opening quote.
/// Characters are copied verbatim; `\` starts an escape of which `"`,
/// `\`, `n`, `r`, `t` and `b` (and an escaped literal newline) are
/// recognized, while an unrecognized escape produces nothing; a carriage
/// return is skipped wherever it stands; an unescaped newline, like
/// running out of input, leaves the string unclosed.  On success returns
/// the content and the position after the closing quote; on failure the
/// partial content.
pub open spec fn scan_string(cs: Seq<char>, j: int, acc: Seq<char>, escaped: bool) -> Result<
    (Seq<char>, int),
    Seq<char>,
>
    decreases cs.len() - j,
        when 0 <= j
{
    if j >= cs.len() {
        Err(acc)
    } else {
        let c = cs[j];
        if c == '\r' {
            scan_string(cs, j + 1, acc, escaped)
        } else if escaped {
            let acc2 = if c == '"' {
                acc.push('"')
            } else if c == '\\' {
                acc.push('\\')
            } else if c == 'n' || c == '\n' {
                acc.push('\n')
            } else if c == 'r' {
                acc.push('\r')
            } else if c == 't' {
                acc.push('\t')
            } else if c == 'b' {
                acc.push('\u{8}')
            } else {
                acc
            };
            scan_string(cs, j + 1, acc2, false)
        } else if c == '\n' {
            Err(acc)
        } else if c == '"' {
            Ok((acc, j + 1))
        } else if c == '\\' {
            scan_string(cs, j + 1, acc, true)
        } else {
            scan_string(cs, j + 1, acc.push(c), false)
        }
    }
}

pub proof fn lemma_scan_string_bounds(cs: Seq<char>, j: int, acc: Seq<char>, escaped: bool)
    requires
        0 <= j <= cs.len(),
    ensures
        scan_string(cs, j, acc, escaped) matches Ok(p) ==> j < p.1 <= cs.len(),
    decreases cs.len() - j,
{
    if j < cs.len() {
        let c = cs[j];
        if c == '\r' {
            lemma_scan_string_bounds(cs, j + 1, acc, escaped);
        } else if escaped {
            let acc2 = if c == '"' {
                acc.push('"')
            } else if c == '\\' {
                acc.push('\\')
            } else if c == 'n' || c == '\n' {
                acc.push('\n')
            } else if c == 'r' {
                acc.push('\r')
            } else if c == 't' {
                acc.push('\t')
            } else if c == 'b' {
                acc.push('\u{8}')
            } else {
                acc
            };
            lemma_scan_string_bounds(cs, j + 1, acc2, false);
        } else if c == '\n' {
        } else if c == '"' {
        } else if c == '\\' {
            lemma_scan_string_bounds(cs, j + 1, acc, true);
        } else {
            lemma_scan_string_bounds(cs, j + 1, acc.push(c), false);
        }
    }
}

/// The token sequence of the source from position `i` on, or the first
/// lexical error.
pub open spec fn spec_tokenize_from(cs: Seq<char>, i: int) -> Result<Seq<TokenV>, LexerErrorV>
    decreases cs.len() - i,
        when 0 <= i
{
    if i >= cs.len() {
        Ok(Seq::empty())
    } else {
        let c = cs[i];
        if is_space(c) {
            spec_tokenize_from(cs, i + 1)
        } else if c == '=' {
            if i + 1 < cs.len() && cs[i + 1] == '=' {
                lex_cons(TokenV::Equals, spec_tokenize_from(cs, i + 2))
            } else {
                lex_cons(TokenV::Assign, spec_tokenize_from(cs, i + 1))
            }
        } else if c == '(' {
            lex_cons(TokenV::OpenParen, spec_tokenize_from(cs, i + 1))
        } else if c == ')' {
            lex_cons(TokenV::CloseParen, spec_tokenize_from(cs, i + 1))
        } else if c == '+' {
            lex_cons(TokenV::Plus, spec_tokenize_from(cs, i + 1))
        } else if c == '-' {
            lex_cons(TokenV::Minus, spec_tokenize_from(cs, i + 1))
        } else if c == '*' {
            lex_cons(TokenV::Star, spec_tokenize_from(cs, i + 1))
        } else if c == '/' {
            lex_cons(TokenV::Slash, spec_tokenize_from(cs, i + 1))
        } else if c == '%' {
            lex_cons(TokenV::Percent, spec_tokenize_from(cs, i + 1))
        } else if c == ';' {
            lex_cons(TokenV::Semicolon, spec_tokenize_from(cs, i + 1))
        } else if is_digit(c) || c == '.' {
            let (end, has_dot) = scan_number(cs, i + 1, c == '.');
            proof {
                lemma_scan_number_bounds(cs, i + 1, c == '.');
            }
            lex_cons(
                TokenV::LiteralNumber(cs.subrange(i, end), has_dot),
                spec_tokenize_from(cs, end),
            )
        } else if is_ident_start(c) {
            let end = scan_ident(cs, i + 1);
            proof {
                lemma_scan_ident_bounds(cs, i + 1);
            }
            lex_cons(keyword_or_identifier(cs.subrange(i, end)), spec_tokenize_from(cs, end))
        } else if c == '"' {
            match scan_string(cs, i + 1, Seq::empty(), false) {
                Ok(p) => {
                    proof {
                        lemma_scan_string_bounds(cs, i + 1, Seq::empty(), false);
                    }
                    lex_cons(TokenV::LiteralString(p.0), spec_tokenize_from(cs, p.1))
                },
                Err(partial) => Err(LexerErrorV::UnclosedString(partial)),
            }
        } else {
            Err(LexerErrorV::UnexpectedChar(c))
        }
    }
}

pub open spec fn lex_cons(t: TokenV, r: Result<Seq<TokenV>, LexerErrorV>) -> Result<
    Seq<TokenV>,
    LexerErrorV,
> {
    match r {
        Ok(ts) => Ok(seq![t] + ts),
        Err(e) => Err(e),
    }
}

pub open spec fn lex_join(p: Seq<TokenV>, r: Result<Seq<TokenV>, LexerErrorV>) -> Result<
    Seq<TokenV>,
    LexerErrorV,
> {
    match r {
        Ok(ts) => Ok(p + ts),
        Err(e) => Err(e),
    }
}

pub open spec fn tokens_view(ts: Seq<Token>) -> Seq<TokenV> {
    ts.map_values(|t: Token| t@)
}

/// The tokens of the whole source, or the first lexical error.
pub open spec fn spec_tokenize(cs: Seq<char>) -> Result<Seq<TokenV>, LexerErrorV> {
    spec_tokenize_from(cs, 0)
}

pub open spec fn lex_result_view(r: &Result<Vec<Token>, LexerError>) -> Result<
    Seq<TokenV>,
    LexerErrorV,
> {
    match r {
        Ok(v) => Ok(tokens_view(v@)),
        Err(e) => Err(e@),
    }
}

proof fn lemma_join_cons(p: Seq<TokenV>, t: TokenV, r: Result<Seq<TokenV>, LexerErrorV>)
    ensures
        lex_join(p, lex_cons(t, r)) == lex_join(p.push(t), r),
{
    match r {
        Ok(ts) => {
            assert(p + (seq![t] + ts) =~= p.push(t) + ts);
        },
        Err(_) => {},
    }
}

/// Append one token, at the level of the model.
fn push_tok(tokens: &mut Vec<Token>, t: Token)
    ensures
        final(tokens)@ == old(tokens)@.push(t),
        tokens_view(final(tokens)@) == tokens_view(old(tokens)@).push(t@),
{
    proof {
        assert(tokens_view(old(tokens)@.push(t)) =~= tokens_view(old(tokens)@).push(t@));
    }
    tokens.push(t);
}

/// Scan a string literal body starting right after the opening quote.
fn scan_string_exec(cs: &Vec<char>, start: usize) -> (r: Result<(String, usize), String>)
    requires
        start <= cs@.len(),
    ensures
        match r {
            Ok(p) => scan_string(cs@, start as int, Seq::empty(), false) matches Ok(q) && q.0
                == p.0@ && q.1 == p.1 as int && start < p.1 <= cs@.len(),
            Err(partial) => scan_string(cs@, start as int, Seq::empty(), false) matches Err(q) && q
                == partial@,
        },
{
    let mut acc = String::new();
    let mut escaped: bool = false;
    let mut j: usize = start;
    while j < cs.len()
        invariant
            start <= j <= cs@.len(),
            scan_string(cs@, start as int, Seq::empty(), false) == scan_string(
                cs@,
                j as int,
                acc@,
                escaped,
            ),
        decreases cs@.len() - j,
    {
        let c = cs[j];
        if c == '\r' {
            j += 1;
        } else if escaped {
            if c == '"' {
                push_char(&mut acc, '"');
            } else if c == '\\' {
                push_char(&mut acc, '\\');
            } else if c == 'n' || c == '\n' {
                push_char(&mut acc, '\n');
            } else if c == 'r' {
                push_char(&mut acc, '\r');
            } else if c == 't' {
                push_char(&mut acc, '\t');
            } else if c == 'b' {
                push_char(&mut acc, '\u{8}');
            }
            escaped = false;
            j += 1;
        } else if c == '\n' {
            return Err(acc);
        } else if c == '"' {
            proof {
                lemma_scan_string_bounds(cs@, start as int, Seq::empty(), false);
            }
            return Ok((acc, j + 1));
        } else if c == '\\' {
            escaped = true;
            j += 1;
        } else {
            push_char(&mut acc, c);
            j += 1;
        }
    }
    Err(acc)
}

/// Turn a scanned identifier-shaped word into its token.
fn word_token(text: String) -> (t: Token)
    ensures
        t@ == keyword_or_identifier(text@),
{
    let lw = String::from_str("let");
    let mw = String::from_str("mutable");
    let uw = String::from_str("_");
    proof {
        reveal_strlit("let");
        reveal_strlit("mutable");
        reveal_strlit("_");
        assert(lw@ =~= let_word());
        assert(mw@ =~= mutable_word());
        assert(uw@ =~= unit_word());
    }
    if text == lw {
        Token::Let
    } else if text == mw {
        Token::Mutable
    } else if text == uw {
        Token::Unit
    } else {
        Token::Identifier(text)
    }
}

pub struct Lexer;

impl Lexer {
    fn is_identifier_char(ch: &char) -> (r: bool)
        ensures
            r == is_ident_char(*ch),
    {
        let c = *ch;
        ('0' <= c && c <= '9') || ('a' <= c && c <= 'z') || ('A' <= c && c <= 'Z') || c == '_'
    }

    /// Convert source text into its token sequence, or fail with the first
    /// lexical error: exactly the result of `spec_tokenize`.
    pub fn tokenize(source: &str) -> (r: Result<Vec<Token>, LexerError>)
        ensures
            lex_result_view(&r) == spec_tokenize(source@),
    {
        let cs = chars_of(source);
        let mut tokens: Vec<Token> = Vec::new();
        let mut i: usize = 0;
        while i < cs.len()
            invariant
                i <= cs@.len(),
                cs@ == source@,
                lex_join(tokens_view(tokens@), spec_tokenize_from(cs@, i as int)) == spec_tokenize(
                    cs@,
                ),
            decreases cs@.len() - i,
        {
            let ghost prev = i as int;
            let c = cs[i];
            if c == ' ' || c == '\t' || c == '\n' {
                i += 1;
                proof {
                    assert(spec_tokenize_from(cs@, prev) == spec_tokenize_from(cs@, i as int));
                }
            } else {
                let tok: Token;
                if c == '=' {
                    if i + 1 < cs.len() && cs[i + 1] == '=' {
                        tok = Token::Equals;
                        i += 2;
                    } else {
                        tok = Token::Assign;
                        i += 1;
                    }
                } else if c == '(' {
                    tok = Token::OpenParen;
                    i += 1;
                } else if c == ')' {
                    tok = Token::CloseParen;
                    i += 1;
                } else if c == '+' {
                    tok = Token::Plus;
                    i += 1;
                } else if c == '-' {
                    tok = Token::Minus;
                    i += 1;
                } else if c == '*' {
                    tok = Token::Star;
                    i += 1;
                } else if c == '/' {
                    tok = Token::Slash;
                    i += 1;
                } else if c == '%' {
                    tok = Token::Percent;
                    i += 1;
                } else if c == ';' {
                    tok = Token::Semicolon;
                    i += 1;
                } else if ('0' <= c && c <= '9') || c == '.' {
                    let mut text = String::new();
                    push_char(&mut text, c);
                    let mut has_dot: bool = c == '.';
                    let mut j: usize = i + 1;
                    proof {
                        assert(text@ =~= cs@.subrange(prev, j as int));
                    }
                    while j < cs.len() && (('0' <= cs[j] && cs[j] <= '9') || (cs[j] == '.'
                        && !has_dot))
                        invariant
                            0 <= prev < prev + 1 <= j <= cs@.len(),
                            c == cs@[prev],
                            text@ == cs@.subrange(prev, j as int),
                            scan_number(cs@, prev + 1, c == '.') == scan_number(
                                cs@,
                                j as int,
                                has_dot,
                            ),
                        decreases cs@.len() - j,
                    {
                        let ghost jp = j as int;
                        if cs[j] == '.' {
                            has_dot = true;
                        }
                        push_char(&mut text, cs[j]);
                        j += 1;
                        proof {
                            assert(text@ =~= cs@.subrange(prev, j as int));
                        }
                    }
                    proof {
                        assert(scan_number(cs@, j as int, has_dot) == (j as int, has_dot));
                    }
                    tok = Token::LiteralNumber(text, has_dot);
                    i = j;
                } else if ('a' <= c && c <= 'z') || ('A' <= c && c <= 'Z') || c == '_' {
                    let mut text = String::new();
                    push_char(&mut text, c);
                    let mut j: usize = i + 1;
                    proof {
                        assert(text@ =~= cs@.subrange(prev, j as int));
                    }
                    while j < cs.len() && Lexer::is_identifier_char(&cs[j])
                        invariant
                            0 <= prev < prev + 1 <= j <= cs@.len(),
                            c == cs@[prev],
                            text@ == cs@.subrange(prev, j as int),
                            scan_ident(cs@, prev + 1) == scan_ident(cs@, j as int),
                        decreases cs@.len() - j,
                    {
                        push_char(&mut text, cs[j]);
                        j += 1;
                        proof {
                            assert(text@ =~= cs@.subrange(prev, j as int));
                        }
                    }
                    proof {
                        assert(scan_ident(cs@, j as int) == j as int);
                    }
                    tok = word_token(text);
                    i = j;
                } else if c == '"' {
                    match scan_string_exec(&cs, i + 1) {
                        Ok(p) => {
                            tok = Token::LiteralString(p.0);
                            i = p.1;
                        },
                        Err(partial) => {
                            proof {
                                assert(spec_tokenize_from(cs@, prev) == Err::<
                                    Seq<TokenV>,
                                    LexerErrorV,
                                >(LexerErrorV::UnclosedString(partial@)));
                            }
                            return Err(LexerError::UnclosedString(partial));
                        },
                    }
                } else {
                    proof {
                        assert(spec_tokenize_from(cs@, prev) == Err::<Seq<TokenV>, LexerErrorV>(
                            LexerErrorV::UnexpectedChar(c),
                        ));
                    }
                    return Err(LexerError::UnexpectedChar(c));
                }
                proof {
                    assert(spec_tokenize_from(cs@, prev) == lex_cons(
                        tok@,
                        spec_tokenize_from(cs@, i as int),
                    ));
                    lemma_join_cons(tokens_view(tokens@), tok@, spec_tokenize_from(cs@, i as int));
                }
                push_tok(&mut tokens, tok);
            }
        }
        proof {
            assert(tokens_view(tokens@) + Seq::<TokenV>::empty() =~= tokens_view(tokens@));
        }
        Ok(tokens)
    }
}

} // verus!
