//! The lexical scanner: converts a source text into the ordered token
//! sequence of the model in `lexing`, accumulating lexical errors over the
//! whole input instead of stopping at the first one. On failure the whole
//! batch of errors is returned and the partial token sequence is discarded.

use vstd::prelude::*;
use crate::chars::{alnum, alpha, chars_to_string, digit, is_alpha, is_digit, push_char, string_to_chars};
use crate::error::{ErrV, LexicalErrorKind, LoxError};
use crate::lexing::{
    comment_end, digits_end, ident_end, ident_step, keyword_kind, lemma_scan_step, lex,
    number_end, number_step, opt_seq, scan_from, scan_step, scan_string, string_step, StrScan,
};
use crate::token::{Object, Token, TokenV, Token_Type};

verus! {

/// The views of a sequence of tokens, in order.
pub open spec fn tokens_view(ts: Seq<Token>) -> Seq<TokenV> {
    ts.map_values(|t: Token| t@)
}

/// The views of a sequence of errors, in order.
pub open spec fn errors_view(es: Seq<LoxError>) -> Seq<ErrV> {
    es.map_values(|e: LoxError| e@)
}

/// Combine a decoded prefix and a newline count already consumed with the
/// scan of the rest of a string literal.
pub open spec fn str_combine(acc: Seq<char>, lines0: int, rest: StrScan) -> StrScan {
    match rest {
        StrScan::Done { end, body, lines } => StrScan::Done {
            end,
            body: acc + body,
            lines: lines0 + lines,
        },
        StrScan::Unterminated { lines } => StrScan::Unterminated { lines: lines0 + lines },
    }
}

/// The scanner's cursor state: the source as characters, the tokens built so
/// far, the start of the token being built, the next unread position, and the
/// 1-based line counter.
pub struct Scanner {
    source: Vec<char>,
    tokens: Vec<Token>,
    start: usize,
    current: usize,
    line: usize,
}

impl Scanner {
    /// The scanner's internal invariant. The line counter can exceed the
    /// consumed character count by at most one, which keeps it from
    /// overflowing as long as the source leaves one position of headroom.
    pub closed spec fn wf(self) -> bool {
        &&& self.source@.len() < usize::MAX
        &&& self.current <= self.source@.len()
        &&& 1 <= self.line
        &&& self.line <= self.current + 1
        &&& self.start <= self.current
    }

    /// A scanner that has not consumed anything yet.
    pub closed spec fn fresh(self) -> bool {
        &&& self.current == 0
        &&& self.start == 0
        &&& self.line == 1
        &&& self.tokens@.len() == 0
    }

    /// The source this scanner was built over.
    pub closed spec fn src(self) -> Seq<char> {
        self.source@
    }

    /// Build a scanner over a complete in-memory source text. The length
    /// bound leaves the line counter headroom; it is far beyond any source
    /// that fits in memory.
    pub fn new(source: String) -> (s: Scanner)
        requires
            source@.len() < usize::MAX,
        ensures
            s.wf(),
            s.fresh(),
            s.src() == source@,
    {
        let chars = string_to_chars(source.as_str());
        Scanner { source: chars, tokens: Vec::new(), start: 0, current: 0, line: 1 }
    }

    /// The whole input has been consumed.
    fn is_at_end(&self) -> (r: bool)
        ensures
            r == (self.current >= self.src().len()),
    {
        self.current >= self.source.len()
    }

    /// The next unread character, without consuming it; the NUL character at
    /// the end of the input.
    fn peek(&self) -> (c: char)
        ensures
            c == peek_at(self.src(), self.current as int),
    {
        if self.current < self.source.len() {
            self.source[self.current]
        } else {
            '\0'
        }
    }

    /// The character after the next unread one, without consuming anything;
    /// the NUL character at or past the end of the input.
    fn peek_next(&self) -> (c: char)
        requires
            self.wf(),
        ensures
            c == peek_at(self.src(), self.current as int + 1),
    {
        if self.current + 1 < self.source.len() {
            self.source[self.current + 1]
        } else {
            '\0'
        }
    }

    /// Consume and return the next character.
    fn advance(&mut self) -> (c: char)
        requires
            old(self).wf(),
            old(self).current < old(self).src().len(),
        ensures
            final (self).wf(),
            c == old(self).src()[old(self).current as int],
            final (self).current == old(self).current + 1,
            final (self).source@ == old(self).source@,
            final (self).tokens@ == old(self).tokens@,
            final (self).start == old(self).start,
            final (self).line == old(self).line,
    {
        let c = self.source[self.current];
        self.current = self.current + 1;
        c
    }

    /// Consume the next character exactly when it equals `c`.
    fn matches(&mut self, c: char) -> (r: bool)
        requires
            old(self).wf(),
        ensures
            final (self).wf(),
            final (self).source@ == old(self).source@,
            final (self).tokens@ == old(self).tokens@,
            final (self).start == old(self).start,
            final (self).line == old(self).line,
            r == (old(self).current < old(self).src().len() && old(self).src()[old(
                self,
            ).current as int] == c),
            r ==> final (self).current == old(self).current + 1,
            !r ==> final (self).current == old(self).current,
    {
        if self.current < self.source.len() && self.source[self.current] == c {
            self.current = self.current + 1;
            true
        } else {
            false
        }
    }

    /// The lexeme being built: the source text from `start` to `current`.
    fn value(&self) -> (r: String)
        requires
            self.wf(),
        ensures
            r@ == self.src().subrange(self.start as int, self.current as int),
    {
        chars_to_string(&self.source, self.start, self.current)
    }

    /// Append a token without a literal, covering the lexeme being built.
    fn add_token(&mut self, token_type: Token_Type)
        requires
            old(self).wf(),
        ensures
            final (self).wf(),
            final (self).source@ == old(self).source@,
            final (self).start == old(self).start,
            final (self).current == old(self).current,
            final (self).line == old(self).line,
            tokens_view(final (self).tokens@) == tokens_view(old(self).tokens@).push(
                (TokenV {
                    kind: token_type,
                    lexeme: old(self).src().subrange(
                        old(self).start as int,
                        old(self).current as int,
                    ),
                    literal: None,
                    line: old(self).line as int,
                }),
            ),
    {
        self.add_token_object(token_type, None);
    }

    /// Append a token covering the lexeme being built, carrying the given
    /// decoded literal and the current line.
    fn add_token_object(&mut self, token_type: Token_Type, literal: Option<Object>)
        requires
            old(self).wf(),
        ensures
            final (self).wf(),
            final (self).source@ == old(self).source@,
            final (self).start == old(self).start,
            final (self).current == old(self).current,
            final (self).line == old(self).line,
            tokens_view(final (self).tokens@) == tokens_view(old(self).tokens@).push(
                (TokenV {
                    kind: token_type,
                    lexeme: old(self).src().subrange(
                        old(self).start as int,
                        old(self).current as int,
                    ),
                    literal: match literal {
                        None => None,
                        Some(o) => Some(o@),
                    },
                    line: old(self).line as int,
                }),
            ),
    {
        let s: String = self.value();
        let t = Token::new(token_type, s, literal, self.line);
        self.tokens.push(t);
        proof {
            assert(tokens_view(self.tokens@) =~= tokens_view(old(self).tokens@).push(t@));
        }
    }

    /// Discard the rest of a line comment: everything up to, not including,
    /// the next newline or the end of the input.
    #[verifier::loop_isolation(false)]
    fn consume_line_comment(&mut self)
        requires
            old(self).wf(),
        ensures
            final (self).wf(),
            final (self).source@ == old(self).source@,
            final (self).tokens@ == old(self).tokens@,
            final (self).start == old(self).start,
            final (self).line == old(self).line,
            final (self).current as int == comment_end(old(self).src(), old(self).current as int),
    {
        while self.current < self.source.len() && self.source[self.current] != '\n'
            invariant
                self.wf(),
                self.source@ == old(self).source@,
                self.tokens@ == old(self).tokens@,
                self.start == old(self).start,
                self.line == old(self).line,
                old(self).current <= self.current,
                comment_end(self.src(), old(self).current as int) == comment_end(
                    self.src(),
                    self.current as int,
                ),
            decreases self.src().len() - self.current,
        {
            self.advance();
        }
    }

    /// Greedy longest-match for a one-or-two-character operator: consume the
    /// next character and emit the two-character kind when it equals `c`,
    /// else emit the one-character kind.
    fn matches_or(&mut self, c: char, ok_type: Token_Type, or_type: Token_Type)
        requires
            old(self).wf(),
        ensures
            final (self).wf(),
            final (self).source@ == old(self).source@,
            final (self).start == old(self).start,
            final (self).line == old(self).line,
            ({
                let matched = old(self).current < old(self).src().len() && old(self).src()[old(
                    self,
                ).current as int] == c;
                let end = if matched {
                    old(self).current as int + 1
                } else {
                    old(self).current as int
                };
                &&& final (self).current as int == end
                &&& tokens_view(final (self).tokens@) == tokens_view(old(self).tokens@).push(
                    (TokenV {
                        kind: if matched {
                            ok_type
                        } else {
                            or_type
                        },
                        lexeme: old(self).src().subrange(old(self).start as int, end),
                        literal: None,
                        line: old(self).line as int,
                    }),
                )
            }),
    {
        let token = if self.matches(c) {
            ok_type
        } else {
            or_type
        };
        self.add_token(token);
    }

    /// Scan the rest of an identifier whose first character (an ASCII letter
    /// or underscore) has been consumed, and classify it: the keyword kind
    /// when the lexeme is reserved, `Identifier` otherwise.
    #[verifier::loop_isolation(false)]
    fn identifier(&mut self) -> (r: Result<(), LoxError>)
        requires
            old(self).wf(),
            old(self).start < old(self).src().len(),
            old(self).current == old(self).start + 1,
            is_alpha(old(self).src()[old(self).start as int]),
        ensures
            final (self).wf(),
            final (self).source@ == old(self).source@,
            final (self).start == old(self).start,
            final (self).line == old(self).line,
            r is Ok,
            ({
                let st = ident_step(old(self).src(), old(self).start as int, old(self).line as int);
                &&& final (self).current as int == st.next
                &&& tokens_view(final (self).tokens@) == tokens_view(old(self).tokens@)
                    + opt_seq(st.tok)
            }),
    {
        while self.current < self.source.len() && alnum(self.source[self.current])
            invariant
                self.wf(),
                self.source@ == old(self).source@,
                self.tokens@ == old(self).tokens@,
                self.start == old(self).start,
                self.line == old(self).line,
                old(self).current <= self.current,
                ident_end(self.src(), old(self).current as int) == ident_end(
                    self.src(),
                    self.current as int,
                ),
            decreases self.src().len() - self.current,
        {
            self.advance();
        }
        let text = self.value();
        let kind = match keyword_of(&text) {
            Some(k) => k,
            None => Token_Type::Identifier,
        };
        self.add_token(kind);
        proof {
            let st = ident_step(old(self).src(), old(self).start as int, old(self).line as int);
            assert(tokens_view(self.tokens@) =~= tokens_view(old(self).tokens@) + opt_seq(st.tok));
        }
        Ok(())
    }

    /// Scan the rest of a number whose first digit has been consumed: the
    /// maximal digit run, then a fractional part exactly when a dot is
    /// followed by a digit. The token's decoded literal is its exact lexeme
    /// text.
    #[verifier::loop_isolation(false)]
    fn number(&mut self) -> (r: Result<(), LoxError>)
        requires
            old(self).wf(),
            old(self).start < old(self).src().len(),
            old(self).current == old(self).start + 1,
            is_digit(old(self).src()[old(self).start as int]),
        ensures
            final (self).wf(),
            final (self).source@ == old(self).source@,
            final (self).start == old(self).start,
            final (self).line == old(self).line,
            r is Ok,
            ({
                let st = number_step(old(self).src(), old(self).start as int, old(self).line as int);
                &&& final (self).current as int == st.next
                &&& tokens_view(final (self).tokens@) == tokens_view(old(self).tokens@)
                    + opt_seq(st.tok)
            }),
    {
        while self.current < self.source.len() && digit(self.source[self.current])
            invariant
                self.wf(),
                self.source@ == old(self).source@,
                self.tokens@ == old(self).tokens@,
                self.start == old(self).start,
                self.line == old(self).line,
                old(self).current <= self.current,
                digits_end(self.src(), old(self).current as int) == digits_end(
                    self.src(),
                    self.current as int,
                ),
            decreases self.src().len() - self.current,
        {
            self.advance();
        }
        let ghost ie = digits_end(self.src(), old(self).current as int);
        let p = self.peek();
        let pn = self.peek_next();
        if p == '.' && digit(pn) {
            self.advance();
            while self.current < self.source.len() && digit(self.source[self.current])
                invariant
                    self.wf(),
                    self.source@ == old(self).source@,
                    self.tokens@ == old(self).tokens@,
                    self.start == old(self).start,
                    self.line == old(self).line,
                    ie + 1 <= self.current,
                    digits_end(self.src(), ie + 1) == digits_end(self.src(), self.current as int),
                decreases self.src().len() - self.current,
            {
                self.advance();
            }
        }
        proof {
            assert(self.current as int == number_end(self.src(), self.start as int));
        }
        let lit = self.value();
        self.add_token_object(Token_Type::Number, Some(Object::Num(lit)));
        proof {
            let st = number_step(old(self).src(), old(self).start as int, old(self).line as int);
            assert(tokens_view(self.tokens@) =~= tokens_view(old(self).tokens@) + opt_seq(st.tok));
        }
        Ok(())
    }
    /// Scan the rest of a string literal whose opening quote has been
    /// consumed. A backslash escapes exactly the following character; the
    /// decoded body drops the escaping backslashes and keeps everything else,
    /// newlines included. An unterminated literal consumes the rest of the
    /// input and is an error at the line where the literal began.
    #[verifier::loop_isolation(false)]
    fn string(&mut self) -> (r: Result<(), LoxError>)
        requires
            old(self).wf(),
            old(self).start < old(self).src().len(),
            old(self).current == old(self).start + 1,
            old(self).src()[old(self).start as int] == '"',
        ensures
            final (self).wf(),
            final (self).source@ == old(self).source@,
            final (self).start == old(self).start,
            ({
                let st = string_step(old(self).src(), old(self).start as int, old(self).line as int);
                &&& final (self).current as int == st.next
                &&& final (self).line as int == st.line
                &&& tokens_view(final (self).tokens@) == tokens_view(old(self).tokens@)
                    + opt_seq(st.tok)
                &&& match st.err {
                    None => r is Ok,
                    Some(ev) => r is Err && r->Err_0@ == ev,
                }
            }),
    {
        let line_start = self.line;
        let mut body = String::new();
        let mut escaped = false;
        while !self.is_at_end()
            invariant
                self.wf(),
                self.source@ == old(self).source@,
                self.tokens@ == old(self).tokens@,
                self.start == old(self).start,
                old(self).current <= self.current <= self.src().len(),
                line_start == old(self).line,
                line_start <= self.line,
                scan_string(self.src(), old(self).current as int, false) == str_combine(
                    body@,
                    self.line - line_start,
                    scan_string(self.src(), self.current as int, escaped),
                ),
            decreases self.src().len() - self.current,
        {
            let ghost cur = self.current as int;
            let ghost line_before = self.line as int;
            let ghost body_before = body@;
            let ghost esc_before = escaped;
            let c = self.advance();
            if c == '"' && !escaped {
                let ghost body_snap = body@;
                self.add_token_object(Token_Type::String, Some(Object::Str(body)));
                proof {
                    let st = string_step(
                        old(self).src(),
                        old(self).start as int,
                        old(self).line as int,
                    );
                    assert(scan_string(self.src(), cur, false) == StrScan::Done {
                        end: cur + 1,
                        body: Seq::<char>::empty(),
                        lines: 0,
                    });
                    assert(scan_string(self.src(), old(self).current as int, false)
                        =~= StrScan::Done {
                        end: cur + 1,
                        body: body_snap,
                        lines: line_before - line_start,
                    });
                    assert(tokens_view(self.tokens@) =~= tokens_view(old(self).tokens@) + opt_seq(
                        st.tok,
                    ));
                }
                return Ok(());
            } else if c == '\\' && !escaped {
                escaped = true;
            } else {
                if c == '\n' {
                    self.line = self.line + 1;
                }
                push_char(&mut body, c);
                escaped = false;
                proof {
                    assert(str_combine(
                        body@,
                        self.line - line_start,
                        scan_string(self.src(), self.current as int, false),
                    ) =~= str_combine(
                        body_before,
                        line_before - line_start,
                        scan_string(self.src(), cur, esc_before),
                    ));
                }
            }
        }
        proof {
            let st = string_step(old(self).src(), old(self).start as int, old(self).line as int);
            assert(scan_string(self.src(), self.current as int, escaped)
                == StrScan::Unterminated { lines: 0 });
            assert(tokens_view(self.tokens@) =~= tokens_view(old(self).tokens@) + opt_seq(st.tok));
        }
        Err(LoxError::error(line_start, LexicalErrorKind::UnterminatedString))
    }
    /// Scan the single token (or non-token: whitespace, a comment) that
    /// starts at the current position, exactly as the model's per-character
    /// dispatch describes: emit its token if it has one, and return its
    /// lexical error if it records one.
    fn scan_token(&mut self) -> (r: Result<(), LoxError>)
        requires
            old(self).wf(),
            old(self).current < old(self).src().len(),
            old(self).start == old(self).current,
        ensures
            final (self).wf(),
            final (self).source@ == old(self).source@,
            final (self).start == old(self).start,
            ({
                let st = scan_step(old(self).src(), old(self).current as int, old(self).line as int);
                &&& final (self).current as int == st.next
                &&& final (self).line as int == st.line
                &&& tokens_view(final (self).tokens@) == tokens_view(old(self).tokens@)
                    + opt_seq(st.tok)
                &&& match st.err {
                    None => r is Ok,
                    Some(ev) => r is Err && r->Err_0@ == ev,
                }
            }),
    {
        let ghost st = scan_step(old(self).src(), old(self).current as int, old(self).line as int);
        let c = self.advance();
        match c {
            '(' => {
                self.add_token(Token_Type::LeftParen);
                proof {
                    assert(tokens_view(self.tokens@) =~= tokens_view(old(self).tokens@) + opt_seq(
                        st.tok,
                    ));
                }
                Ok(())
            },
            ')' => {
                self.add_token(Token_Type::RightParen);
                proof {
                    assert(tokens_view(self.tokens@) =~= tokens_view(old(self).tokens@) + opt_seq(
                        st.tok,
                    ));
                }
                Ok(())
            },
            '{' => {
                self.add_token(Token_Type::LeftBrace);
                proof {
                    assert(tokens_view(self.tokens@) =~= tokens_view(old(self).tokens@) + opt_seq(
                        st.tok,
                    ));
                }
                Ok(())
            },
            '}' => {
                self.add_token(Token_Type::RightBrace);
                proof {
                    assert(tokens_view(self.tokens@) =~= tokens_view(old(self).tokens@) + opt_seq(
                        st.tok,
                    ));
                }
                Ok(())
            },
            ';' => {
                self.add_token(Token_Type::Semicolon);
                proof {
                    assert(tokens_view(self.tokens@) =~= tokens_view(old(self).tokens@) + opt_seq(
                        st.tok,
                    ));
                }
                Ok(())
            },
            ',' => {
                self.add_token(Token_Type::Comma);
                proof {
                    assert(tokens_view(self.tokens@) =~= tokens_view(old(self).tokens@) + opt_seq(
                        st.tok,
                    ));
                }
                Ok(())
            },
            '.' => {
                self.add_token(Token_Type::Dot);
                proof {
                    assert(tokens_view(self.tokens@) =~= tokens_view(old(self).tokens@) + opt_seq(
                        st.tok,
                    ));
                }
                Ok(())
            },
            '-' => {
                self.add_token(Token_Type::Minus);
                proof {
                    assert(tokens_view(self.tokens@) =~= tokens_view(old(self).tokens@) + opt_seq(
                        st.tok,
                    ));
                }
                Ok(())
            },
            '+' => {
                self.add_token(Token_Type::Plus);
                proof {
                    assert(tokens_view(self.tokens@) =~= tokens_view(old(self).tokens@) + opt_seq(
                        st.tok,
                    ));
                }
                Ok(())
            },
            '*' => {
                self.add_token(Token_Type::Star);
                proof {
                    assert(tokens_view(self.tokens@) =~= tokens_view(old(self).tokens@) + opt_seq(
                        st.tok,
                    ));
                }
                Ok(())
            },
            '!' => {
                self.matches_or('=', Token_Type::BangEqual, Token_Type::Bang);
                proof {
                    assert(tokens_view(self.tokens@) =~= tokens_view(old(self).tokens@) + opt_seq(
                        st.tok,
                    ));
                }
                Ok(())
            },
            '=' => {
                self.matches_or('=', Token_Type::EqualEqual, Token_Type::Equal);
                proof {
                    assert(tokens_view(self.tokens@) =~= tokens_view(old(self).tokens@) + opt_seq(
                        st.tok,
                    ));
                }
                Ok(())
            },
            '<' => {
                self.matches_or('=', Token_Type::LessEqual, Token_Type::Less);
                proof {
                    assert(tokens_view(self.tokens@) =~= tokens_view(old(self).tokens@) + opt_seq(
                        st.tok,
                    ));
                }
                Ok(())
            },
            '>' => {
                self.matches_or('=', Token_Type::GreaterEqual, Token_Type::Greater);
                proof {
                    assert(tokens_view(self.tokens@) =~= tokens_view(old(self).tokens@) + opt_seq(
                        st.tok,
                    ));
                }
                Ok(())
            },
            '"' => self.string(),
            '/' => {
                if self.matches('/') {
                    self.consume_line_comment();
                } else {
                    self.add_token(Token_Type::Slash);
                }
                proof {
                    assert(tokens_view(self.tokens@) =~= tokens_view(old(self).tokens@) + opt_seq(
                        st.tok,
                    ));
                }
                Ok(())
            },
            ' ' | '\r' | '\t' => {
                proof {
                    assert(tokens_view(self.tokens@) =~= tokens_view(old(self).tokens@) + opt_seq(
                        st.tok,
                    ));
                }
                Ok(())
            },
            '\n' => {
                self.line = self.line + 1;
                proof {
                    assert(tokens_view(self.tokens@) =~= tokens_view(old(self).tokens@) + opt_seq(
                        st.tok,
                    ));
                }
                Ok(())
            },
            other => {
                if digit(other) {
                    self.number()
                } else if alpha(other) {
                    self.identifier()
                } else {
                    proof {
                        assert(tokens_view(self.tokens@) =~= tokens_view(old(self).tokens@)
                            + opt_seq(st.tok));
                    }
                    Err(LoxError::error(self.line, LexicalErrorKind::UnexpectedCharacter))
                }
            },
        }
    }

    /// Scan the whole source, left to right, accumulating lexical errors
    /// instead of stopping at the first one, and terminate the token sequence
    /// with the end-of-file token. When no error was recorded the result is
    /// the model's token sequence; otherwise it is the model's error
    /// sequence, in source order, and the partial token sequence is
    /// discarded. A scanner scans one source unit, once, from the fresh state
    /// its constructor establishes; callers scanning several sources build
    /// one scanner per source.
    #[verifier::loop_isolation(false)]
    pub fn scan_tokens(&mut self) -> (r: Result<Vec<Token>, Vec<LoxError>>)
        requires
            old(self).wf(),
            old(self).fresh(),
        ensures
            final (self).src() == old(self).src(),
            ({
                let out = lex(old(self).src());
                match r {
                    Ok(toks) => out.errors.len() == 0 && tokens_view(toks@) == out.tokens,
                    Err(errs) => errs@.len() > 0 && errors_view(errs@) == out.errors,
                }
            }),
    {
        let mut errors: Vec<LoxError> = Vec::new();
        proof {
            assert(tokens_view(self.tokens@) =~= Seq::<TokenV>::empty());
            assert(errors_view(errors@) =~= Seq::<ErrV>::empty());
            assert(lex(self.src()).tokens =~= tokens_view(self.tokens@) + scan_from(
                self.src(),
                self.current as int,
                self.line as int,
            ).tokens);
            assert(lex(self.src()).errors =~= errors_view(errors@) + scan_from(
                self.src(),
                self.current as int,
                self.line as int,
            ).errors);
        }
        while !self.is_at_end()
            invariant
                self.wf(),
                self.source@ == old(self).source@,
                lex(old(self).src()).tokens == tokens_view(self.tokens@) + scan_from(
                    self.src(),
                    self.current as int,
                    self.line as int,
                ).tokens,
                lex(old(self).src()).errors == errors_view(errors@) + scan_from(
                    self.src(),
                    self.current as int,
                    self.line as int,
                ).errors,
            decreases self.src().len() - self.current,
        {
            self.start = self.current;
            let ghost pre = *self;
            let ghost errs_pre = errors@;
            let res = self.scan_token();
            proof {
                lemma_scan_step(pre.src(), pre.current as int, pre.line as int);
                let st = scan_step(pre.src(), pre.current as int, pre.line as int);
                assert(scan_from(pre.src(), pre.current as int, pre.line as int).tokens =~= opt_seq(
                    st.tok,
                ) + scan_from(pre.src(), st.next, st.line).tokens);
                assert(scan_from(pre.src(), pre.current as int, pre.line as int).errors =~= opt_seq(
                    st.err,
                ) + scan_from(pre.src(), st.next, st.line).errors);
                assert(lex(old(self).src()).tokens =~= tokens_view(self.tokens@) + scan_from(
                    self.src(),
                    self.current as int,
                    self.line as int,
                ).tokens);
            }
            match res {
                Ok(_) => {
                    proof {
                        let st = scan_step(pre.src(), pre.current as int, pre.line as int);
                        assert(errors_view(errors@) + opt_seq(st.err) =~= errors_view(errors@));
                        assert(lex(old(self).src()).errors =~= errors_view(errors@) + scan_from(
                            self.src(),
                            self.current as int,
                            self.line as int,
                        ).errors);
                    }
                },
                Err(e) => {
                    errors.push(e);
                    proof {
                        let st = scan_step(pre.src(), pre.current as int, pre.line as int);
                        assert(errors_view(errors@) =~= errors_view(errs_pre) + opt_seq(st.err));
                        assert(lex(old(self).src()).errors =~= errors_view(errors@) + scan_from(
                            self.src(),
                            self.current as int,
                            self.line as int,
                        ).errors);
                    }
                },
            }
        }
        let t = Token::eof(self.line);
        self.tokens.push(t);
        proof {
            assert(tokens_view(self.tokens@) =~= lex(old(self).src()).tokens);
            assert(errors_view(errors@) =~= lex(old(self).src()).errors);
        }
        if errors.len() == 0 {
            proof {
                assert(lex(old(self).src()).errors.len() == 0);
            }
            let mut out: Vec<Token> = Vec::new();
            core::mem::swap(&mut out, &mut self.tokens);
            Ok(out)
        } else {
            Err(errors)
        }
    }
}

/// The reserved keyword spelled exactly `text`, if any.
fn keyword_of(text: &String) -> (r: Option<Token_Type>)
    ensures
        r == keyword_kind(text@),
{
    if *text == String::from_str("and") {
        Some(Token_Type::And)
    } else if *text == String::from_str("class") {
        Some(Token_Type::Class)
    } else if *text == String::from_str("else") {
        Some(Token_Type::Else)
    } else if *text == String::from_str("false") {
        Some(Token_Type::False)
    } else if *text == String::from_str("fun") {
        Some(Token_Type::Fun)
    } else if *text == String::from_str("for") {
        Some(Token_Type::For)
    } else if *text == String::from_str("if") {
        Some(Token_Type::If)
    } else if *text == String::from_str("nil") {
        Some(Token_Type::Nil)
    } else if *text == String::from_str("or") {
        Some(Token_Type::Or)
    } else if *text == String::from_str("print") {
        Some(Token_Type::Print)
    } else if *text == String::from_str("return") {
        Some(Token_Type::Return)
    } else if *text == String::from_str("super") {
        Some(Token_Type::Super)
    } else if *text == String::from_str("this") {
        Some(Token_Type::This)
    } else if *text == String::from_str("true") {
        Some(Token_Type::True)
    } else if *text == String::from_str("var") {
        Some(Token_Type::Var)
    } else if *text == String::from_str("while") {
        Some(Token_Type::While)
    } else {
        None
    }
}

/// The character at `i`, or the NUL character out of range.
pub open spec fn peek_at(s: Seq<char>, i: int) -> char {
    if 0 <= i < s.len() {
        s[i]
    } else {
        '\0'
    }
}

} // verus!
