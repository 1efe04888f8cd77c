//! The mathematical model of the scan: a recursive definition of the token
//! sequence and the error sequence that a source text lexes to. The executable
//! `Scanner` is proved to return exactly this model's output, and the laws of
//! the token stream (termination by a single end-of-file token, blank sources
//! lexing to nothing but that token) are proved of the model here.

use vstd::prelude::*;
use crate::chars::{is_alnum, is_alpha, is_digit};
use crate::error::{ErrV, LexicalErrorKind};
use crate::token::{ObjectV, Token_Type, TokenV};

verus! {

/// The number of newline characters of `s` in the index range `[i, j)`.
pub open spec fn nl_count(s: Seq<char>, i: int, j: int) -> int
    decreases j - i,
{
    if i >= j {
        0
    } else {
        (if 0 <= i < s.len() && s[i] == '\n' {
            1int
        } else {
            0int
        }) + nl_count(s, i + 1, j)
    }
}

pub proof fn lemma_nl_count_bounds(s: Seq<char>, i: int, j: int)
    ensures
        0 <= nl_count(s, i, j),
        i <= j ==> nl_count(s, i, j) <= j - i,
    decreases j - i,
{
    if i < j {
        lemma_nl_count_bounds(s, i + 1, j);
    }
}

pub proof fn lemma_nl_count_one(s: Seq<char>, i: int)
    ensures
        nl_count(s, i, i + 1) == if 0 <= i < s.len() && s[i] == '\n' {
            1int
        } else {
            0int
        },
{
    reveal_with_fuel(nl_count, 2);
}

pub proof fn lemma_nl_count_split(s: Seq<char>, i: int, k: int, j: int)
    requires
        i <= k <= j,
    ensures
        nl_count(s, i, j) == nl_count(s, i, k) + nl_count(s, k, j),
    decreases k - i,
{
    if i < k {
        lemma_nl_count_split(s, i + 1, k, j);
    }
}

pub proof fn lemma_nl_count_none(s: Seq<char>, i: int, j: int)
    requires
        forall|m: int| i <= m < j ==> !(0 <= m < s.len() && s[m] == '\n'),
    ensures
        nl_count(s, i, j) == 0,
    decreases j - i,
{
    if i < j {
        lemma_nl_count_none(s, i + 1, j);
    }
}

/// The end of the maximal digit run starting at `i`: the first index at or
/// after `i` that is out of range or holds a non-digit.
pub open spec fn digits_end(s: Seq<char>, i: int) -> int
    decreases s.len() - i,
{
    if !(0 <= i < s.len()) {
        i
    } else if is_digit(s[i]) {
        digits_end(s, i + 1)
    } else {
        i
    }
}

pub proof fn lemma_digits_end(s: Seq<char>, i: int)
    requires
        0 <= i <= s.len(),
    ensures
        i <= digits_end(s, i) <= s.len(),
        digits_end(s, i) < s.len() ==> !is_digit(s[digits_end(s, i)]),
        forall|j: int| i <= j < digits_end(s, i) ==> is_digit(s[j]),
    decreases s.len() - i,
{
    if i < s.len() && is_digit(s[i]) {
        lemma_digits_end(s, i + 1);
    }
}

/// The end of the maximal identifier run starting at `i`.
pub open spec fn ident_end(s: Seq<char>, i: int) -> int
    decreases s.len() - i,
{
    if !(0 <= i < s.len()) {
        i
    } else if is_alnum(s[i]) {
        ident_end(s, i + 1)
    } else {
        i
    }
}

pub proof fn lemma_ident_end(s: Seq<char>, i: int)
    requires
        0 <= i <= s.len(),
    ensures
        i <= ident_end(s, i) <= s.len(),
        ident_end(s, i) < s.len() ==> !is_alnum(s[ident_end(s, i)]),
        forall|j: int| i <= j < ident_end(s, i) ==> is_alnum(s[j]),
    decreases s.len() - i,
{
    if i < s.len() && is_alnum(s[i]) {
        lemma_ident_end(s, i + 1);
    }
}

/// The end of a line comment whose text starts at `i`: the first index at or
/// after `i` that is out of range or holds a newline. The newline itself is
/// not part of the comment.
pub open spec fn comment_end(s: Seq<char>, i: int) -> int
    decreases s.len() - i,
{
    if !(0 <= i < s.len()) {
        i
    } else if s[i] == '\n' {
        i
    } else {
        comment_end(s, i + 1)
    }
}

pub proof fn lemma_comment_end(s: Seq<char>, i: int)
    requires
        0 <= i <= s.len(),
    ensures
        i <= comment_end(s, i) <= s.len(),
        comment_end(s, i) < s.len() ==> s[comment_end(s, i)] == '\n',
        forall|j: int| i <= j < comment_end(s, i) ==> s[j] != '\n',
    decreases s.len() - i,
{
    if i < s.len() && s[i] != '\n' {
        lemma_comment_end(s, i + 1);
    }
}

/// The end of the maximal number lexeme whose first digit is at `start`: the
/// integer digit run, optionally followed by a dot and a fractional digit run
/// when the dot is itself followed by at least one digit. A trailing dot is
/// not part of the number.
pub open spec fn number_end(s: Seq<char>, start: int) -> int {
    let ie = digits_end(s, start + 1);
    if ie < s.len() && s[ie] == '.' && ie + 1 < s.len() && is_digit(s[ie + 1]) {
        digits_end(s, ie + 1)
    } else {
        ie
    }
}

/// The result of scanning a string literal's interior: either the index just
/// past the closing quote together with the decoded body and the number of
/// newlines passed, or the number of newlines in the rest of the input when
/// no unescaped closing quote exists.
#[verifier::ext_equal]
pub enum StrScan {
    Done { end: int, body: Seq<char>, lines: int },
    Unterminated { lines: int },
}

/// Scan the interior of a string literal from index `i`. A backslash escapes
/// exactly the following character, so an escaped quote does not terminate
/// the literal and the escaping backslash is not part of the decoded body.
/// Newlines stay in the body.
pub open spec fn scan_string(s: Seq<char>, i: int, escaped: bool) -> StrScan
    decreases s.len() - i,
{
    if !(0 <= i < s.len()) {
        StrScan::Unterminated { lines: 0 }
    } else {
        let c = s[i];
        if !escaped && c == '"' {
            StrScan::Done { end: i + 1, body: Seq::empty(), lines: 0 }
        } else if !escaped && c == '\\' {
            scan_string(s, i + 1, true)
        } else {
            let dl: int = if c == '\n' {
                1
            } else {
                0
            };
            match scan_string(s, i + 1, false) {
                StrScan::Done { end, body, lines } => StrScan::Done {
                    end,
                    body: seq![c] + body,
                    lines: dl + lines,
                },
                StrScan::Unterminated { lines } => StrScan::Unterminated { lines: dl + lines },
            }
        }
    }
}

pub proof fn lemma_scan_string(s: Seq<char>, i: int, escaped: bool)
    requires
        0 <= i <= s.len(),
    ensures
        match scan_string(s, i, escaped) {
            StrScan::Done { end, body, lines } => i < end <= s.len() && lines == nl_count(
                s,
                i,
                end,
            ),
            StrScan::Unterminated { lines } => lines == nl_count(s, i, s.len() as int),
        },
    decreases s.len() - i,
{
    if i < s.len() {
        let c = s[i];
        if !escaped && c == '"' {
            lemma_nl_count_one(s, i);
        } else if !escaped && c == '\\' {
            lemma_scan_string(s, i + 1, true);
            match scan_string(s, i + 1, true) {
                StrScan::Done { end, body, lines } => {
                    lemma_nl_count_split(s, i, i + 1, end);
                    lemma_nl_count_one(s, i);
                },
                StrScan::Unterminated { lines } => {
                    lemma_nl_count_split(s, i, i + 1, s.len() as int);
                    lemma_nl_count_one(s, i);
                },
            }
        } else {
            lemma_scan_string(s, i + 1, false);
            match scan_string(s, i + 1, false) {
                StrScan::Done { end, body, lines } => {
                    lemma_nl_count_split(s, i, i + 1, end);
                    lemma_nl_count_one(s, i);
                },
                StrScan::Unterminated { lines } => {
                    lemma_nl_count_split(s, i, i + 1, s.len() as int);
                    lemma_nl_count_one(s, i);
                },
            }
        }
    }
}

/// The reserved keyword whose spelling is exactly `s`, if any. Keyword lookup
/// is total over the spellings and takes precedence over `Identifier`.
pub open spec fn keyword_kind(s: Seq<char>) -> Option<Token_Type> {
    if s == "and"@ {
        Some(Token_Type::And)
    } else if s == "class"@ {
        Some(Token_Type::Class)
    } else if s == "else"@ {
        Some(Token_Type::Else)
    } else if s == "false"@ {
        Some(Token_Type::False)
    } else if s == "fun"@ {
        Some(Token_Type::Fun)
    } else if s == "for"@ {
        Some(Token_Type::For)
    } else if s == "if"@ {
        Some(Token_Type::If)
    } else if s == "nil"@ {
        Some(Token_Type::Nil)
    } else if s == "or"@ {
        Some(Token_Type::Or)
    } else if s == "print"@ {
        Some(Token_Type::Print)
    } else if s == "return"@ {
        Some(Token_Type::Return)
    } else if s == "super"@ {
        Some(Token_Type::Super)
    } else if s == "this"@ {
        Some(Token_Type::This)
    } else if s == "true"@ {
        Some(Token_Type::True)
    } else if s == "var"@ {
        Some(Token_Type::Var)
    } else if s == "while"@ {
        Some(Token_Type::While)
    } else {
        None
    }
}

/// One step of the scan: the state after scanning the single token (or
/// non-token) that starts at `pos`.
#[verifier::ext_equal]
pub struct StepV {
    /// The first position not consumed by this step.
    pub next: int,
    /// The line counter after this step.
    pub line: int,
    /// The token this step emits, if any.
    pub tok: Option<TokenV>,
    /// The lexical error this step records, if any.
    pub err: Option<ErrV>,
}

/// The token covering `s[start..end]` with no decoded literal.
pub open spec fn token_at(
    s: Seq<char>,
    kind: Token_Type,
    start: int,
    end: int,
    line: int,
) -> TokenV {
    TokenV { kind, lexeme: s.subrange(start, end), literal: None, line }
}

/// A step that emits the single-character token at `pos`.
pub open spec fn single_step(s: Seq<char>, pos: int, line: int, kind: Token_Type) -> StepV {
    StepV {
        next: pos + 1,
        line,
        tok: Some(token_at(s, kind, pos, pos + 1, line)),
        err: None,
    }
}

/// A step applying the greedy longest-match rule for a one-or-two-character
/// operator: when the next character is `=`, both characters make the
/// two-character token; otherwise the one character alone makes the
/// one-character token.
pub open spec fn two_char_step(
    s: Seq<char>,
    pos: int,
    line: int,
    two: Token_Type,
    one: Token_Type,
) -> StepV {
    if pos + 1 < s.len() && s[pos + 1] == '=' {
        StepV {
            next: pos + 2,
            line,
            tok: Some(token_at(s, two, pos, pos + 2, line)),
            err: None,
        }
    } else {
        single_step(s, pos, line, one)
    }
}

/// A step that consumes characters without emitting a token or an error.
pub open spec fn skip_step(pos: int, next: int, line: int) -> StepV {
    StepV { next, line, tok: None, err: None }
}

/// The step taken when the character at `pos` is scanned, with the line
/// counter at `line`. This is the per-character dispatch of the scanner.
pub open spec fn scan_step(s: Seq<char>, pos: int, line: int) -> StepV
    recommends
        0 <= pos < s.len(),
{
    let c = s[pos];
    if c == '(' {
        single_step(s, pos, line, Token_Type::LeftParen)
    } else if c == ')' {
        single_step(s, pos, line, Token_Type::RightParen)
    } else if c == '{' {
        single_step(s, pos, line, Token_Type::LeftBrace)
    } else if c == '}' {
        single_step(s, pos, line, Token_Type::RightBrace)
    } else if c == ';' {
        single_step(s, pos, line, Token_Type::Semicolon)
    } else if c == ',' {
        single_step(s, pos, line, Token_Type::Comma)
    } else if c == '.' {
        single_step(s, pos, line, Token_Type::Dot)
    } else if c == '-' {
        single_step(s, pos, line, Token_Type::Minus)
    } else if c == '+' {
        single_step(s, pos, line, Token_Type::Plus)
    } else if c == '*' {
        single_step(s, pos, line, Token_Type::Star)
    } else if c == '!' {
        two_char_step(s, pos, line, Token_Type::BangEqual, Token_Type::Bang)
    } else if c == '=' {
        two_char_step(s, pos, line, Token_Type::EqualEqual, Token_Type::Equal)
    } else if c == '<' {
        two_char_step(s, pos, line, Token_Type::LessEqual, Token_Type::Less)
    } else if c == '>' {
        two_char_step(s, pos, line, Token_Type::GreaterEqual, Token_Type::Greater)
    } else if c == '/' {
        if pos + 1 < s.len() && s[pos + 1] == '/' {
            skip_step(pos, comment_end(s, pos + 2), line)
        } else {
            single_step(s, pos, line, Token_Type::Slash)
        }
    } else if c == ' ' || c == '\r' || c == '\t' {
        skip_step(pos, pos + 1, line)
    } else if c == '\n' {
        skip_step(pos, pos + 1, line + 1)
    } else if c == '"' {
        string_step(s, pos, line)
    } else if is_digit(c) {
        number_step(s, pos, line)
    } else if is_alpha(c) {
        ident_step(s, pos, line)
    } else {
        StepV {
            next: pos + 1,
            line,
            tok: None,
            err: Some(ErrV { line, kind: LexicalErrorKind::UnexpectedCharacter }),
        }
    }
}

/// The step for a string literal whose opening quote is at `pos`. A
/// terminated literal makes one `String` token carrying the decoded body and
/// ending line; an unterminated one consumes the rest of the input and
/// records an error at the line where the literal began.
pub open spec fn string_step(s: Seq<char>, pos: int, line: int) -> StepV {
    match scan_string(s, pos + 1, false) {
        StrScan::Done { end, body, lines } => StepV {
            next: end,
            line: line + lines,
            tok: Some(
                TokenV {
                    kind: Token_Type::String,
                    lexeme: s.subrange(pos, end),
                    literal: Some(ObjectV::Str(body)),
                    line: line + lines,
                },
            ),
            err: None,
        },
        StrScan::Unterminated { lines } => StepV {
            next: s.len() as int,
            line: line + lines,
            tok: None,
            err: Some(ErrV { line, kind: LexicalErrorKind::UnterminatedString }),
        },
    }
}

/// The step for a number whose first digit is at `pos`: one `Number` token
/// whose decoded literal is its exact lexeme text.
pub open spec fn number_step(s: Seq<char>, pos: int, line: int) -> StepV {
    let end = number_end(s, pos);
    StepV {
        next: end,
        line,
        tok: Some(
            TokenV {
                kind: Token_Type::Number,
                lexeme: s.subrange(pos, end),
                literal: Some(ObjectV::Num(s.subrange(pos, end))),
                line,
            },
        ),
        err: None,
    }
}

/// The step for an identifier or keyword whose first character is at `pos`:
/// the maximal alphanumeric-or-underscore run, classified as a keyword when
/// its spelling is reserved.
pub open spec fn ident_step(s: Seq<char>, pos: int, line: int) -> StepV {
    let end = ident_end(s, pos + 1);
    let kind = match keyword_kind(s.subrange(pos, end)) {
        Some(k) => k,
        None => Token_Type::Identifier,
    };
    StepV {
        next: end,
        line,
        tok: Some(token_at(s, kind, pos, end, line)),
        err: None,
    }
}

/// A step consumes at least one character and never runs past the input, and
/// it accounts for exactly the newlines it consumes. No step emits an
/// end-of-file token.
pub proof fn lemma_scan_step(s: Seq<char>, pos: int, line: int)
    requires
        0 <= pos < s.len(),
    ensures
        ({
            let st = scan_step(s, pos, line);
            &&& pos < st.next <= s.len()
            &&& st.line == line + nl_count(s, pos, st.next)
            &&& match st.tok {
                Some(t) => t.kind != Token_Type::EndOfFile,
                None => true,
            }
        }),
{
    let st = scan_step(s, pos, line);
    let c = s[pos];
    lemma_nl_count_one(s, pos);
    if c == '(' || c == ')' || c == '{' || c == '}' || c == ';' || c == ',' || c == '.' || c == '-'
        || c == '+' || c == '*' {
        // single-character token: one character consumed, no newline in it
    } else if c == '!' || c == '=' || c == '<' || c == '>' {
        if pos + 1 < s.len() && s[pos + 1] == '=' {
            lemma_nl_count_split(s, pos, pos + 1, pos + 2);
            lemma_nl_count_one(s, pos + 1);
        }
    } else if c == '/' {
        if pos + 1 < s.len() && s[pos + 1] == '/' {
            lemma_comment_end(s, pos + 2);
            let ce = comment_end(s, pos + 2);
            assert forall|m: int| pos <= m < ce implies !(0 <= m < s.len() && s[m] == '\n') by {
                if pos + 2 <= m < ce {
                    assert(s[m] != '\n');
                }
            }
            lemma_nl_count_none(s, pos, ce);
        }
    } else if c == ' ' || c == '\r' || c == '\t' || c == '\n' {
        // one character consumed; only the newline counts
    } else if c == '"' {
        lemma_scan_string(s, pos + 1, false);
        match scan_string(s, pos + 1, false) {
            StrScan::Done { end, body, lines } => {
                lemma_nl_count_split(s, pos, pos + 1, end);
            },
            StrScan::Unterminated { lines } => {
                lemma_nl_count_split(s, pos, pos + 1, s.len() as int);
            },
        }
    } else if is_digit(c) {
        lemma_digits_end(s, pos + 1);
        let ie = digits_end(s, pos + 1);
        let end = number_end(s, pos);
        if ie < s.len() && s[ie] == '.' && ie + 1 < s.len() && is_digit(s[ie + 1]) {
            lemma_digits_end(s, ie + 1);
        }
        assert forall|m: int| pos <= m < end implies !(0 <= m < s.len() && s[m] == '\n') by {
            if pos < m < ie {
                assert(is_digit(s[m]));
            }
            if ie < m < end {
                assert(is_digit(s[m]));
            }
        }
        lemma_nl_count_none(s, pos, end);
    } else if is_alpha(c) {
        lemma_ident_end(s, pos + 1);
        let ie = ident_end(s, pos + 1);
        assert forall|m: int| pos <= m < ie implies !(0 <= m < s.len() && s[m] == '\n') by {
            if pos < m < ie {
                assert(is_alnum(s[m]));
            }
        }
        lemma_nl_count_none(s, pos, ie);
    } else {
        // unexpected character: one character consumed, and it is no newline
    }
}

/// A sequence holding the content of an option: empty for `None`.
pub open spec fn opt_seq<A>(o: Option<A>) -> Seq<A> {
    match o {
        None => Seq::empty(),
        Some(a) => seq![a],
    }
}

/// What a scan produces: the ordered token sequence and the ordered sequence
/// of lexical errors recorded along the way.
#[verifier::ext_equal]
pub struct LexOut {
    pub tokens: Seq<TokenV>,
    pub errors: Seq<ErrV>,
}

/// The end-of-file token carrying the final line number.
pub open spec fn eof_v(line: int) -> TokenV {
    TokenV { kind: Token_Type::EndOfFile, lexeme: Seq::empty(), literal: None, line }
}

/// The model of the whole scan from position `pos` with the line counter at
/// `line`: the steps' tokens and errors in source order, terminated by the
/// end-of-file token. (The bound on `next` only restates what
/// `lemma_scan_step` proves of every step; it keeps the recursion visibly
/// well-founded.)
pub open spec fn scan_from(s: Seq<char>, pos: int, line: int) -> LexOut
    decreases s.len() - pos,
{
    if !(0 <= pos < s.len()) {
        LexOut { tokens: seq![eof_v(line)], errors: Seq::empty() }
    } else {
        let st = scan_step(s, pos, line);
        let next = if st.next < pos + 1 {
            pos + 1
        } else if st.next > s.len() {
            s.len() as int
        } else {
            st.next
        };
        let rest = scan_from(s, next, st.line);
        LexOut {
            tokens: opt_seq(st.tok) + rest.tokens,
            errors: opt_seq(st.err) + rest.errors,
        }
    }
}

/// The model of scanning a whole source: from its start, on line 1.
pub open spec fn lex(s: Seq<char>) -> LexOut {
    scan_from(s, 0, 1)
}

/// The shape of every scan, from any position: at least the end-of-file
/// token, which is the last token, carries the line counter plus the newlines
/// of the rest of the input, and appears nowhere else.
pub proof fn lemma_scan_from_eof(s: Seq<char>, pos: int, line: int)
    requires
        0 <= pos <= s.len(),
    ensures
        ({
            let out = scan_from(s, pos, line);
            &&& out.tokens.len() >= 1
            &&& out.tokens.last() == eof_v(line + nl_count(s, pos, s.len() as int))
            &&& forall|k: int|
                0 <= k < out.tokens.len() - 1 ==> out.tokens[k].kind != Token_Type::EndOfFile
        }),
    decreases s.len() - pos,
{
    if pos < s.len() {
        lemma_scan_step(s, pos, line);
        let st = scan_step(s, pos, line);
        lemma_scan_from_eof(s, st.next, st.line);
        lemma_nl_count_split(s, pos, st.next, s.len() as int);
    }
}

/// Every scan's token sequence ends with exactly one end-of-file token, whose
/// line equals the number of newline characters in the source plus one.
pub proof fn lemma_tokens_end_with_eof(s: Seq<char>)
    ensures
        lex(s).tokens.len() >= 1,
        lex(s).tokens.last() == eof_v(1 + nl_count(s, 0, s.len() as int)),
        forall|k: int|
            0 <= k < lex(s).tokens.len() - 1 ==> lex(s).tokens[k].kind != Token_Type::EndOfFile,
{
    lemma_scan_from_eof(s, 0, 1);
}

/// A character that begins a token, a comment, whitespace, or a literal:
/// everything the per-character dispatch recognizes.
pub open spec fn starts_lexeme(c: char) -> bool {
    ||| c == '(' || c == ')' || c == '{' || c == '}' || c == ';' || c == ',' || c == '.'
    ||| c == '-' || c == '+' || c == '*' || c == '!' || c == '=' || c == '<' || c == '>'
    ||| c == '/' || c == ' ' || c == '\r' || c == '\t' || c == '\n' || c == '"'
    ||| is_digit(c)
    ||| is_alpha(c)
}

/// Error accumulation: an unexpected character records exactly one error, at
/// the current line, and the scan continues from the very next character —
/// it neither stops nor loses any token.
pub proof fn lemma_error_recovery(s: Seq<char>, pos: int, line: int)
    requires
        0 <= pos < s.len(),
        !starts_lexeme(s[pos]),
    ensures
        scan_from(s, pos, line).errors =~= seq![
            ErrV { line, kind: LexicalErrorKind::UnexpectedCharacter },
        ] + scan_from(s, pos + 1, line).errors,
        scan_from(s, pos, line).tokens =~= scan_from(s, pos + 1, line).tokens,
{
}

/// `s` holds nothing but whitespace and line comments from position `i` on.
pub open spec fn blank_from(s: Seq<char>, i: int) -> bool
    decreases s.len() - i,
{
    if !(0 <= i < s.len()) {
        true
    } else if s[i] == ' ' || s[i] == '\r' || s[i] == '\t' || s[i] == '\n' {
        blank_from(s, i + 1)
    } else if s[i] == '/' && i + 1 < s.len() && s[i + 1] == '/' {
        let ce = comment_end(s, i + 2);
        let next = if ce < i + 2 {
            i + 2
        } else if ce > s.len() {
            s.len() as int
        } else {
            ce
        };
        blank_from(s, next)
    } else {
        false
    }
}

/// `s` holds nothing but whitespace and line comments.
pub open spec fn blank(s: Seq<char>) -> bool {
    blank_from(s, 0)
}

proof fn lemma_blank_scan_from(s: Seq<char>, pos: int, line: int)
    requires
        0 <= pos <= s.len(),
        blank_from(s, pos),
    ensures
        scan_from(s, pos, line) == (LexOut {
            tokens: seq![eof_v(line + nl_count(s, pos, s.len() as int))],
            errors: Seq::<ErrV>::empty(),
        }),
    decreases s.len() - pos,
{
    if pos < s.len() {
        lemma_scan_step(s, pos, line);
        let st = scan_step(s, pos, line);
        if s[pos] == '/' {
            lemma_comment_end(s, pos + 2);
        }
        lemma_blank_scan_from(s, st.next, st.line);
        lemma_nl_count_split(s, pos, st.next, s.len() as int);
        assert(scan_from(s, pos, line) =~= LexOut {
            tokens: seq![eof_v(line + nl_count(s, pos, s.len() as int))],
            errors: Seq::<ErrV>::empty(),
        });
    }
}

/// A source containing only whitespace and comments lexes to exactly the
/// end-of-file token and no errors.
pub proof fn lemma_blank_scans_to_eof_only(s: Seq<char>)
    requires
        blank(s),
    ensures
        lex(s).tokens =~= seq![eof_v(1 + nl_count(s, 0, s.len() as int))],
        lex(s).errors =~= Seq::<ErrV>::empty(),
{
    lemma_blank_scan_from(s, 0, 1);
}

} // verus!
