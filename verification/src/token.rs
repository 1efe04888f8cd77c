//! The lexical vocabulary and the `Token` value: a classified lexeme with its
//! decoded literal (if any), its 1-based source line, and `Span`s over the
//! source for diagnostics.

use vstd::prelude::*;
use vstd::string::StringExecFns;

verus! {

/// The closed set of token kinds: single-character punctuation,
/// one-or-two-character operators, the literal categories, the reserved
/// keywords, and the terminating `EndOfFile`.
#[allow(non_camel_case_types)]
#[derive(Debug, Clone, Copy, PartialEq, Eq, Structural)]
pub enum Token_Type {
    LeftParen,
    RightParen,
    LeftBrace,
    RightBrace,
    Comma,
    Dot,
    Minus,
    Plus,
    Semicolon,
    Slash,
    Star,
    Bang,
    BangEqual,
    Equal,
    EqualEqual,
    Greater,
    GreaterEqual,
    Less,
    LessEqual,
    Identifier,
    String,
    Number,
    And,
    Class,
    Else,
    False,
    Fun,
    For,
    If,
    Nil,
    Or,
    Print,
    Return,
    Super,
    This,
    True,
    Var,
    While,
    EndOfFile,
}

/// A decoded literal value. A numeric literal keeps its exact decimal text:
/// the scanner's character filter guarantees the text is a well-formed
/// decimal, and keeping it exact loses nothing; consumers that need a machine
/// number parse this text themselves.
#[derive(Debug, Clone, PartialEq, Eq)]
pub enum Object {
    Num(String),
    Str(String),
}

/// The mathematical value of an `Object`: the same data over character
/// sequences.
#[verifier::ext_equal]
pub enum ObjectV {
    Num(Seq<char>),
    Str(Seq<char>),
}

impl View for Object {
    type V = ObjectV;

    open spec fn view(&self) -> ObjectV {
        match self {
            Object::Num(s) => ObjectV::Num(s@),
            Object::Str(s) => ObjectV::Str(s@),
        }
    }
}

/// A region of source code with a start and an end offset.
#[derive(Debug, Clone, Copy, PartialEq, Eq, Structural)]
pub struct Span {
    pub start: usize,
    pub end: usize,
}

/// The least start among the first `i` spans, or `usize::MAX` when `i <= 0`.
pub open spec fn merged_start(spans: Seq<&Span>, i: int) -> int
    decreases i,
{
    if i <= 0 {
        usize::MAX as int
    } else {
        let prev = merged_start(spans, i - 1);
        let cur = spans[i - 1].start as int;
        if cur < prev {
            cur
        } else {
            prev
        }
    }
}

/// The greatest end among the first `i` spans, or `0` when `i <= 0`.
pub open spec fn merged_end(spans: Seq<&Span>, i: int) -> int
    decreases i,
{
    if i <= 0 {
        0
    } else {
        let prev = merged_end(spans, i - 1);
        let cur = spans[i - 1].end as int;
        if cur > prev {
            cur
        } else {
            prev
        }
    }
}

impl Span {
    /// Create and return a new span from a start and end index.
    pub fn new(start: usize, end: usize) -> (s: Span)
        ensures
            s.start == start,
            s.end == end,
    {
        Span { start, end }
    }

    /// Create and return a new span that minimally covers all of the spans in
    /// `spans`: its start is the least start (or `usize::MAX` when `spans` is
    /// empty) and its end the greatest end (or `0` when `spans` is empty).
    pub fn merge(spans: Vec<&Span>) -> (s: Span)
        ensures
            s.start as int == merged_start(spans@, spans@.len() as int),
            s.end as int == merged_end(spans@, spans@.len() as int),
    {
        let mut start: usize = usize::MAX;
        let mut end: usize = 0;
        let mut i: usize = 0;
        while i < spans.len()
            invariant
                i <= spans.len(),
                start as int == merged_start(spans@, i as int),
                end as int == merged_end(spans@, i as int),
            decreases spans.len() - i,
        {
            let sp = spans[i];
            if sp.start < start {
                start = sp.start;
            }
            if sp.end > end {
                end = sp.end;
            }
            i = i + 1;
        }
        Span::new(start, end)
    }
}

/// An immutable token: its kind, the exact source substring it was built
/// from, its decoded literal (absent for punctuation, operators, keywords and
/// identifiers), and the 1-based line it ends on.
#[derive(Debug, Clone, PartialEq, Eq)]
pub struct Token {
    pub token_type: Token_Type,
    pub lexeme: String,
    pub literal: Option<Object>,
    pub line: usize,
}

/// The mathematical value of a `Token`.
#[verifier::ext_equal]
pub struct TokenV {
    pub kind: Token_Type,
    pub lexeme: Seq<char>,
    pub literal: Option<ObjectV>,
    pub line: int,
}

impl View for Token {
    type V = TokenV;

    open spec fn view(&self) -> TokenV {
        TokenV {
            kind: self.token_type,
            lexeme: self.lexeme@,
            literal: match self.literal {
                Option::None => Option::None,
                Option::Some(o) => Option::Some(o@),
            },
            line: self.line as int,
        }
    }
}

/// The lowercase name of each token kind, used when a token is rendered as
/// text.
pub open spec fn kind_text(kind: Token_Type) -> Seq<char> {
    match kind {
        Token_Type::LeftParen => "left_paren"@,
        Token_Type::RightParen => "right_paren"@,
        Token_Type::LeftBrace => "left_brace"@,
        Token_Type::RightBrace => "right_brace"@,
        Token_Type::Comma => "comma"@,
        Token_Type::Dot => "dot"@,
        Token_Type::Minus => "minus"@,
        Token_Type::Plus => "plus"@,
        Token_Type::Semicolon => "semicolon"@,
        Token_Type::Slash => "slash"@,
        Token_Type::Star => "star"@,
        Token_Type::Bang => "bang"@,
        Token_Type::BangEqual => "bang_equal"@,
        Token_Type::Equal => "equal"@,
        Token_Type::EqualEqual => "equal_equal"@,
        Token_Type::Greater => "greater"@,
        Token_Type::GreaterEqual => "greater_equal"@,
        Token_Type::Less => "less"@,
        Token_Type::LessEqual => "less_equal"@,
        Token_Type::Identifier => "identifier"@,
        Token_Type::String => "string"@,
        Token_Type::Number => "number"@,
        Token_Type::And => "and"@,
        Token_Type::Class => "class"@,
        Token_Type::Else => "else"@,
        Token_Type::False => "false"@,
        Token_Type::Fun => "fun"@,
        Token_Type::For => "for"@,
        Token_Type::If => "if"@,
        Token_Type::Nil => "nil"@,
        Token_Type::Or => "or"@,
        Token_Type::Print => "print"@,
        Token_Type::Return => "return"@,
        Token_Type::Super => "super"@,
        Token_Type::This => "this"@,
        Token_Type::True => "true"@,
        Token_Type::Var => "var"@,
        Token_Type::While => "while"@,
        Token_Type::EndOfFile => "end_of_file"@,
    }
}

impl Token_Type {
    /// The lowercase name of this kind.
    pub fn name(&self) -> (r: String)
        ensures
            r@ == kind_text(*self),
    {
        match self {
            Token_Type::LeftParen => String::from_str("left_paren"),
            Token_Type::RightParen => String::from_str("right_paren"),
            Token_Type::LeftBrace => String::from_str("left_brace"),
            Token_Type::RightBrace => String::from_str("right_brace"),
            Token_Type::Comma => String::from_str("comma"),
            Token_Type::Dot => String::from_str("dot"),
            Token_Type::Minus => String::from_str("minus"),
            Token_Type::Plus => String::from_str("plus"),
            Token_Type::Semicolon => String::from_str("semicolon"),
            Token_Type::Slash => String::from_str("slash"),
            Token_Type::Star => String::from_str("star"),
            Token_Type::Bang => String::from_str("bang"),
            Token_Type::BangEqual => String::from_str("bang_equal"),
            Token_Type::Equal => String::from_str("equal"),
            Token_Type::EqualEqual => String::from_str("equal_equal"),
            Token_Type::Greater => String::from_str("greater"),
            Token_Type::GreaterEqual => String::from_str("greater_equal"),
            Token_Type::Less => String::from_str("less"),
            Token_Type::LessEqual => String::from_str("less_equal"),
            Token_Type::Identifier => String::from_str("identifier"),
            Token_Type::String => String::from_str("string"),
            Token_Type::Number => String::from_str("number"),
            Token_Type::And => String::from_str("and"),
            Token_Type::Class => String::from_str("class"),
            Token_Type::Else => String::from_str("else"),
            Token_Type::False => String::from_str("false"),
            Token_Type::Fun => String::from_str("fun"),
            Token_Type::For => String::from_str("for"),
            Token_Type::If => String::from_str("if"),
            Token_Type::Nil => String::from_str("nil"),
            Token_Type::Or => String::from_str("or"),
            Token_Type::Print => String::from_str("print"),
            Token_Type::Return => String::from_str("return"),
            Token_Type::Super => String::from_str("super"),
            Token_Type::This => String::from_str("this"),
            Token_Type::True => String::from_str("true"),
            Token_Type::Var => String::from_str("var"),
            Token_Type::While => String::from_str("while"),
            Token_Type::EndOfFile => String::from_str("end_of_file"),
        }
    }
}

/// The text of a literal as it appears in a rendered token: the decoded text
/// itself, or `None` when the token carries no literal.
pub open spec fn object_text(literal: Option<ObjectV>) -> Seq<char> {
    match literal {
        Option::None => "None"@,
        Option::Some(ObjectV::Num(s)) => s,
        Option::Some(ObjectV::Str(s)) => s,
    }
}

/// The rendered text of a token: its kind's name, its lexeme, and its literal,
/// separated by single spaces.
pub open spec fn token_text(t: TokenV) -> Seq<char> {
    kind_text(t.kind) + " "@ + t.lexeme + " "@ + object_text(t.literal)
}

impl Token {
    /// Build a token from its parts.
    pub fn new(token_type: Token_Type, lexeme: String, literal: Option<Object>, line: usize) -> (t:
        Token)
        ensures
            t.token_type == token_type,
            t.lexeme == lexeme,
            t.literal == literal,
            t.line == line,
    {
        Token { token_type, lexeme, literal, line }
    }

    /// The end-of-file token that terminates every scan: an empty lexeme, no
    /// literal, and the final line of the source.
    pub fn eof(line: usize) -> (t: Token)
        ensures
            t@ == (TokenV {
                kind: Token_Type::EndOfFile,
                lexeme: Seq::<char>::empty(),
                literal: Option::None,
                line: line as int,
            }),
    {
        let t = Token {
            token_type: Token_Type::EndOfFile,
            lexeme: String::new(),
            literal: Option::None,
            line,
        };
        proof {
            assert(t@ =~= TokenV {
                kind: Token_Type::EndOfFile,
                lexeme: Seq::<char>::empty(),
                literal: Option::None,
                line: line as int,
            });
        }
        t
    }

    /// Render this token as `kind lexeme literal`.
    pub fn to_string(&self) -> (r: String)
        ensures
            r@ == token_text(self@),
    {
        let mut r = self.token_type.name();
        r.append(" ");
        r.append(self.lexeme.as_str());
        r.append(" ");
        match &self.literal {
            Option::None => {
                r.append("None");
            },
            Option::Some(Object::Num(s)) => {
                r.append(s.as_str());
            },
            Option::Some(Object::Str(s)) => {
                r.append(s.as_str());
            },
        }
        r
    }
}

} // verus!
