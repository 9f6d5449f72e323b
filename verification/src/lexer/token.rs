use vstd::prelude::*;

use crate::diagnostic::SourceSpan;

verus! {

/// Represents a lexeme of the Serqlane language.
///
/// Tokens consist of a [`TokenKind`] to describe their nature,
/// and a [`SourceSpan`] to resolve their text in the
/// source code.
#[derive(Clone, Copy, Debug, PartialEq, Eq, Structural)]
pub struct Token {
    pub kind: TokenKind,
    pub span: SourceSpan,
}

impl Token {
    /// The token of the given kind over the bytes from `start` to `end`.
    pub open spec fn over(kind: TokenKind, start: int, end: int) -> Token {
        Token { kind, span: SourceSpan::between(start as nat, end as nat) }
    }

    /// Whether the lexer made the token up: a semicolon that covers no text.
    pub open spec fn is_synthetic(self) -> bool {
        self.kind == TokenKind::Semicolon && self.span.start_offset() == self.span.end_offset()
    }

    /// Gets the [`TokenKind`] for this token.
    pub fn kind(self) -> (kind: TokenKind)
        ensures
            kind == self.kind,
    {
        self.kind
    }

    /// Gets the [`SourceSpan`] for this token.
    pub fn span(self) -> (span: SourceSpan)
        ensures
            span == self.span,
    {
        self.span
    }
}

/// A low-level description of the types of tokens in a program.
#[derive(Clone, Copy, Debug, PartialEq, Eq, PartialOrd, Ord, Structural)]
pub enum TokenKind {
    /// `(`
    LeftParen,
    /// `)`
    RightParen,
    /// `{`
    LeftBrace,
    /// `}`
    RightBrace,
    /// `[`
    LeftBracket,
    /// `]`
    RightBracket,

    /// `+`
    Plus,
    /// `-`
    Minus,
    /// `*`
    Star,
    /// `/`
    Slash,
    /// `%`
    Percent,
    /// `&`
    And,
    /// `|`
    Or,
    /// `^`
    Caret,
    /// `<<`
    Shl,
    /// `>>`
    Shr,
    /// `+=`
    PlusEq,
    /// `-=`
    MinusEq,
    /// `*=`
    StarEq,
    /// `/=`
    SlashEq,
    /// `%=`
    PercentEq,
    /// `&=`
    AndEq,
    /// `|=`
    OrEq,
    /// `^=`
    CaretEq,
    /// `<<=`
    ShlEq,
    /// `>>=`
    ShrEq,
    /// `&&`
    AndAnd,
    /// `||`
    OrOr,
    /// `++`
    PlusPlus,
    /// `--`
    MinusMinus,
    /// `<`
    Lt,
    /// `>`
    Gt,
    /// `=`
    Eq,
    /// `!`
    Bang,
    /// `==`
    EqEq,
    /// `!=`
    BangEq,
    /// `<=`
    LtEq,
    /// `>=`
    GtEq,
    /// `~`
    Tilde,
    /// `.`
    Dot,
    /// `:`
    Colon,
    /// `,`
    Comma,
    /// `;`
    Semicolon,

    /// An identifier.
    Identifier,
    /// A string literal.
    String,
    /// A number literal.
    Number,
    /// A comment in the source code.
    Comment,

    /// `break`
    Break,
    /// `const`
    Const,
    /// `continue`
    Continue,
    /// `else`
    Else,
    /// `enum`
    Enum,
    /// `false`
    False,
    /// `for`
    For,
    /// `fn`
    Fn,
    /// `if`
    If,
    /// `let`
    Let,
    /// `mut`
    Mut,
    /// `pub`
    Pub,
    /// `return`
    Return,
    /// `true`
    True,
    /// `while`
    While,

    /// An error occurred during lexing.
    Error,
    /// End of input was reached.
    Eof,
}

/// The kinds after which a line break ends an expression: closing
/// brackets, identifiers and literals, `break`, `continue`, `return`,
/// `++` and `--`.
pub open spec fn terminates_expression(kind: TokenKind) -> bool {
    kind == TokenKind::RightParen || kind == TokenKind::RightBrace || kind
        == TokenKind::RightBracket || kind == TokenKind::Identifier || kind == TokenKind::String
        || kind == TokenKind::Number || kind == TokenKind::Break || kind == TokenKind::Continue
        || kind == TokenKind::Return || kind == TokenKind::PlusPlus || kind
        == TokenKind::MinusMinus
}

/// Tells whether an implicit semicolon follows a token of the given kind
/// at the end of a line.
pub fn should_terminate_expr(token: TokenKind) -> (b: bool)
    ensures
        b == terminates_expression(token),
{
    match token {
        // Punctuation
        TokenKind::RightParen | TokenKind::RightBrace | TokenKind::RightBracket
        // Identifiers and literals
        | TokenKind::Identifier | TokenKind::String | TokenKind::Number
        // Keywords
        | TokenKind::Break | TokenKind::Continue | TokenKind::Return
        // Operators
        | TokenKind::PlusPlus | TokenKind::MinusMinus => true,
        _ => false,
    }
}

} // verus!
