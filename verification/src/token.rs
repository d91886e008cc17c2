//! Lexical tokens consumed by the parser.
//!
//! The token stream producer itself is outside this library; the parser
//! works on any sequence of `Token` values with 1-based source positions.

use vstd::prelude::*;

verus! {

/// The closed alphabet of token kinds the parser understands.
#[derive(Copy, Clone, PartialEq, Eq, Structural, Debug)]
pub enum TokenKind {
    Add,
    And,
    Arrow,
    As,
    Assign,
    Attribute,
    BitwiseAnd,
    BitwiseOr,
    BitwiseXor,
    BracketClose,
    BracketOpen,
    Class,
    Colon,
    ColonColon,
    Comma,
    Comment,
    Constant,
    CurlyClose,
    CurlyOpen,
    Div,
    Dot,
    Else,
    Equal,
    ExclusiveRange,
    Float,
    Function,
    Greater,
    GreaterEqual,
    HashOpen,
    Identifier,
    Impl,
    Import,
    InclusiveRange,
    Integer,
    Let,
    Lower,
    LowerEqual,
    Mod,
    Mul,
    NotEqual,
    Or,
    ParenClose,
    ParenOpen,
    Pow,
    Return,
    SelfObject,
    ShiftLeft,
    ShiftRight,
    Str,
    Sub,
    Throw,
    Trait,
    Try,
    Type,
    TypeArgsOpen,
    Var,
}

/// One lexical token: a kind, the verbatim text where it carries
/// information, and a 1-based source position.
pub struct Token {
    pub kind: TokenKind,
    pub text: String,
    pub line: usize,
    pub column: usize,
}

impl Clone for Token {
    /// Cloning a token preserves it exactly.
    fn clone(&self) -> (res: Self)
        ensures
            res == *self,
    {
        Token {
            kind: self.kind,
            text: self.text.clone(),
            line: self.line,
            column: self.column,
        }
    }
}

impl Token {
    /// Builds a token from its parts.
    pub fn new(kind: TokenKind, text: String, line: usize, column: usize) -> (res: Token)
        ensures
            res.kind == kind,
            res.text == text,
            res.line == line,
            res.column == column,
    {
        Token { kind, text, line, column }
    }
}

} // verus!

verus! {

impl TokenKind {
    /// The kind's name, as failure messages print it.
    pub fn name(&self) -> (r: String) {
        match self {
            TokenKind::Add => String::from_str("+"),
            TokenKind::And => String::from_str("&&"),
            TokenKind::Arrow => String::from_str("->"),
            TokenKind::As => String::from_str("as"),
            TokenKind::Assign => String::from_str("="),
            TokenKind::Attribute => String::from_str("an attribute"),
            TokenKind::BitwiseAnd => String::from_str("&"),
            TokenKind::BitwiseOr => String::from_str("|"),
            TokenKind::BitwiseXor => String::from_str("^"),
            TokenKind::BracketClose => String::from_str("]"),
            TokenKind::BracketOpen => String::from_str("["),
            TokenKind::Class => String::from_str("class"),
            TokenKind::Colon => String::from_str(":"),
            TokenKind::ColonColon => String::from_str("::"),
            TokenKind::Comma => String::from_str(","),
            TokenKind::Comment => String::from_str("a comment"),
            TokenKind::Constant => String::from_str("a constant"),
            TokenKind::CurlyClose => String::from_str("}"),
            TokenKind::CurlyOpen => String::from_str("{"),
            TokenKind::Div => String::from_str("/"),
            TokenKind::Dot => String::from_str("."),
            TokenKind::Else => String::from_str("else"),
            TokenKind::Equal => String::from_str("=="),
            TokenKind::ExclusiveRange => String::from_str(".."),
            TokenKind::Float => String::from_str("a float"),
            TokenKind::Function => String::from_str("fn"),
            TokenKind::Greater => String::from_str(">"),
            TokenKind::GreaterEqual => String::from_str(">="),
            TokenKind::HashOpen => String::from_str("%{"),
            TokenKind::Identifier => String::from_str("an identifier"),
            TokenKind::Impl => String::from_str("impl"),
            TokenKind::Import => String::from_str("import"),
            TokenKind::InclusiveRange => String::from_str("..="),
            TokenKind::Integer => String::from_str("an integer"),
            TokenKind::Let => String::from_str("let"),
            TokenKind::Lower => String::from_str("<"),
            TokenKind::LowerEqual => String::from_str("<="),
            TokenKind::Mod => String::from_str("%"),
            TokenKind::Mul => String::from_str("*"),
            TokenKind::NotEqual => String::from_str("!="),
            TokenKind::Or => String::from_str("||"),
            TokenKind::ParenClose => String::from_str(")"),
            TokenKind::ParenOpen => String::from_str("("),
            TokenKind::Pow => String::from_str("**"),
            TokenKind::Return => String::from_str("return"),
            TokenKind::SelfObject => String::from_str("self"),
            TokenKind::ShiftLeft => String::from_str("<<"),
            TokenKind::ShiftRight => String::from_str(">>"),
            TokenKind::Str => String::from_str("a string"),
            TokenKind::Sub => String::from_str("-"),
            TokenKind::Throw => String::from_str("throw"),
            TokenKind::Trait => String::from_str("trait"),
            TokenKind::Try => String::from_str("try"),
            TokenKind::Type => String::from_str("type"),
            TokenKind::TypeArgsOpen => String::from_str("!("),
            TokenKind::Var => String::from_str("var"),
        }
    }
}

} // verus!
