//! The abstract syntax tree produced by the parser.
//!
//! A single tagged variant set; every node carries a 1-based `line` and
//! `column`. Ownership is tree shaped: parents exclusively own children.

use vstd::prelude::*;

verus! {

/// The binary operators, lowest to highest precedence class.
#[derive(Copy, Clone, PartialEq, Eq, Structural, Debug)]
pub enum BinaryOp {
    Or,
    And,
    Equal,
    NotEqual,
    Lower,
    LowerEqual,
    Greater,
    GreaterEqual,
    BitwiseOr,
    BitwiseXor,
    BitwiseAnd,
    ShiftLeft,
    ShiftRight,
    Add,
    Sub,
    Div,
    Mod,
    Mul,
    Pow,
    InclusiveRange,
    ExclusiveRange,
}

/// An AST node. `Float` keeps the literal text verbatim, so that the tree
/// itself stays free of machine floating point; a negative float literal
/// carries a leading minus sign in its text.
#[derive(Debug, PartialEq)]
pub enum Node {
    Expressions { nodes: Vec<Node> },
    Send {
        name: String,
        receiver: Option<Box<Node>>,
        arguments: Vec<Node>,
        line: usize,
        column: usize,
    },
    Str { value: String, line: usize, column: usize },
    Integer { value: i64, line: usize, column: usize },
    Float { value: String, line: usize, column: usize },
    Array { values: Vec<Node>, line: usize, column: usize },
    Hash { pairs: Vec<(Node, Node)>, line: usize, column: usize },
    SelfObject { line: usize, column: usize },
    Identifier { name: String, line: usize, column: usize },
    Attribute { name: String, line: usize, column: usize },
    Constant {
        receiver: Option<Box<Node>>,
        name: String,
        line: usize,
        column: usize,
    },
    Comment { value: String, line: usize, column: usize },
    Type {
        constant: Box<Node>,
        arguments: Vec<Node>,
        return_type: Option<Box<Node>>,
        line: usize,
        column: usize,
    },
    UnionType { types: Vec<Node>, line: usize, column: usize },
    Closure {
        arguments: Vec<Node>,
        return_type: Option<Box<Node>>,
        body: Box<Node>,
        line: usize,
        column: usize,
    },
    ArgumentDefine {
        name: String,
        value_type: Option<Box<Node>>,
        default: Option<Box<Node>>,
        line: usize,
        column: usize,
        rest: bool,
    },
    KeywordArgument { name: String, value: Box<Node>, line: usize, column: usize },
    Method {
        receiver: Option<Box<Node>>,
        name: String,
        arguments: Vec<Node>,
        type_arguments: Vec<Node>,
        return_type: Option<Box<Node>>,
        throw_type: Option<Box<Node>>,
        body: Option<Box<Node>>,
        line: usize,
        column: usize,
    },
    Class {
        name: String,
        type_arguments: Vec<Node>,
        implements: Vec<Node>,
        body: Box<Node>,
        line: usize,
        column: usize,
    },
    Trait {
        name: String,
        type_arguments: Vec<Node>,
        body: Box<Node>,
        line: usize,
        column: usize,
    },
    Implement {
        name: Box<Node>,
        type_arguments: Vec<Node>,
        renames: Vec<(Node, Node)>,
        line: usize,
        column: usize,
    },
    Return { value: Option<Box<Node>>, line: usize, column: usize },
    LetDefine {
        name: Box<Node>,
        value: Box<Node>,
        value_type: Option<Box<Node>>,
        line: usize,
        column: usize,
    },
    VarDefine {
        name: Box<Node>,
        value: Box<Node>,
        value_type: Option<Box<Node>>,
        line: usize,
        column: usize,
    },
    Import { steps: Vec<Node>, symbols: Vec<Node>, line: usize, column: usize },
    ImportSymbol { symbol: Box<Node>, alias: Option<Box<Node>> },
    TypeCast { value: Box<Node>, target_type: Box<Node>, line: usize, column: usize },
    TypeDefine { name: Box<Node>, value: Box<Node>, line: usize, column: usize },
    Try {
        body: Box<Node>,
        else_body: Option<Box<Node>>,
        else_argument: Option<Box<Node>>,
        line: usize,
        column: usize,
    },
    Throw { value: Box<Node>, line: usize, column: usize },
    Binary {
        op: BinaryOp,
        left: Box<Node>,
        right: Box<Node>,
        line: usize,
        column: usize,
    },
    Reassign { variable: Box<Node>, value: Box<Node>, line: usize, column: usize },
}

/// A structured parse failure: the expected construct, the token kind that
/// broke it (where one was present), and its position.
#[derive(Debug, PartialEq)]
pub struct ParseError {
    pub expected: String,
    pub found: Option<crate::token::TokenKind>,
    pub line: usize,
    pub column: usize,
}

pub type ParseResult = Result<Node, ParseError>;

} // verus!

verus! {

impl ParseError {
    /// The failure as one readable line: the expected construct and the
    /// token kind that broke it, or the end of the input.
    pub fn message(&self) -> (r: String) {
        let mut text = String::from_str("expected ");
        text.append(self.expected.as_str());
        text.append(", got ");
        match self.found {
            Some(kind) => {
                let name = kind.name();
                text.append(name.as_str());
            },
            None => {
                text.append("the end of the input");
            },
        }
        text
    }
}

} // verus!
