//! LL(1) recursive-descent parser.
//!
//! The parser owns a token sequence and a cursor with one-token lookahead.
//! Every parsing routine consumes tokens monotonically and never reads past
//! the end; those facts, stated through [`Parser::stepped`], also carry the
//! termination argument for the mutual recursion.

use vstd::prelude::*;

use crate::ast::BinaryOp;
use crate::ast::Node;
use crate::ast::ParseError;
use crate::ast::ParseResult;
use crate::precedence::atom_node_of;
use crate::precedence::atom_ok;
use crate::precedence::frag;
use crate::precedence::frag_tail;
use crate::precedence::int_tok_ok;
use crate::precedence::lemma_sp_bin_on_frag;
use crate::precedence::mk_bin;
use crate::precedence::sp_bin;
use crate::precedence::sp_fold;
use crate::token::Token;
use crate::token::TokenKind;

verus! {

/// Precedence class of a binary operator token, `1` (lowest, `or`) through
/// `11` (ranges); `0` for tokens that are no binary operator.
pub open spec fn prec_of(k: TokenKind) -> int {
    match k {
        TokenKind::Or => 1,
        TokenKind::And => 2,
        TokenKind::Equal => 3,
        TokenKind::NotEqual => 3,
        TokenKind::Lower => 4,
        TokenKind::LowerEqual => 4,
        TokenKind::Greater => 4,
        TokenKind::GreaterEqual => 4,
        TokenKind::BitwiseOr => 5,
        TokenKind::BitwiseXor => 5,
        TokenKind::BitwiseAnd => 6,
        TokenKind::ShiftLeft => 7,
        TokenKind::ShiftRight => 7,
        TokenKind::Add => 8,
        TokenKind::Sub => 8,
        TokenKind::Div => 9,
        TokenKind::Mod => 9,
        TokenKind::Mul => 9,
        TokenKind::Pow => 10,
        TokenKind::InclusiveRange => 11,
        TokenKind::ExclusiveRange => 11,
        _ => 0,
    }
}

/// The binary operator named by an operator token kind; `Or` as an
/// arbitrary filler for non-operator kinds, which callers never use.
pub open spec fn op_of(k: TokenKind) -> BinaryOp {
    match k {
        TokenKind::Or => BinaryOp::Or,
        TokenKind::And => BinaryOp::And,
        TokenKind::Equal => BinaryOp::Equal,
        TokenKind::NotEqual => BinaryOp::NotEqual,
        TokenKind::Lower => BinaryOp::Lower,
        TokenKind::LowerEqual => BinaryOp::LowerEqual,
        TokenKind::Greater => BinaryOp::Greater,
        TokenKind::GreaterEqual => BinaryOp::GreaterEqual,
        TokenKind::BitwiseOr => BinaryOp::BitwiseOr,
        TokenKind::BitwiseXor => BinaryOp::BitwiseXor,
        TokenKind::BitwiseAnd => BinaryOp::BitwiseAnd,
        TokenKind::ShiftLeft => BinaryOp::ShiftLeft,
        TokenKind::ShiftRight => BinaryOp::ShiftRight,
        TokenKind::Add => BinaryOp::Add,
        TokenKind::Sub => BinaryOp::Sub,
        TokenKind::Div => BinaryOp::Div,
        TokenKind::Mod => BinaryOp::Mod,
        TokenKind::Mul => BinaryOp::Mul,
        TokenKind::Pow => BinaryOp::Pow,
        TokenKind::InclusiveRange => BinaryOp::InclusiveRange,
        TokenKind::ExclusiveRange => BinaryOp::ExclusiveRange,
        _ => BinaryOp::Or,
    }
}

/// The closed set of token kinds that may begin a value.
pub open spec fn value_start_spec(k: TokenKind) -> bool {
    match k {
        TokenKind::Str => true,
        TokenKind::Integer => true,
        TokenKind::Float => true,
        TokenKind::Identifier => true,
        TokenKind::Constant => true,
        TokenKind::HashOpen => true,
        TokenKind::Sub => true,
        TokenKind::BracketOpen => true,
        TokenKind::CurlyOpen => true,
        TokenKind::Function => true,
        TokenKind::Let => true,
        TokenKind::Var => true,
        TokenKind::Class => true,
        TokenKind::Trait => true,
        TokenKind::Return => true,
        TokenKind::Impl => true,
        TokenKind::Comment => true,
        TokenKind::Colon => true,
        TokenKind::Type => true,
        TokenKind::Attribute => true,
        TokenKind::SelfObject => true,
        TokenKind::Try => true,
        TokenKind::Throw => true,
        _ => false,
    }
}

/// The closed set of token kinds acceptable as a message name.
pub open spec fn message_token_spec(k: TokenKind) -> bool {
    match k {
        TokenKind::Add => true,
        TokenKind::And => true,
        TokenKind::BitwiseAnd => true,
        TokenKind::BitwiseOr => true,
        TokenKind::BitwiseXor => true,
        TokenKind::Constant => true,
        TokenKind::Div => true,
        TokenKind::Equal => true,
        TokenKind::ExclusiveRange => true,
        TokenKind::Greater => true,
        TokenKind::GreaterEqual => true,
        TokenKind::Identifier => true,
        TokenKind::Impl => true,
        TokenKind::Import => true,
        TokenKind::InclusiveRange => true,
        TokenKind::Let => true,
        TokenKind::Lower => true,
        TokenKind::LowerEqual => true,
        TokenKind::Mod => true,
        TokenKind::Mul => true,
        TokenKind::NotEqual => true,
        TokenKind::Class => true,
        TokenKind::Or => true,
        TokenKind::Pow => true,
        TokenKind::Return => true,
        TokenKind::SelfObject => true,
        TokenKind::ShiftLeft => true,
        TokenKind::ShiftRight => true,
        TokenKind::Sub => true,
        TokenKind::Trait => true,
        TokenKind::Var => true,
        TokenKind::BracketOpen => true,
        TokenKind::Throw => true,
        TokenKind::Else => true,
        _ => false,
    }
}

/// Exec mirror of [`prec_of`].
pub fn kind_prec(k: TokenKind) -> (r: u8)
    ensures
        r as int == prec_of(k),
{
    match k {
        TokenKind::Or => 1,
        TokenKind::And => 2,
        TokenKind::Equal => 3,
        TokenKind::NotEqual => 3,
        TokenKind::Lower => 4,
        TokenKind::LowerEqual => 4,
        TokenKind::Greater => 4,
        TokenKind::GreaterEqual => 4,
        TokenKind::BitwiseOr => 5,
        TokenKind::BitwiseXor => 5,
        TokenKind::BitwiseAnd => 6,
        TokenKind::ShiftLeft => 7,
        TokenKind::ShiftRight => 7,
        TokenKind::Add => 8,
        TokenKind::Sub => 8,
        TokenKind::Div => 9,
        TokenKind::Mod => 9,
        TokenKind::Mul => 9,
        TokenKind::Pow => 10,
        TokenKind::InclusiveRange => 11,
        TokenKind::ExclusiveRange => 11,
        _ => 0,
    }
}

/// Exec mirror of [`op_of`].
pub fn kind_op(k: TokenKind) -> (r: BinaryOp)
    ensures
        r == op_of(k),
{
    match k {
        TokenKind::Or => BinaryOp::Or,
        TokenKind::And => BinaryOp::And,
        TokenKind::Equal => BinaryOp::Equal,
        TokenKind::NotEqual => BinaryOp::NotEqual,
        TokenKind::Lower => BinaryOp::Lower,
        TokenKind::LowerEqual => BinaryOp::LowerEqual,
        TokenKind::Greater => BinaryOp::Greater,
        TokenKind::GreaterEqual => BinaryOp::GreaterEqual,
        TokenKind::BitwiseOr => BinaryOp::BitwiseOr,
        TokenKind::BitwiseXor => BinaryOp::BitwiseXor,
        TokenKind::BitwiseAnd => BinaryOp::BitwiseAnd,
        TokenKind::ShiftLeft => BinaryOp::ShiftLeft,
        TokenKind::ShiftRight => BinaryOp::ShiftRight,
        TokenKind::Add => BinaryOp::Add,
        TokenKind::Sub => BinaryOp::Sub,
        TokenKind::Div => BinaryOp::Div,
        TokenKind::Mod => BinaryOp::Mod,
        TokenKind::Mul => BinaryOp::Mul,
        TokenKind::Pow => BinaryOp::Pow,
        TokenKind::InclusiveRange => BinaryOp::InclusiveRange,
        TokenKind::ExclusiveRange => BinaryOp::ExclusiveRange,
        _ => BinaryOp::Or,
    }
}

/// Exec mirror of [`value_start_spec`].
pub fn is_value_start(k: TokenKind) -> (r: bool)
    ensures
        r == value_start_spec(k),
{
    matches!(
        k,
        TokenKind::Str | TokenKind::Integer | TokenKind::Float | TokenKind::Identifier
            | TokenKind::Constant | TokenKind::HashOpen | TokenKind::Sub
            | TokenKind::BracketOpen | TokenKind::CurlyOpen | TokenKind::Function
            | TokenKind::Let | TokenKind::Var | TokenKind::Class | TokenKind::Trait
            | TokenKind::Return | TokenKind::Impl | TokenKind::Comment | TokenKind::Colon
            | TokenKind::Type | TokenKind::Attribute | TokenKind::SelfObject
            | TokenKind::Try | TokenKind::Throw
    )
}

/// Exec mirror of [`message_token_spec`].
pub fn is_message_token(k: TokenKind) -> (r: bool)
    ensures
        r == message_token_spec(k),
{
    matches!(
        k,
        TokenKind::Add | TokenKind::And | TokenKind::BitwiseAnd | TokenKind::BitwiseOr
            | TokenKind::BitwiseXor | TokenKind::Constant | TokenKind::Div
            | TokenKind::Equal | TokenKind::ExclusiveRange | TokenKind::Greater
            | TokenKind::GreaterEqual | TokenKind::Identifier | TokenKind::Impl
            | TokenKind::Import | TokenKind::InclusiveRange | TokenKind::Let
            | TokenKind::Lower | TokenKind::LowerEqual | TokenKind::Mod | TokenKind::Mul
            | TokenKind::NotEqual | TokenKind::Class | TokenKind::Or | TokenKind::Pow
            | TokenKind::Return | TokenKind::SelfObject | TokenKind::ShiftLeft
            | TokenKind::ShiftRight | TokenKind::Sub | TokenKind::Trait | TokenKind::Var
            | TokenKind::BracketOpen | TokenKind::Throw | TokenKind::Else
    )
}

/// The parser: a token sequence, a cursor, and the position of the most
/// recently consumed token.
pub struct Parser {
    pub tokens: Vec<Token>,
    pub pos: usize,
    pub cur_line: usize,
    pub cur_column: usize,
}

impl Parser {
    /// The cursor never points past the end of the tokens.
    pub open spec fn wf(self) -> bool {
        self.pos <= self.tokens@.len()
    }

    /// How one parser state follows another: same tokens, cursor moved
    /// forward, still in bounds.
    pub open spec fn stepped(pre: Parser, post: Parser) -> bool {
        &&& post.tokens@ == pre.tokens@
        &&& pre.pos <= post.pos
        &&& post.pos <= post.tokens@.len()
    }

    /// Builds a parser over a token sequence, cursor at the start.
    pub fn new(tokens: Vec<Token>) -> (res: Parser)
        ensures
            res.wf(),
            res.tokens@ == tokens@,
            res.pos == 0,
    {
        Parser { tokens, pos: 0, cur_line: 1, cur_column: 1 }
    }

    /// Line of the most recently consumed token (1 before any).
    pub fn line(&self) -> (r: usize)
        ensures
            r == self.cur_line,
    {
        self.cur_line
    }

    /// Column of the most recently consumed token (1 before any).
    pub fn column(&self) -> (r: usize)
        ensures
            r == self.cur_column,
    {
        self.cur_column
    }

    /// True when the next token exists and has kind `k`.
    fn next_type_is(&self, k: TokenKind) -> (r: bool)
        requires
            self.wf(),
        ensures
            r == (self.pos < self.tokens@.len() && self.tokens@[self.pos as int].kind == k),
    {
        if self.pos < self.tokens.len() {
            self.tokens[self.pos].kind == k
        } else {
            false
        }
    }

    /// Kind of the next token, if any, without consuming it.
    fn peek_kind(&self) -> (r: Option<TokenKind>)
        requires
            self.wf(),
        ensures
            self.pos < self.tokens@.len() ==> r == Some(self.tokens@[self.pos as int].kind),
            self.pos == self.tokens@.len() ==> r is None,
    {
        if self.pos < self.tokens.len() {
            Some(self.tokens[self.pos].kind)
        } else {
            None
        }
    }

    /// Line of the next token, if any, without consuming it.
    fn peek_line(&self) -> (r: Option<usize>)
        requires
            self.wf(),
        ensures
            self.pos < self.tokens@.len() ==> r == Some(self.tokens@[self.pos as int].line),
            self.pos == self.tokens@.len() ==> r is None,
    {
        if self.pos < self.tokens.len() {
            Some(self.tokens[self.pos].line)
        } else {
            None
        }
    }

    /// Consumes and returns the next token, if any.
    fn next(&mut self) -> (r: Option<Token>)
        requires
            old(self).wf(),
        ensures
            final(self).wf(),
            final(self).tokens@ == old(self).tokens@,
            old(self).pos < old(self).tokens@.len() ==> {
                &&& r == Some(old(self).tokens@[old(self).pos as int])
                &&& final(self).pos == old(self).pos + 1
            },
            old(self).pos == old(self).tokens@.len() ==> {
                &&& r is None
                &&& final(self).pos == old(self).pos
            },
    {
        if self.pos < self.tokens.len() {
            let t = self.tokens[self.pos].clone();
            self.pos = self.pos + 1;
            self.cur_line = t.line;
            self.cur_column = t.column;
            Some(t)
        } else {
            None
        }
    }

    /// Consumes the next token or fails with "unexpected end of input".
    fn next_or_err(&mut self, expected: &str) -> (r: Result<Token, ParseError>)
        requires
            old(self).wf(),
        ensures
            Parser::stepped(*old(self), *final(self)),
            r matches Ok(t) ==> {
                &&& old(self).pos < old(self).tokens@.len()
                &&& t == old(self).tokens@[old(self).pos as int]
                &&& final(self).pos == old(self).pos + 1
            },
            r is Err ==> old(self).pos == old(self).tokens@.len() && final(self).pos == old(
                self,
            ).pos,
    {
        match self.next() {
            Some(t) => Ok(t),
            None => Err(
                ParseError {
                    expected: String::from_str(expected),
                    found: None,
                    line: self.cur_line,
                    column: self.cur_column,
                },
            ),
        }
    }

    /// Consumes the next token and fails unless it has kind `k`.
    fn expect_kind(&mut self, k: TokenKind, expected: &str) -> (r: Result<Token, ParseError>)
        requires
            old(self).wf(),
        ensures
            Parser::stepped(*old(self), *final(self)),
            r matches Ok(t) ==> {
                &&& old(self).pos < old(self).tokens@.len()
                &&& t == old(self).tokens@[old(self).pos as int]
                &&& t.kind == k
                &&& final(self).pos == old(self).pos + 1
            },
            (old(self).pos < old(self).tokens@.len() && old(self).tokens@[old(self).pos
                as int].kind == k) ==> r is Ok,
    {
        let t = self.next_or_err(expected)?;
        if t.kind == k {
            Ok(t)
        } else {
            Err(
                ParseError {
                    expected: String::from_str(expected),
                    found: Some(t.kind),
                    line: t.line,
                    column: t.column,
                },
            )
        }
    }

    /// True when the next token may start a paren-less argument (a value
    /// starter on the same source line).
    fn next_expression_is_argument(&self, current_line: usize) -> (r: bool)
        requires
            self.wf(),
        ensures
            r == (self.pos < self.tokens@.len() && value_start_spec(
                self.tokens@[self.pos as int].kind,
            ) && self.tokens@[self.pos as int].line == current_line),
    {
        if self.pos < self.tokens.len() {
            is_value_start(self.tokens[self.pos].kind) && self.tokens[self.pos].line
                == current_line
        } else {
            false
        }
    }
}

} // verus!

verus! {

/// Every character is a decimal digit and there is at least one.
pub open spec fn all_digits(s: Seq<char>) -> bool {
    s.len() > 0 && forall|i: int| 0 <= i < s.len() ==> '0' <= #[trigger] s[i] <= '9'
}

/// Value of a decimal digit string, most significant first.
pub open spec fn dec_val(s: Seq<char>) -> int
    decreases s.len(),
{
    if s.len() == 0 {
        0
    } else {
        dec_val(s.drop_last()) * 10 + (s.last() as int - 48)
    }
}

/// The digit string denotes a value that fits a signed 64-bit integer.
pub open spec fn digits_i64_ok(s: Seq<char>) -> bool {
    all_digits(s) && dec_val(s) <= i64::MAX
}

/// A digit string's value only grows as digits are appended.
pub proof fn lemma_dec_prefix(s: Seq<char>, i: int)
    requires
        0 <= i <= s.len(),
        forall|j: int| 0 <= j < s.len() ==> '0' <= #[trigger] s[j] <= '9',
    ensures
        0 <= dec_val(s.take(i)) <= dec_val(s),
    decreases s.len() - i,
{
    if i == 0 {
        assert(s.take(0) =~= Seq::<char>::empty());
        lemma_dec_nonneg(s, s.len() as int);
        assert(s.take(s.len() as int) =~= s);
    } else if i == s.len() {
        assert(s.take(i) =~= s);
        lemma_dec_nonneg(s, i);
    } else {
        lemma_dec_prefix(s, i + 1);
        assert(s.take(i + 1).drop_last() =~= s.take(i));
        assert(s.take(i + 1).last() == s[i]);
        lemma_dec_nonneg(s, i);
        assert(dec_val(s.take(i + 1)) == dec_val(s.take(i)) * 10 + (s[i] as int - 48));
        assert(dec_val(s.take(i)) * 10 >= dec_val(s.take(i))) by (nonlinear_arith)
            requires
                dec_val(s.take(i)) >= 0,
        ;
    }
}

/// A digit string's value is non-negative on every prefix.
pub proof fn lemma_dec_nonneg(s: Seq<char>, i: int)
    requires
        0 <= i <= s.len(),
        forall|j: int| 0 <= j < s.len() ==> '0' <= #[trigger] s[j] <= '9',
    ensures
        dec_val(s.take(i)) >= 0,
    decreases i,
{
    if i > 0 {
        lemma_dec_nonneg(s, i - 1);
        assert(s.take(i).drop_last() =~= s.take(i - 1));
        assert(s.take(i).last() == s[i - 1]);
    } else {
        assert(s.take(0) =~= Seq::<char>::empty());
    }
}

/// Parses a decimal digit string into an `i64`; `None` exactly when the
/// text is empty, holds a non-digit, or exceeds `i64::MAX`.
pub fn parse_dec_i64(s: &str) -> (r: Option<i64>)
    ensures
        r is Some <==> digits_i64_ok(s@),
        r matches Some(v) ==> 0 <= v && v == dec_val(s@),
{
    let n = s.unicode_len();
    if n == 0 {
        return None;
    }
    let mut acc: i64 = 0;
    let mut i: usize = 0;
    while i < n
        invariant
            0 <= i <= n,
            n == s@.len(),
            forall|j: int| 0 <= j < i ==> '0' <= #[trigger] s@[j] <= '9',
            acc == dec_val(s@.take(i as int)),
            0 <= acc <= i64::MAX,
        decreases n - i,
    {
        let c = s.get_char(i);
        if c < '0' || c > '9' {
            return None;
        }
        let d = (c as u8 - 48) as i64;
        assert(d == s@[i as int] as int - 48);
        if acc > (i64::MAX - d) / 10 {
            // The value no longer fits; with every remaining character a
            // digit the full value can only be larger still.
            proof {
                if all_digits(s@) {
                    lemma_dec_prefix(s@, i + 1);
                    assert(s@.take(i + 1).drop_last() =~= s@.take(i as int));
                    assert(s@.take(i + 1).last() == s@[i as int]);
                }
            }
            return None;
        }
        proof {
            assert(s@.take(i + 1).drop_last() =~= s@.take(i as int));
            assert(s@.take(i + 1).last() == s@[i as int]);
        }
        acc = acc * 10 + d;
        i = i + 1;
    }
    proof {
        assert(s@.take(n as int) =~= s@);
    }
    Some(acc)
}

} // verus!

verus! {

/// The token at `p` leaves a bare identifier alone: it triggers no
/// reassignment and no argument-list promotion, so the identifier parser
/// returns just the identifier node.
pub open spec fn ident_bare(a: Token, toks: Seq<Token>, p: int) -> bool {
    p >= toks.len() || {
        let k = toks[p].kind;
        k != TokenKind::Assign && k != TokenKind::ParenOpen && (k == TokenKind::BracketOpen || !(
        value_start_spec(k) && toks[p].line == a.line))
    }
}

/// The atom parsers return exactly the atom's node: always for an
/// integer literal, and for an identifier whenever the next token leaves
/// it bare.
pub open spec fn atom_exact(a: Token, toks: Seq<Token>, p: int) -> bool {
    int_tok_ok(a) || (a.kind == TokenKind::Identifier && ident_bare(a, toks, p))
}

/// The token at `p` neither continues nor follows the atom as an
/// operator: the whole expression is the atom alone.
pub open spec fn atom_alone(a: Token, toks: Seq<Token>, p: int) -> bool {
    atom_exact(a, toks, p) && no_postfix(toks, p, a.line) && (p >= toks.len() || prec_of(
        toks[p].kind,
    ) == 0)
}

/// Nothing at `p` continues a message chain: the end of the input, or a
/// token that is no dot.
pub open spec fn no_dot(toks: Seq<Token>, p: int) -> bool {
    p >= toks.len() || toks[p].kind != TokenKind::Dot
}

/// Nothing at `p` continues a chain or starts a cast.
pub open spec fn no_dot_as(toks: Seq<Token>, p: int) -> bool {
    no_dot(toks, p) && (p >= toks.len() || toks[p].kind != TokenKind::As)
}

/// Nothing at `p` continues a chain, starts a cast, or opens a
/// same-line bracket send on a value of line `line`.
pub open spec fn no_postfix(toks: Seq<Token>, p: int, line: usize) -> bool {
    no_dot_as(toks, p) && (p >= toks.len() || !(toks[p].kind == TokenKind::BracketOpen
        && toks[p].line == line))
}

/// The `Identifier` node a token parses to.
pub open spec fn ident_node_of(t: Token) -> Node {
    Node::Identifier { name: t.text, line: t.line, column: t.column }
}

/// The rename pairs of a trait implementation, read from `i`: `old as
/// new` identifier pairs joined by commas, stopping before the token
/// that follows the last pair. `None` where the token stream breaks the
/// form.
pub open spec fn renames_model(toks: Seq<Token>, i: int) -> Option<(Seq<(Node, Node)>, int)>
    decreases toks.len() - i,
{
    if i < 0 || i + 3 > toks.len() {
        None
    } else if toks[i].kind == TokenKind::Identifier && toks[i + 1].kind == TokenKind::As && toks[
        i + 2
    ].kind == TokenKind::Identifier {
        let pair = (ident_node_of(toks[i]), ident_node_of(toks[i + 2]));
        if i + 3 < toks.len() && toks[i + 3].kind == TokenKind::Comma {
            match renames_model(toks, i + 4) {
                None => None,
                Some(re) => Some((seq![pair] + re.0, re.1)),
            }
        } else {
            Some((seq![pair], i + 3))
        }
    } else {
        None
    }
}

/// The whole rename list: the pairs of [`renames_model`] closed by the
/// `)` that ends them.
pub open spec fn renames_list_model(toks: Seq<Token>, i: int) -> Option<(Seq<(Node, Node)>, int)> {
    match renames_model(toks, i) {
        None => None,
        Some(re) => if re.1 < toks.len() && toks[re.1].kind == TokenKind::ParenClose {
            Some((re.0, re.1 + 1))
        } else {
            None
        },
    }
}

/// The `Constant` node (without a receiver) a token parses to.
pub open spec fn const_node_of(t: Token) -> Node {
    Node::Constant { receiver: None, name: t.text, line: t.line, column: t.column }
}

/// One parenthesised import-symbol list, read from `i`: constants with
/// optional `as` aliases, joined by commas and closed by `)`, which is
/// consumed. `None` where the token stream breaks the form.
pub open spec fn import_symbols_model(toks: Seq<Token>, i: int) -> Option<(Seq<Node>, int)>
    decreases toks.len() - i,
{
    if i < 0 || i >= toks.len() || toks[i].kind != TokenKind::Constant {
        None
    } else if i + 1 < toks.len() && toks[i + 1].kind == TokenKind::As {
        if i + 2 < toks.len() && toks[i + 2].kind == TokenKind::Constant {
            let sym = Node::ImportSymbol {
                symbol: Box::new(const_node_of(toks[i])),
                alias: Some(Box::new(const_node_of(toks[i + 2]))),
            };
            if i + 3 < toks.len() && toks[i + 3].kind == TokenKind::Comma {
                match import_symbols_model(toks, i + 4) {
                    None => None,
                    Some(re) => Some((seq![sym] + re.0, re.1)),
                }
            } else if i + 3 < toks.len() && toks[i + 3].kind == TokenKind::ParenClose {
                Some((seq![sym], i + 4))
            } else {
                None
            }
        } else {
            None
        }
    } else {
        let sym = Node::ImportSymbol { symbol: Box::new(const_node_of(toks[i])), alias: None };
        if i + 1 < toks.len() && toks[i + 1].kind == TokenKind::Comma {
            match import_symbols_model(toks, i + 2) {
                None => None,
                Some(re) => Some((seq![sym] + re.0, re.1)),
            }
        } else if i + 1 < toks.len() && toks[i + 1].kind == TokenKind::ParenClose {
            Some((seq![sym], i + 2))
        } else {
            None
        }
    }
}

/// A whole import statement's content, read from `i`: identifier path
/// steps joined by `::`, ended by a bare constant, by a path step with
/// nothing after it, or by a parenthesised symbol list. `None` where the
/// token stream breaks the form.
pub open spec fn import_model(toks: Seq<Token>, i: int) -> Option<(Seq<Node>, Seq<Node>, int)>
    decreases toks.len() - i,
{
    if i < 0 || i >= toks.len() {
        None
    } else if toks[i].kind == TokenKind::Constant {
        let sym = Node::ImportSymbol { symbol: Box::new(const_node_of(toks[i])), alias: None };
        Some((Seq::empty(), seq![sym], i + 1))
    } else if toks[i].kind == TokenKind::Identifier {
        if i + 1 < toks.len() && toks[i + 1].kind == TokenKind::ColonColon {
            if i + 2 < toks.len() && toks[i + 2].kind == TokenKind::ParenOpen {
                match import_symbols_model(toks, i + 3) {
                    None => None,
                    Some(re) => Some((seq![ident_node_of(toks[i])], re.0, re.1)),
                }
            } else {
                match import_model(toks, i + 2) {
                    None => None,
                    Some(re) => Some((seq![ident_node_of(toks[i])] + re.0, re.1, re.2)),
                }
            }
        } else {
            Some((seq![ident_node_of(toks[i])], Seq::empty(), i + 1))
        }
    } else {
        None
    }
}

/// Nothing at `k` extends a type name: no `::` path step, no `!(`
/// type-argument list and no `->` return clause, so the type is the bare
/// constant alone.
pub open spec fn bare_at(toks: Seq<Token>, k: int) -> bool {
    k >= toks.len() || (toks[k].kind != TokenKind::ColonColon && toks[k].kind
        != TokenKind::TypeArgsOpen && toks[k].kind != TokenKind::Arrow)
}

/// The further members of a `|`-joined union of bare constants, read
/// from a `|` at `j`: the constant nodes in order and the position after
/// the last one. `Some((empty, j))` where no `|` stands at `j`.
pub open spec fn union_tail_model(toks: Seq<Token>, j: int) -> Option<(Seq<Node>, int)>
    decreases toks.len() - j,
{
    if j < 0 || j >= toks.len() || toks[j].kind != TokenKind::BitwiseOr {
        Some((Seq::empty(), j))
    } else if j + 1 < toks.len() && toks[j + 1].kind == TokenKind::Constant && bare_at(
        toks,
        j + 2,
    ) {
        match union_tail_model(toks, j + 2) {
            None => None,
            Some(re) => Some((seq![const_node_of(toks[j + 1])] + re.0, re.1)),
        }
    } else {
        None
    }
}

/// The exact `Implement` node of a bare `impl T ( renames )` clause
/// whose `impl` keyword stands at `p`: the trait constant at `p + 1`,
/// no type arguments, and the modelled rename pairs from `p + 3`.
pub open spec fn bare_implement_node(toks: Seq<Token>, p: int, n: Node) -> bool {
    match renames_list_model(toks, p + 3) {
        Some(m) => n matches Node::Implement {
            name,
            type_arguments,
            renames,
            line,
            column,
        } && ((*name) matches Node::Type { constant, arguments, return_type, .. } && *constant
            == (Node::Constant {
            receiver: None,
            name: toks[p + 1].text,
            line: toks[p + 1].line,
            column: toks[p + 1].column,
        }) && arguments@.len() == 0 && return_type is None) && type_arguments@.len() == 0
            && renames@ == m.0 && line == toks[p].line && column == toks[p].column,
        None => false,
    }
}

/// A class header of the simple shape `C impl T ( renames ) { }`, read
/// from the class name at `p`: one bare trait implementation with a
/// rename list, then an empty braced body.
pub open spec fn class_impl_entry(toks: Seq<Token>, p: int) -> bool {
    &&& p + 3 < toks.len()
    &&& toks[p].kind == TokenKind::Constant
    &&& toks[p + 1].kind == TokenKind::Impl
    &&& toks[p + 2].kind == TokenKind::Constant
    &&& bare_at(toks, p + 3)
    &&& toks[p + 3].kind == TokenKind::ParenOpen
    &&& (match renames_list_model(toks, p + 4) {
        Some(m) => m.1 + 1 < toks.len() && toks[m.1].kind == TokenKind::CurlyOpen && toks[m.1
            + 1].kind == TokenKind::CurlyClose,
        None => false,
    })
}

/// Where such a class header ends: one past its closing brace.
pub open spec fn class_impl_end(toks: Seq<Token>, p: int) -> int {
    match renames_list_model(toks, p + 4) {
        Some(m) => m.1 + 2,
        None => 0,
    }
}

/// A try of the shape `try { x } else (e) { y }` with single-atom
/// bodies, read from the token after the `try` keyword.
pub open spec fn try_scenario_entry(toks: Seq<Token>, p: int) -> bool {
    &&& 0 <= p && p + 9 < toks.len()
    &&& toks[p].kind == TokenKind::CurlyOpen
    &&& atom_ok(toks[p + 1])
    &&& toks[p + 2].kind == TokenKind::CurlyClose
    &&& toks[p + 3].kind == TokenKind::Else
    &&& toks[p + 4].kind == TokenKind::ParenOpen
    &&& toks[p + 5].kind == TokenKind::Identifier
    &&& toks[p + 6].kind == TokenKind::ParenClose
    &&& toks[p + 7].kind == TokenKind::CurlyOpen
    &&& atom_ok(toks[p + 8])
    &&& toks[p + 9].kind == TokenKind::CurlyClose
}

/// The exact `Class` node of the `class C impl T ( renames ) {{ }}`
/// scenario whose `class` keyword stands at `k`.
pub open spec fn class_scenario_node(toks: Seq<Token>, k: int, n: Node) -> bool {
    &&& n matches Node::Class { name, type_arguments, implements, body, line, column }
        && name == toks[k + 1].text && type_arguments@.len() == 0 && implements@.len() == 1
        && bare_implement_node(toks, k + 2, implements@[0]) && ((*body) matches
        Node::Expressions { nodes } && nodes@.len() == 0) && line == toks[k].line && column
        == toks[k].column
}

/// The exact `Try` node of the `try {{ x }} else (e) {{ y }}` scenario
/// whose `try` keyword stands at `k`.
pub open spec fn try_scenario_node(toks: Seq<Token>, k: int, n: Node) -> bool {
    &&& n matches Node::Try { body, else_body, else_argument, line, column } && ((*body)
        matches Node::Expressions { nodes } && nodes@.len() == 1 && nodes@[0] == atom_node_of(
        toks[k + 2],
    )) && (else_argument matches Some(a) && *a == (Node::Identifier {
        name: toks[k + 6].text,
        line: toks[k + 6].line,
        column: toks[k + 6].column,
    })) && (else_body matches Some(b) && ((*b) matches Node::Expressions { nodes }
        && nodes@.len() == 1 && nodes@[0] == atom_node_of(toks[k + 9]))) && line
        == toks[k].line && column == toks[k].column
}

/// A whole input that is one keyword-led value scenario: a class with
/// one bare trait implementation and empty body, or a braced try with an
/// else binding, reaching exactly the end of the stream.
pub open spec fn keyword_entry(toks: Seq<Token>, i: int) -> bool {
    ||| (0 <= i < toks.len() && toks[i].kind == TokenKind::Class && class_impl_entry(
        toks,
        i + 1,
    ) && class_impl_end(toks, i + 1) == toks.len())
    ||| (0 <= i < toks.len() && toks[i].kind == TokenKind::Try && try_scenario_entry(
        toks,
        i + 1,
    ) && i + 11 == toks.len())
}

/// The node such a whole-input scenario parses to.
pub open spec fn keyword_entry_node(toks: Seq<Token>, i: int, n: Node) -> bool {
    if toks[i].kind == TokenKind::Class {
        class_scenario_node(toks, i, n)
    } else {
        try_scenario_node(toks, i, n)
    }
}

/// The argument list of a bracket send whose elements are single atoms,
/// read from `i`: atoms separated by commas up to the closing `]`, which
/// is consumed; a trailing comma before the `]` is tolerated. `None`
/// where the token stream leaves this form.
pub open spec fn bracket_args_model(toks: Seq<Token>, i: int) -> Option<(Seq<Node>, int)>
    decreases toks.len() - i,
{
    if i < 0 || i >= toks.len() {
        None
    } else if toks[i].kind == TokenKind::BracketClose {
        Some((Seq::empty(), i + 1))
    } else if atom_ok(toks[i]) && i + 1 < toks.len() {
        if toks[i + 1].kind == TokenKind::Comma {
            match bracket_args_model(toks, i + 2) {
                None => None,
                Some(re) => Some((seq![atom_node_of(toks[i])] + re.0, re.1)),
            }
        } else if toks[i + 1].kind == TokenKind::BracketClose {
            Some((seq![atom_node_of(toks[i])], i + 2))
        } else {
            None
        }
    } else {
        None
    }
}

/// A stream that is one whole import: an `import` keyword whose content
/// reaches exactly the end of the input.
pub open spec fn import_entry(toks: Seq<Token>, p: int) -> bool {
    0 <= p < toks.len() && toks[p].kind == TokenKind::Import && (match import_model(toks, p + 1) {
        Some(m) => m.2 == toks.len(),
        None => false,
    })
}

/// The Import node such a stream parses to, at the keyword's position,
/// with the modelled steps and symbols.
pub open spec fn import_entry_node(toks: Seq<Token>, p: int, n: Node) -> bool {
    match import_model(toks, p + 1) {
        Some(m) => n matches Node::Import { steps, symbols, line, column } && steps@ == m.0
            && symbols@ == m.1 && line == toks[p].line && column == toks[p].column,
        None => false,
    }
}

/// The characters a message name appends after the bare token text: `]`
/// when the name was the `[` token, `=` when a setter `=` follows.
pub open spec fn msg_suffix(bracket: bool, assign: bool) -> Seq<char> {
    if bracket && assign {
        seq![']', '=']
    } else if bracket {
        seq![']']
    } else if assign {
        seq!['=']
    } else {
        Seq::<char>::empty()
    }
}

impl Parser {
    /// An `Identifier` node from a token.
    pub fn identifier_from_token(&self, token: Token) -> (n: Node)
        ensures
            n == (Node::Identifier { name: token.text, line: token.line, column: token.column }),
    {
        Node::Identifier { name: token.text, line: token.line, column: token.column }
    }

    /// An `Attribute` node from a token.
    pub fn attribute_from_token(&self, token: Token) -> (n: Node)
        ensures
            n == (Node::Attribute { name: token.text, line: token.line, column: token.column }),
    {
        Node::Attribute { name: token.text, line: token.line, column: token.column }
    }

    /// A `Constant` node from a token and an optional receiver path.
    pub fn constant_from_token(&self, token: Token, receiver: Option<Box<Node>>) -> (n: Node)
        ensures
            n == (Node::Constant {
                receiver,
                name: token.text,
                line: token.line,
                column: token.column,
            }),
    {
        Node::Constant { receiver, name: token.text, line: token.line, column: token.column }
    }

    /// A string literal.
    fn string(&self, start: Token) -> (r: ParseResult)
        ensures
            r == Ok::<Node, ParseError>(
                Node::Str { value: start.text, line: start.line, column: start.column },
            ),
    {
        Ok(Node::Str { value: start.text, line: start.line, column: start.column })
    }

    /// A comment.
    fn comment(&self, start: Token) -> (r: ParseResult)
        ensures
            r == Ok::<Node, ParseError>(
                Node::Comment { value: start.text, line: start.line, column: start.column },
            ),
    {
        Ok(Node::Comment { value: start.text, line: start.line, column: start.column })
    }

    /// The `self` object.
    fn self_object(&self, start: Token) -> (r: ParseResult)
        ensures
            r == Ok::<Node, ParseError>(
                Node::SelfObject { line: start.line, column: start.column },
            ),
    {
        Ok(Node::SelfObject { line: start.line, column: start.column })
    }

    /// An integer literal: the token text read as a decimal value.
    fn integer(&self, start: Token) -> (r: ParseResult)
        ensures
            digits_i64_ok(start.text@) ==> r == Ok::<Node, ParseError>(
                Node::Integer {
                    value: dec_val(start.text@) as i64,
                    line: start.line,
                    column: start.column,
                },
            ),
            !digits_i64_ok(start.text@) ==> r is Err,
    {
        match parse_dec_i64(start.text.as_str()) {
            Some(v) => Ok(Node::Integer { value: v, line: start.line, column: start.column }),
            None => Err(
                ParseError {
                    expected: String::from_str("an integer literal"),
                    found: Some(start.kind),
                    line: start.line,
                    column: start.column,
                },
            ),
        }
    }

    /// A float literal: the token text is kept verbatim.
    fn float(&self, start: Token) -> (r: ParseResult)
        ensures
            r == Ok::<Node, ParseError>(
                Node::Float { value: start.text, line: start.line, column: start.column },
            ),
    {
        Ok(Node::Float { value: start.text, line: start.line, column: start.column })
    }

    /// A negative number: `-` must be followed by an integer or float
    /// literal, negated at parse time; anything else is a failure.
    fn negative_number(&mut self, start: Token) -> (r: ParseResult)
        requires
            old(self).wf(),
        ensures
            Parser::stepped(*old(self), *final(self)),
            old(self).pos == old(self).tokens@.len() ==> r is Err,
            old(self).pos < old(self).tokens@.len() ==> {
                let t = old(self).tokens@[old(self).pos as int];
                &&& final(self).pos == old(self).pos + 1
                &&& (t.kind == TokenKind::Integer && digits_i64_ok(t.text@)) ==> r == Ok::<
                    Node,
                    ParseError,
                >(
                    Node::Integer {
                        value: (0 - dec_val(t.text@)) as i64,
                        line: start.line,
                        column: start.column,
                    },
                )
                &&& (t.kind == TokenKind::Integer && !digits_i64_ok(t.text@)) ==> r is Err
                &&& t.kind == TokenKind::Float ==> (r matches Ok(n) && n matches Node::Float {
                    value,
                    line,
                    column,
                } && value@ == seq!['-'] + t.text@ && line == start.line && column
                    == start.column)
                &&& (t.kind != TokenKind::Integer && t.kind != TokenKind::Float) ==> r is Err
            },
    {
        let following = self.next_or_err("a number")?;
        match following.kind {
            TokenKind::Integer => {
                match parse_dec_i64(following.text.as_str()) {
                    Some(v) => Ok(
                        Node::Integer { value: -v, line: start.line, column: start.column },
                    ),
                    None => Err(
                        ParseError {
                            expected: String::from_str("an integer literal"),
                            found: Some(following.kind),
                            line: following.line,
                            column: following.column,
                        },
                    ),
                }
            },
            TokenKind::Float => {
                let text = String::from_str("-").concat(following.text.as_str());
                proof {
                    reveal_strlit("-");
                    assert(text@ =~= seq!['-'] + following.text@);
                }
                Ok(Node::Float { value: text, line: start.line, column: start.column })
            },
            _ => Err(
                ParseError {
                    expected: String::from_str("a number"),
                    found: Some(following.kind),
                    line: following.line,
                    column: following.column,
                },
            ),
        }
    }

    /// The message name a token stands for: the token text, `[]` completed
    /// from a `[` token, and `=` appended when a setter `=` follows.
    fn message_name_for_token(&mut self, start: Token) -> (r: Result<String, ParseError>)
        requires
            old(self).wf(),
        ensures
            Parser::stepped(*old(self), *final(self)),
            r is Ok ==> message_token_spec(start.kind),
            message_token_spec(start.kind) && start.kind != TokenKind::BracketOpen ==> r is Ok,
            (message_token_spec(start.kind) && start.kind == TokenKind::BracketOpen && old(
                self,
            ).pos < old(self).tokens@.len() && old(self).tokens@[old(self).pos as int].kind
                == TokenKind::BracketClose) ==> r is Ok,
            r matches Ok(name) ==> {
                let toks = old(self).tokens@;
                let i = old(self).pos as int;
                if start.kind == TokenKind::BracketOpen {
                    &&& i < toks.len() && toks[i].kind == TokenKind::BracketClose
                    &&& {
                        let assign = i + 1 < toks.len() && toks[i + 1].kind == TokenKind::Assign;
                        name@ == start.text@ + msg_suffix(true, assign) && final(self).pos == i
                            + (if assign {
                            2int
                        } else {
                            1int
                        })
                    }
                } else {
                    let assign = i < toks.len() && toks[i].kind == TokenKind::Assign;
                    name@ == start.text@ + msg_suffix(false, assign) && final(self).pos == i + (
                    if assign {
                        1int
                    } else {
                        0int
                    })
                }
            },
    {
        if !is_message_token(start.kind) {
            return Err(
                ParseError {
                    expected: String::from_str("a method name"),
                    found: Some(start.kind),
                    line: start.line,
                    column: start.column,
                },
            );
        }
        let mut name = start.text;
        let ghost base = name@;
        let mut bracket = false;
        if start.kind == TokenKind::BracketOpen {
            self.expect_kind(TokenKind::BracketClose, "a closing bracket")?;
            name.append("]");
            bracket = true;
            proof {
                reveal_strlit("]");
                assert(name@ =~= base + seq![']']);
            }
        }
        if self.next_type_is(TokenKind::Assign) {
            let _ = self.next();
            name.append("=");
            proof {
                reveal_strlit("=");
                if bracket {
                    assert(name@ =~= base + seq![']', '=']);
                } else {
                    assert(name@ =~= base + seq!['=']);
                }
            }
        }
        proof {
            assert(base + Seq::<char>::empty() =~= base);
        }
        Ok(name)
    }
}

} // verus!

verus! {

impl Parser {
    /// Parses the whole input and returns the `Expressions` root, or the
    /// first failure.
    pub fn parse(&mut self) -> (r: ParseResult)
        requires
            old(self).wf(),
        ensures
            Parser::stepped(*old(self), *final(self)),
            r is Ok ==> final(self).pos == old(self).tokens@.len(),
            r matches Ok(root) ==> root matches Node::Expressions { .. },
            old(self).pos == old(self).tokens@.len() ==> (r matches Ok(root) && (root matches
                Node::Expressions { nodes } && nodes@.len() == 0)),
            frag(old(self).tokens@, old(self).pos as int) ==> (r matches Ok(root) && (root
                matches Node::Expressions { nodes } && nodes@.len() == 1 && sp_bin(
                old(self).tokens@,
                old(self).pos as int,
                1,
            ) == Some((nodes@[0], old(self).tokens@.len() as int)))),
            ({
                let toks = old(self).tokens@;
                let p0 = old(self).pos as int;
                (p0 < toks.len() && toks[p0].kind == TokenKind::Import) ==> (match import_model(
                    toks,
                    p0 + 1,
                ) {
                    Some(m) => m.2 == toks.len() ==> (r matches Ok(root) && (root matches
                        Node::Expressions { nodes } && nodes@.len() == 1 && (nodes@[0] matches
                        Node::Import { steps, symbols, line, column } && steps@ == m.0
                        && symbols@ == m.1 && line == toks[p0].line && column
                        == toks[p0].column))),
                    None => r is Err,
                })
            }),
            ({
                let toks = old(self).tokens@;
                let p0 = old(self).pos as int;
                keyword_entry(toks, p0) ==> (r matches Ok(root) && (root matches
                    Node::Expressions { nodes } && nodes@.len() == 1 && keyword_entry_node(
                    toks,
                    p0,
                    nodes@[0],
                )))
            }),
        decreases self.tokens@.len() - self.pos, 60int,
    {
        self.expressions()
    }

    /// Parses every top-level expression until the input is exhausted.
    pub fn expressions(&mut self) -> (r: ParseResult)
        requires
            old(self).wf(),
        ensures
            Parser::stepped(*old(self), *final(self)),
            r is Ok ==> final(self).pos == old(self).tokens@.len(),
            r matches Ok(root) ==> root matches Node::Expressions { .. },
            old(self).pos == old(self).tokens@.len() ==> (r matches Ok(root) && (root matches
                Node::Expressions { nodes } && nodes@.len() == 0)),
            frag(old(self).tokens@, old(self).pos as int) ==> (r matches Ok(root) && (root
                matches Node::Expressions { nodes } && nodes@.len() == 1 && sp_bin(
                old(self).tokens@,
                old(self).pos as int,
                1,
            ) == Some((nodes@[0], old(self).tokens@.len() as int)))),
            ({
                let toks = old(self).tokens@;
                let p0 = old(self).pos as int;
                (p0 < toks.len() && toks[p0].kind == TokenKind::Import) ==> (match import_model(
                    toks,
                    p0 + 1,
                ) {
                    Some(m) => m.2 == toks.len() ==> (r matches Ok(root) && (root matches
                        Node::Expressions { nodes } && nodes@.len() == 1 && (nodes@[0] matches
                        Node::Import { steps, symbols, line, column } && steps@ == m.0
                        && symbols@ == m.1 && line == toks[p0].line && column
                        == toks[p0].column))),
                    None => r is Err,
                })
            }),
            ({
                let toks = old(self).tokens@;
                let p0 = old(self).pos as int;
                keyword_entry(toks, p0) ==> (r matches Ok(root) && (root matches
                    Node::Expressions { nodes } && nodes@.len() == 1 && keyword_entry_node(
                    toks,
                    p0,
                    nodes@[0],
                )))
            }),
        decreases self.tokens@.len() - self.pos, 54int,
    {
        let ghost toks = old(self).tokens@;
        let ghost p0 = old(self).pos as int;
        let mut children: Vec<Node> = Vec::new();
        loop
            invariant
                self.wf(),
                self.tokens@ == old(self).tokens@,
                old(self).pos <= self.pos,
                toks == self.tokens@,
                p0 == old(self).pos,
                p0 == toks.len() ==> children@.len() == 0,
                frag(toks, p0) ==> (self.pos == p0 && children@ =~= Seq::<Node>::empty()) || (
                self.pos == toks.len() && children@.len() == 1 && sp_bin(toks, p0, 1) == Some(
                    (children@[0], toks.len() as int),
                )),
                import_entry(toks, p0) ==> (self.pos == p0 && children@ =~= Seq::<
                    Node,
                >::empty()) || (self.pos == toks.len() && children@.len() == 1
                    && import_entry_node(toks, p0, children@[0])),
                (p0 < toks.len() && toks[p0].kind == TokenKind::Import && import_model(
                    toks,
                    p0 + 1,
                ) is None) ==> (self.pos == p0 && children@ =~= Seq::<Node>::empty()),
                keyword_entry(toks, p0) ==> (self.pos == p0 && children@ =~= Seq::<
                    Node,
                >::empty()) || (self.pos == toks.len() && children@.len() == 1
                    && keyword_entry_node(toks, p0, children@[0])),
            ensures
                self.pos == self.tokens@.len(),
                p0 == toks.len() ==> children@.len() == 0,
                frag(toks, p0) ==> children@.len() == 1 && sp_bin(toks, p0, 1) == Some(
                    (children@[0], toks.len() as int),
                ),
                import_entry(toks, p0) ==> (children@.len() == 1 && import_entry_node(
                    toks,
                    p0,
                    children@[0],
                )),
                !(p0 < toks.len() && toks[p0].kind == TokenKind::Import && import_model(
                    toks,
                    p0 + 1,
                ) is None),
                keyword_entry(toks, p0) ==> (children@.len() == 1 && keyword_entry_node(
                    toks,
                    p0,
                    children@[0],
                )),
            decreases self.tokens@.len() - self.pos,
        {
            let ghost jpre = self.pos as int;
            let token = match self.next() {
                Some(t) => t,
                None => {
                    proof {
                        if frag(toks, p0) {
                            assert(self.pos == toks.len());
                            assert(p0 < toks.len());
                        }
                    }
                    break
                },
            };
            proof {
                if frag(toks, p0) {
                    if jpre != p0 {
                        assert(jpre == toks.len());
                        assert(false);
                    }
                }
            }
            let node = self.import_or_expression(token)?;
            proof {
                if frag(toks, p0) {
                    lemma_sp_bin_on_frag(toks, p0, 1);
                    assert(frag_tail(toks, self.pos as int));
                    if self.pos < toks.len() {
                        assert(prec_of(toks[self.pos as int].kind) < 1);
                        assert(prec_of(toks[self.pos as int].kind) >= 1);
                    }
                    assert(self.pos == toks.len());
                }
            }
            children.push(node);
        }
        Ok(Node::Expressions { nodes: children })
    }

    /// A top-level item: an import, or an expression.
    fn import_or_expression(&mut self, start: Token) -> (r: ParseResult)
        requires
            old(self).wf(),
            1 <= old(self).pos,
            start == old(self).tokens@[old(self).pos - 1],
        ensures
            Parser::stepped(*old(self), *final(self)),
            frag(old(self).tokens@, old(self).pos - 1) ==> (r matches Ok(n) && sp_bin(
                old(self).tokens@,
                old(self).pos - 1,
                1,
            ) == Some((n, final(self).pos as int))),
            start.kind == TokenKind::Import ==> {
                &&& (r is Ok <==> import_model(old(self).tokens@, old(self).pos as int) is Some)
                &&& (r matches Ok(n) ==> (import_model(old(self).tokens@, old(self).pos as int)
                    matches Some(m) && (n matches Node::Import { steps, symbols, line, column }
                    && steps@ == m.0 && symbols@ == m.1 && final(self).pos == m.2 && line
                    == start.line && column == start.column)))
            },
            keyword_entry(old(self).tokens@, old(self).pos - 1) ==> (r matches Ok(n)
                && keyword_entry_node(old(self).tokens@, old(self).pos - 1, n) && final(self).pos
                == old(self).tokens@.len()),
        decreases self.tokens@.len() - self.pos + 1, 52int,
    {
        if start.kind == TokenKind::Import {
            self.import(start)
        } else {
            self.expression(start)
        }
    }

    /// An import statement: dotted path steps ending in a constant or a
    /// parenthesised symbol list.
    fn import(&mut self, start: Token) -> (r: ParseResult)
        requires
            old(self).wf(),
            1 <= old(self).pos,
            start == old(self).tokens@[old(self).pos - 1],
        ensures
            Parser::stepped(*old(self), *final(self)),
            r is Ok <==> import_model(old(self).tokens@, old(self).pos as int) is Some,
            r matches Ok(n) ==> (import_model(old(self).tokens@, old(self).pos as int) matches
                Some(m) && (n matches Node::Import { steps, symbols, line, column } && steps@
                == m.0 && symbols@ == m.1 && final(self).pos == m.2 && line == start.line
                && column == start.column)),
            r matches Ok(n) ==> (n matches Node::Import { steps, symbols, line, column } && (
            forall|j: int|
                0 <= j < steps@.len() ==> (#[trigger] steps@[j]) matches Node::Identifier { .. })
                && (forall|j: int|
                0 <= j < symbols@.len() ==> (#[trigger] symbols@[j]) matches Node::ImportSymbol {
                    ..
                }) && line == start.line && column == start.column),
        decreases self.tokens@.len() - self.pos + 1, 50int,
    {
        let ghost toks = old(self).tokens@;
        let ghost p0 = old(self).pos as int;
        let mut steps: Vec<Node> = Vec::new();
        let mut symbols: Vec<Node> = Vec::new();
        loop
            invariant_except_break
                symbols@ == Seq::<Node>::empty(),
                (match import_model(toks, self.pos as int) {
                    None => import_model(toks, p0) is None,
                    Some(re) => import_model(toks, p0) == Some((steps@ + re.0, re.1, re.2)),
                }),
            invariant
                self.wf(),
                self.tokens@ == old(self).tokens@,
                old(self).pos <= self.pos,
                toks == old(self).tokens@,
                p0 == old(self).pos,
                forall|j: int|
                    0 <= j < steps@.len() ==> (#[trigger] steps@[j]) matches Node::Identifier {
                        ..
                    },
                forall|j: int|
                    0 <= j < symbols@.len() ==> (#[trigger] symbols@[j]) matches
                        Node::ImportSymbol { .. },
            ensures
                self.wf(),
                self.tokens@ == old(self).tokens@,
                old(self).pos <= self.pos,
                toks == old(self).tokens@,
                p0 == old(self).pos,
                import_model(toks, p0) == Some((steps@, symbols@, self.pos as int)),
                forall|j: int|
                    0 <= j < steps@.len() ==> (#[trigger] steps@[j]) matches Node::Identifier {
                        ..
                    },
                forall|j: int|
                    0 <= j < symbols@.len() ==> (#[trigger] symbols@[j]) matches
                        Node::ImportSymbol { .. },
            decreases self.tokens@.len() - self.pos,
        {
            let ghost jpos = self.pos as int;
            let ghost spre = steps@;
            let step = self.next_or_err("an identifier or constant")?;
            match step.kind {
                TokenKind::Identifier => {
                    let n = self.identifier_from_token(step);
                    steps.push(n);
                    proof {
                        assert(steps@ =~= spre + seq![ident_node_of(toks[jpos])]);
                    }
                },
                TokenKind::Constant => {
                    let c = self.constant_from_token(step, None);
                    symbols.push(Node::ImportSymbol { symbol: Box::new(c), alias: None });
                    proof {
                        let sym = Node::ImportSymbol {
                            symbol: Box::new(const_node_of(toks[jpos])),
                            alias: None,
                        };
                        assert(import_model(toks, jpos) == Some(
                            (Seq::<Node>::empty(), seq![sym], jpos + 1),
                        ));
                        assert(spre + Seq::<Node>::empty() =~= steps@);
                        assert(symbols@ =~= seq![sym]);
                    }
                    break;
                },
                _ => {
                    proof {
                        assert(import_model(toks, jpos) is None);
                    }
                    return Err(
                        ParseError {
                            expected: String::from_str("an identifier or constant"),
                            found: Some(step.kind),
                            line: step.line,
                            column: step.column,
                        },
                    );
                },
            }
            if self.next_type_is(TokenKind::ColonColon) {
                let _ = self.next();
            } else {
                proof {
                    assert(import_model(toks, jpos) == Some(
                        (seq![ident_node_of(toks[jpos])], Seq::<Node>::empty(), jpos + 1),
                    ));
                    assert(spre + seq![ident_node_of(toks[jpos])] =~= steps@);
                }
                break;
            }
            if self.next_type_is(TokenKind::ParenOpen) {
                let _ = self.next();
                symbols = self.import_symbols()?;
                proof {
                    let m = import_symbols_model(toks, jpos + 3)->Some_0;
                    assert(import_model(toks, jpos) == Some(
                        (seq![ident_node_of(toks[jpos])], m.0, m.1),
                    ));
                    assert(spre + seq![ident_node_of(toks[jpos])] =~= steps@);
                }
                break;
            }
            proof {
                match import_model(toks, self.pos as int) {
                    None => {
                        assert(import_model(toks, jpos) is None);
                    },
                    Some(re) => {
                        assert(import_model(toks, jpos) == Some(
                            (seq![ident_node_of(toks[jpos])] + re.0, re.1, re.2),
                        ));
                        assert(spre + (seq![ident_node_of(toks[jpos])] + re.0) =~= steps@
                            + re.0);
                    },
                }
            }
        }
        Ok(Node::Import { steps, symbols, line: start.line, column: start.column })
    }

    /// The parenthesised symbol list of an import: constants with optional
    /// `as` aliases, comma separated.
    fn import_symbols(&mut self) -> (r: Result<Vec<Node>, ParseError>)
        requires
            old(self).wf(),
        ensures
            Parser::stepped(*old(self), *final(self)),
            r is Ok <==> import_symbols_model(old(self).tokens@, old(self).pos as int) is Some,
            r matches Ok(v) ==> (import_symbols_model(old(self).tokens@, old(self).pos as int)
                matches Some(m) && v@ == m.0 && final(self).pos == m.1),
            r matches Ok(v) ==> forall|j: int|
                0 <= j < v@.len() ==> ((#[trigger] v@[j]) matches Node::ImportSymbol {
                    symbol,
                    alias,
                } && ((*symbol) matches Node::Constant { .. }) && (alias is None || (alias
                    matches Some(a) && ((*a) matches Node::Constant { .. })))),
        decreases self.tokens@.len() - self.pos, 6int,
    {
        let ghost toks = old(self).tokens@;
        let ghost p0 = old(self).pos as int;
        let mut symbols: Vec<Node> = Vec::new();
        loop
            invariant_except_break
                (match import_symbols_model(toks, self.pos as int) {
                    None => import_symbols_model(toks, p0) is None,
                    Some(re) => import_symbols_model(toks, p0) == Some(
                        (symbols@ + re.0, re.1),
                    ),
                }),
            invariant
                self.wf(),
                self.tokens@ == old(self).tokens@,
                old(self).pos <= self.pos,
                toks == old(self).tokens@,
                p0 == old(self).pos,
                forall|j: int|
                    0 <= j < symbols@.len() ==> ((#[trigger] symbols@[j]) matches
                        Node::ImportSymbol { symbol, alias } && ((*symbol) matches
                        Node::Constant { .. }) && (alias is None || (alias matches Some(a) && ((
                    *a) matches Node::Constant { .. })))),
            ensures
                self.wf(),
                self.tokens@ == old(self).tokens@,
                old(self).pos <= self.pos,
                toks == old(self).tokens@,
                p0 == old(self).pos,
                import_symbols_model(toks, p0) == Some((symbols@, self.pos as int)),
                forall|j: int|
                    0 <= j < symbols@.len() ==> ((#[trigger] symbols@[j]) matches
                        Node::ImportSymbol { symbol, alias } && ((*symbol) matches
                        Node::Constant { .. }) && (alias is None || (alias matches Some(a) && ((
                    *a) matches Node::Constant { .. })))),
            decreases self.tokens@.len() - self.pos,
        {
            let ghost jpos = self.pos as int;
            let ghost pre = symbols@;
            let start = self.expect_kind(TokenKind::Constant, "a constant")?;
            let symbol = self.constant_from_token(start, None);
            let alias = if self.next_type_is(TokenKind::As) {
                let _ = self.next();
                let a = self.expect_kind(TokenKind::Constant, "a constant")?;
                Some(Box::new(self.constant_from_token(a, None)))
            } else {
                None
            };
            let ghost tpos = self.pos as int;
            let ghost symnode = if tpos == jpos + 3 {
                Node::ImportSymbol {
                    symbol: Box::new(const_node_of(toks[jpos])),
                    alias: Some(Box::new(const_node_of(toks[jpos + 2]))),
                }
            } else {
                Node::ImportSymbol { symbol: Box::new(const_node_of(toks[jpos])), alias: None }
            };
            symbols.push(Node::ImportSymbol { symbol: Box::new(symbol), alias });
            proof {
                assert(symbols@ =~= pre + seq![symnode]);
            }
            let t = self.next_or_err("a comma or closing parenthesis")?;
            match t.kind {
                TokenKind::Comma => {
                    proof {
                        match import_symbols_model(toks, self.pos as int) {
                            None => {
                                assert(import_symbols_model(toks, jpos) is None);
                            },
                            Some(re) => {
                                assert(import_symbols_model(toks, jpos) == Some(
                                    (seq![symnode] + re.0, re.1),
                                ));
                                assert(pre + (seq![symnode] + re.0) =~= symbols@ + re.0);
                            },
                        }
                    }
                },
                TokenKind::ParenClose => {
                    proof {
                        assert(import_symbols_model(toks, jpos) == Some(
                            (seq![symnode], tpos + 1),
                        ));
                        assert(pre + seq![symnode] =~= symbols@);
                    }
                    break;
                },
                _ => {
                    proof {
                        assert(import_symbols_model(toks, jpos) is None);
                    }
                    return Err(
                        ParseError {
                            expected: String::from_str("a comma or closing parenthesis"),
                            found: Some(t.kind),
                            line: t.line,
                            column: t.column,
                        },
                    );
                },
            }
        }
        Ok(symbols)
    }

    /// An expression: the binary-operator ladder from its lowest class.
    fn expression(&mut self, start: Token) -> (r: ParseResult)
        requires
            old(self).wf(),
            1 <= old(self).pos,
            start == old(self).tokens@[old(self).pos - 1],
        ensures
            Parser::stepped(*old(self), *final(self)),
            frag(old(self).tokens@, old(self).pos - 1) ==> (r matches Ok(n) && sp_bin(
                old(self).tokens@,
                old(self).pos - 1,
                1,
            ) == Some((n, final(self).pos as int))),
            atom_alone(start, old(self).tokens@, old(self).pos as int) ==> r == Ok::<
                Node,
                ParseError,
            >(atom_node_of(start)) && final(self).pos == old(self).pos,
            keyword_entry(old(self).tokens@, old(self).pos - 1) ==> (r matches Ok(n)
                && keyword_entry_node(old(self).tokens@, old(self).pos - 1, n) && final(self).pos
                == old(self).tokens@.len()),
        decreases self.tokens@.len() - self.pos + 1, 50int,
    {
        self.binary_expr(start, 1)
    }

    /// The left-folding driver shared by all binary precedence classes:
    /// parse a left operand with the next-higher class, then fold operator
    /// and right operand while the lookahead stays in class `prec`.
    fn binary_expr(&mut self, start: Token, prec: u8) -> (r: ParseResult)
        requires
            old(self).wf(),
            1 <= old(self).pos,
            start == old(self).tokens@[old(self).pos - 1],
            1 <= prec <= 11,
        ensures
            Parser::stepped(*old(self), *final(self)),
            frag(old(self).tokens@, old(self).pos - 1) ==> (r matches Ok(n) && sp_bin(
                old(self).tokens@,
                old(self).pos - 1,
                prec as int,
            ) == Some((n, final(self).pos as int))),
            atom_alone(start, old(self).tokens@, old(self).pos as int) ==> r == Ok::<
                Node,
                ParseError,
            >(atom_node_of(start)) && final(self).pos == old(self).pos,
            keyword_entry(old(self).tokens@, old(self).pos - 1) ==> (r matches Ok(n)
                && keyword_entry_node(old(self).tokens@, old(self).pos - 1, n) && final(self).pos
                == old(self).tokens@.len()),
        decreases self.tokens@.len() - self.pos + 1, 50int - 2 * prec,
    {
        let ghost toks = old(self).tokens@;
        let ghost i = old(self).pos - 1;
        let ghost gstart = start;
        let mut node = if prec == 11 {
            self.bracket_send(start)?
        } else {
            self.binary_expr(start, prec + 1)?
        };
        proof {
            if frag(toks, i) {
                if prec == 11 {
                    assert(sp_bin(toks, i, 12) == Some((node, self.pos as int)));
                }
                lemma_sp_bin_on_frag(toks, i, prec + 1);
                assert(sp_bin(toks, i, prec as int) == sp_fold(
                    toks,
                    node,
                    self.pos as int,
                    prec as int,
                ));
            }
        }
        loop
            invariant
                self.wf(),
                self.tokens@ == old(self).tokens@,
                old(self).pos <= self.pos,
                1 <= prec <= 11,
                toks == self.tokens@,
                i == old(self).pos - 1,
                gstart == start,
                atom_alone(gstart, toks, i + 1) ==> node == atom_node_of(gstart) && self.pos
                    == old(self).pos,
                keyword_entry(toks, i) ==> (keyword_entry_node(toks, i, node) && self.pos
                    == toks.len()),
                frag(toks, i) ==> {
                    &&& i < self.pos <= toks.len()
                    &&& frag_tail(toks, self.pos as int)
                    &&& (self.pos < toks.len() ==> prec_of(toks[self.pos as int].kind)
                        <= prec as int)
                    &&& sp_bin(toks, i, prec as int) == sp_fold(
                        toks,
                        node,
                        self.pos as int,
                        prec as int,
                    )
                },
            ensures
                frag(toks, i) ==> sp_bin(toks, i, prec as int) == Some((node, self.pos as int)),
            decreases self.tokens@.len() - self.pos,
        {
            let opk = match self.peek_kind() {
                Some(k) => k,
                None => {
                    proof {
                        if frag(toks, i) {
                            assert(sp_fold(toks, node, self.pos as int, prec as int) == Some(
                                (node, self.pos as int),
                            ));
                        }
                    }
                    break
                },
            };
            if kind_prec(opk) != prec {
                proof {
                    if frag(toks, i) {
                        assert(sp_fold(toks, node, self.pos as int, prec as int) == Some(
                            (node, self.pos as int),
                        ));
                    }
                }
                break;
            }
            let ghost j = self.pos as int;
            let op = self.next_or_err("an operator")?;
            proof {
                if frag(toks, i) {
                    assert(frag(toks, j + 1));
                }
            }
            let start2 = self.next_or_err("an expression")?;
            let rhs = if prec == 11 {
                self.bracket_send(start2)?
            } else {
                self.binary_expr(start2, prec + 1)?
            };
            proof {
                if frag(toks, i) {
                    if prec == 11 {
                        assert(sp_bin(toks, j + 1, 12) == Some((rhs, self.pos as int)));
                    }
                    lemma_sp_bin_on_frag(toks, j + 1, prec + 1);
                }
            }
            let ghost n0 = node;
            node = Node::Binary {
                op: kind_op(op.kind),
                left: Box::new(node),
                right: Box::new(rhs),
                line: op.line,
                column: op.column,
            };
            proof {
                if frag(toks, i) {
                    assert(node == mk_bin(toks[j], n0, rhs));
                    assert(sp_fold(toks, n0, j, prec as int) == sp_fold(
                        toks,
                        node,
                        self.pos as int,
                        prec as int,
                    ));
                }
            }
        }
        Ok(node)
    }

    /// Postfix `v[args]` and `v[args] = value`, sugared to `[]` / `[]=`
    /// sends; a `[` on a later line is left alone.
    fn bracket_send(&mut self, start: Token) -> (r: ParseResult)
        requires
            old(self).wf(),
            1 <= old(self).pos,
            start == old(self).tokens@[old(self).pos - 1],
        ensures
            Parser::stepped(*old(self), *final(self)),
            atom_exact(start, old(self).tokens@, old(self).pos as int) && no_postfix(
                old(self).tokens@,
                old(self).pos as int,
                start.line,
            ) ==> r == Ok::<Node, ParseError>(atom_node_of(start)) && final(self).pos == old(
                self,
            ).pos,
            (atom_ok(start) && old(self).pos < old(self).tokens@.len() && old(self).tokens@[
                old(self).pos as int
            ].kind == TokenKind::BracketOpen && old(self).tokens@[old(self).pos as int].line
                == start.line) ==> (r matches Ok(n) ==> n matches Node::Send {
                name,
                receiver,
                ..
            } && (name@ == seq!['[', ']'] || name@ == seq!['[', ']', '=']) && receiver is Some),
            keyword_entry(old(self).tokens@, old(self).pos - 1) ==> (r matches Ok(n)
                && keyword_entry_node(old(self).tokens@, old(self).pos - 1, n) && final(self).pos
                == old(self).tokens@.len()),
        decreases self.tokens@.len() - self.pos + 1, 26int,
    {
        let ghost toks = old(self).tokens@;
        let ghost p0 = old(self).pos as int;
        let ghost gstart = start;
        let ghost bracketed = atom_ok(gstart) && p0 < toks.len() && toks[p0].kind
            == TokenKind::BracketOpen && toks[p0].line == gstart.line;
        let start_line = start.line;
        let mut node = self.type_cast(start)?;
        loop
            invariant
                self.wf(),
                self.tokens@ == old(self).tokens@,
                old(self).pos <= self.pos,
                toks == old(self).tokens@,
                p0 == old(self).pos,
                gstart == start,
                start_line == gstart.line,
                bracketed == (atom_ok(gstart) && p0 < toks.len() && toks[p0].kind
                    == TokenKind::BracketOpen && toks[p0].line == gstart.line),
                atom_exact(gstart, toks, p0) && no_postfix(toks, p0, gstart.line) ==> node
                    == atom_node_of(gstart) && self.pos == old(self).pos,
                bracketed ==> ((node == atom_node_of(gstart) && self.pos == old(self).pos) || (
                node matches Node::Send { name, receiver, .. } && (name@ == seq!['[', ']']
                    || name@ == seq!['[', ']', '=']) && receiver is Some)),
                keyword_entry(toks, p0 - 1) ==> (keyword_entry_node(toks, p0 - 1, node)
                    && self.pos == toks.len()),
            ensures
                self.wf(),
                self.tokens@ == old(self).tokens@,
                old(self).pos <= self.pos,
                atom_exact(gstart, toks, p0) && no_postfix(toks, p0, gstart.line) ==> node
                    == atom_node_of(gstart) && self.pos == old(self).pos,
                gstart == start,
                bracketed ==> (node matches Node::Send { name, receiver, .. } && (name@ == seq![
                    '[',
                    ']',
                ] || name@ == seq!['[', ']', '=']) && receiver is Some),
                keyword_entry(toks, p0 - 1) ==> (keyword_entry_node(toks, p0 - 1, node)
                    && self.pos == toks.len()),
            decreases self.tokens@.len() - self.pos,
        {
            if !self.next_type_is(TokenKind::BracketOpen) {
                proof {
                    if bracketed && self.pos == old(self).pos {
                        assert(toks[p0].kind == TokenKind::BracketOpen);
                        assert(false);
                    }
                }
                break;
            }
            let pl = match self.peek_line() {
                Some(l) => l,
                None => {
                    proof {
                        if bracketed && self.pos == old(self).pos {
                            assert(false);
                        }
                    }
                    break
                },
            };
            if pl != start_line {
                proof {
                    if bracketed && self.pos == old(self).pos && node == atom_node_of(gstart) {
                        assert(pl == toks[p0].line);
                        assert(false);
                    }
                }
                break;
            }
            proof {
                if atom_exact(gstart, toks, p0) && no_postfix(toks, p0, gstart.line) {
                    assert(self.pos == p0);
                    assert(toks[p0].kind == TokenKind::BracketOpen);
                    assert(toks[p0].line == gstart.line);
                    assert(false);
                }
            }
            let bracket = self.next_or_err("an opening bracket")?;
            let (name, args) = self.bracket_get_or_set()?;
            node = Node::Send {
                name,
                receiver: Some(Box::new(node)),
                arguments: args,
                line: bracket.line,
                column: bracket.column,
            };
        }
        Ok(node)
    }

    /// The inside of a bracket send: comma-separated expressions up to `]`
    /// (a trailing comma is tolerated), then an optional `= value` that
    /// turns the call into `[]=` with the value as last argument.
    fn bracket_get_or_set(&mut self) -> (r: Result<(String, Vec<Node>), ParseError>)
        requires
            old(self).wf(),
        ensures
            Parser::stepped(*old(self), *final(self)),
            r matches Ok(nv) ==> ((nv.0@ == seq!['[', ']'] || nv.0@ == seq!['[', ']', '='])
                && (nv.0@ == seq!['[', ']', '='] ==> nv.1@.len() >= 1)),
            (old(self).pos < old(self).tokens@.len() && old(self).tokens@[old(self).pos
                as int].kind == TokenKind::BracketClose && (old(self).pos + 1
                >= old(self).tokens@.len() || old(self).tokens@[old(self).pos + 1].kind
                != TokenKind::Assign)) ==> (r matches Ok(nv) && nv.0@ == seq!['[', ']']
                && nv.1@.len() == 0 && final(self).pos == old(self).pos + 1),
            (old(self).pos + 1 < old(self).tokens@.len() && old(self).tokens@[old(self).pos
                as int].kind == TokenKind::BracketClose && old(self).tokens@[old(self).pos
                + 1].kind == TokenKind::Assign && frag(old(self).tokens@, old(self).pos + 2))
                ==> (r matches Ok(nv) && nv.0@ == seq!['[', ']', '='] && nv.1@.len() == 1
                && sp_bin(old(self).tokens@, old(self).pos + 2, 1) == Some(
                (nv.1@[0], old(self).tokens@.len() as int),
            ) && final(self).pos == old(self).tokens@.len()),
            ({
                let toks = old(self).tokens@;
                let p = old(self).pos as int;
                (match bracket_args_model(toks, p) {
                    Some(m) => (m.1 >= toks.len() || toks[m.1].kind != TokenKind::Assign)
                        ==> (r matches Ok(nv) && nv.0@ == seq!['[', ']'] && nv.1@ == m.0
                        && final(self).pos == m.1),
                    None => true,
                })
            }),
        decreases self.tokens@.len() - self.pos, 58int,
    {
        let ghost toks = old(self).tokens@;
        let ghost p0 = old(self).pos as int;
        let ghost bracket_first = p0 < toks.len() && toks[p0].kind == TokenKind::BracketClose;
        let mut args: Vec<Node> = Vec::new();
        loop
            invariant_except_break
                bracket_first ==> (args@.len() == 0 && self.pos == p0),
                (match bracket_args_model(toks, p0) {
                    Some(m) => (match bracket_args_model(toks, self.pos as int) {
                        Some(re) => m.0 == args@ + re.0 && m.1 == re.1,
                        None => false,
                    }),
                    None => true,
                }),
            invariant
                self.wf(),
                self.tokens@ == old(self).tokens@,
                old(self).pos <= self.pos,
                toks == old(self).tokens@,
                p0 == old(self).pos,
                bracket_first == (p0 < toks.len() && toks[p0].kind == TokenKind::BracketClose),
            ensures
                self.wf(),
                self.tokens@ == old(self).tokens@,
                old(self).pos <= self.pos,
                toks == old(self).tokens@,
                p0 == old(self).pos,
                bracket_first == (p0 < toks.len() && toks[p0].kind == TokenKind::BracketClose),
                bracket_first ==> (args@.len() == 0 && self.pos == p0 + 1),
                (bracket_args_model(toks, p0) matches Some(m)) ==> (bracket_args_model(toks, p0)
                    == Some((args@, self.pos as int))),
            decreases self.tokens@.len() - self.pos,
        {
            let ghost jpos = self.pos as int;
            let ghost apre = args@;
            let start = match self.next() {
                Some(t) => t,
                None => { break },
            };
            if start.kind == TokenKind::BracketClose {
                proof {
                    if bracket_args_model(toks, p0) matches Some(m) {
                        assert(bracket_args_model(toks, jpos) == Some(
                            (Seq::<Node>::empty(), jpos + 1),
                        ));
                        assert(apre + Seq::<Node>::empty() =~= apre);
                    }
                }
                break;
            }
            let e = self.expression(start)?;
            args.push(e);
            proof {
                if bracket_args_model(toks, p0) matches Some(m) {
                    if bracket_args_model(toks, jpos) matches Some(mj) {
                        assert(atom_ok(toks[jpos]) && jpos + 1 < toks.len());
                        assert(atom_alone(start, toks, jpos + 1));
                        assert(args@ =~= apre + seq![atom_node_of(toks[jpos])]);
                        if toks[jpos + 1].kind == TokenKind::Comma {
                            if bracket_args_model(toks, jpos + 2) is Some {
                                let re2 = bracket_args_model(toks, jpos + 2)->Some_0;
                                assert(apre + (seq![atom_node_of(toks[jpos])] + re2.0)
                                    =~= args@ + re2.0);
                            }
                        } else {
                            assert(toks[jpos + 1].kind == TokenKind::BracketClose);
                            assert(bracket_args_model(toks, jpos + 1) == Some(
                                (Seq::<Node>::empty(), jpos + 2),
                            ));
                            assert(args@ + Seq::<Node>::empty() =~= args@);
                        }
                    }
                }
            }
            if self.next_type_is(TokenKind::Comma) {
                let _ = self.next();
            } else {
                match self.peek_kind() {
                    Some(k) => {
                        if k != TokenKind::BracketClose {
                            return Err(
                                ParseError {
                                    expected: String::from_str("a comma or closing bracket"),
                                    found: Some(k),
                                    line: self.cur_line,
                                    column: self.cur_column,
                                },
                            );
                        }
                    },
                    None => {
                        return Err(
                            ParseError {
                                expected: String::from_str("a closing bracket"),
                                found: None,
                                line: self.cur_line,
                                column: self.cur_column,
                            },
                        );
                    },
                }
            }
        }
        if self.next_type_is(TokenKind::Assign) {
            let _ = self.next();
            let start = self.next_or_err("an expression")?;
            let ghost epos = self.pos as int;
            let e = self.expression(start)?;
            proof {
                if bracket_first && epos == p0 + 3 && frag(toks, p0 + 2) {
                    lemma_sp_bin_on_frag(toks, p0 + 2, 1);
                    let nj = sp_bin(toks, p0 + 2, 1)->Some_0;
                    if nj.1 < toks.len() {
                        assert(frag_tail(toks, nj.1));
                        assert(prec_of(toks[nj.1].kind) < 1 && prec_of(toks[nj.1].kind) >= 1);
                    }
                }
            }
            args.push(e);
            let name = String::from_str("[]=");
            proof {
                reveal_strlit("[]=");
                reveal_strlit("[]");
                assert(name@ =~= seq!['[', ']', '=']);
                assert(!(name@ =~= seq!['[', ']']));
            }
            Ok((name, args))
        } else {
            let name = String::from_str("[]");
            proof {
                reveal_strlit("[]");
                assert(name@ =~= seq!['[', ']']);
            }
            Ok((name, args))
        }
    }

    /// An optional trailing `as T` cast.
    fn type_cast(&mut self, start: Token) -> (r: ParseResult)
        requires
            old(self).wf(),
            1 <= old(self).pos,
            start == old(self).tokens@[old(self).pos - 1],
        ensures
            Parser::stepped(*old(self), *final(self)),
            atom_exact(start, old(self).tokens@, old(self).pos as int) && no_dot_as(
                old(self).tokens@,
                old(self).pos as int,
            ) ==> r == Ok::<Node, ParseError>(atom_node_of(start)) && final(self).pos == old(
                self,
            ).pos,
            keyword_entry(old(self).tokens@, old(self).pos - 1) ==> (r matches Ok(n)
                && keyword_entry_node(old(self).tokens@, old(self).pos - 1, n) && final(self).pos
                == old(self).tokens@.len()),
        decreases self.tokens@.len() - self.pos + 1, 24int,
    {
        let mut node = self.send_chain(start)?;
        if self.next_type_is(TokenKind::As) {
            let op = self.next_or_err("as")?;
            let token = self.next_or_err("a type name")?;
            let tname = self.type_node(token)?;
            node = Node::TypeCast {
                value: Box::new(node),
                target_type: Box::new(tname),
                line: op.line,
                column: op.column,
            };
        }
        Ok(node)
    }

    /// A chain of dotted messages sent to a receiver.
    fn send_chain(&mut self, start: Token) -> (r: ParseResult)
        requires
            old(self).wf(),
            1 <= old(self).pos,
            start == old(self).tokens@[old(self).pos - 1],
        ensures
            Parser::stepped(*old(self), *final(self)),
            atom_exact(start, old(self).tokens@, old(self).pos as int) && no_dot(
                old(self).tokens@,
                old(self).pos as int,
            ) ==> r == Ok::<Node, ParseError>(atom_node_of(start)) && final(self).pos == old(
                self,
            ).pos,
            keyword_entry(old(self).tokens@, old(self).pos - 1) ==> (r matches Ok(n)
                && keyword_entry_node(old(self).tokens@, old(self).pos - 1, n) && final(self).pos
                == old(self).tokens@.len()),
        decreases self.tokens@.len() - self.pos + 1, 22int,
    {
        let mut node = self.value(start)?;
        loop
            invariant
                self.wf(),
                self.tokens@ == old(self).tokens@,
                old(self).pos <= self.pos,
                atom_exact(start, old(self).tokens@, old(self).pos as int) && no_dot(
                    old(self).tokens@,
                    old(self).pos as int,
                ) ==> node == atom_node_of(start) && self.pos == old(self).pos,
                keyword_entry(old(self).tokens@, old(self).pos - 1) ==> (keyword_entry_node(
                    old(self).tokens@,
                    old(self).pos - 1,
                    node,
                ) && self.pos == old(self).tokens@.len()),
            decreases self.tokens@.len() - self.pos,
        {
            if !self.next_type_is(TokenKind::Dot) {
                break;
            }
            let _ = self.next();
            let (name, line, column) = self.send_name()?;
            let args = self.send_chain_arguments(line)?;
            node = Node::Send { name, receiver: Some(Box::new(node)), arguments: args, line, column };
        }
        Ok(node)
    }

    /// The name and position for a message in a send chain.
    fn send_name(&mut self) -> (r: Result<(String, usize, usize), ParseError>)
        requires
            old(self).wf(),
        ensures
            Parser::stepped(*old(self), *final(self)),
        decreases self.tokens@.len() - self.pos, 4int,
    {
        let token = self.next_or_err("a method name")?;
        let line = token.line;
        let column = token.column;
        let name = self.message_name_for_token(token)?;
        Ok((name, line, column))
    }

    /// The arguments of a message in a send chain: parenthesised, paren-less
    /// on the same line as the message name, or none.
    fn send_chain_arguments(&mut self, line: usize) -> (r: Result<Vec<Node>, ParseError>)
        requires
            old(self).wf(),
        ensures
            Parser::stepped(*old(self), *final(self)),
        decreases self.tokens@.len() - self.pos, 60int,
    {
        if self.next_type_is(TokenKind::ParenOpen) {
            self.arguments_with_parenthesis()
        } else {
            if self.next_expression_is_argument(line) {
                self.arguments_without_parenthesis()
            } else {
                Ok(Vec::new())
            }
        }
    }

    /// A parenthesised argument list.
    fn arguments_with_parenthesis(&mut self) -> (r: Result<Vec<Node>, ParseError>)
        requires
            old(self).wf(),
            old(self).pos < old(self).tokens@.len(),
            old(self).tokens@[old(self).pos as int].kind == TokenKind::ParenOpen,
        ensures
            Parser::stepped(*old(self), *final(self)),
        decreases self.tokens@.len() - self.pos, 56int,
    {
        let mut args: Vec<Node> = Vec::new();
        let _ = self.next();
        loop
            invariant
                self.wf(),
                self.tokens@ == old(self).tokens@,
                old(self).pos < self.pos,
            decreases self.tokens@.len() - self.pos,
        {
            let token = match self.next() {
                Some(t) => t,
                None => { break },
            };
            if token.kind == TokenKind::ParenClose {
                break;
            }
            let a = self.send_argument(token)?;
            args.push(a);
            if self.next_type_is(TokenKind::Comma) {
                let _ = self.next();
            } else {
                match self.peek_kind() {
                    Some(k) => {
                        if k != TokenKind::ParenClose {
                            return Err(
                                ParseError {
                                    expected: String::from_str("a comma"),
                                    found: Some(k),
                                    line: self.cur_line,
                                    column: self.cur_column,
                                },
                            );
                        }
                    },
                    None => {},
                }
            }
        }
        Ok(args)
    }

    /// A paren-less argument list: arguments continue while commas follow.
    fn arguments_without_parenthesis(&mut self) -> (r: Result<Vec<Node>, ParseError>)
        requires
            old(self).wf(),
        ensures
            Parser::stepped(*old(self), *final(self)),
        decreases self.tokens@.len() - self.pos, 58int,
    {
        let mut args: Vec<Node> = Vec::new();
        loop
            invariant
                self.wf(),
                self.tokens@ == old(self).tokens@,
                old(self).pos <= self.pos,
            decreases self.tokens@.len() - self.pos,
        {
            let token = match self.next() {
                Some(t) => t,
                None => { break },
            };
            let a = self.send_argument(token)?;
            args.push(a);
            if self.next_type_is(TokenKind::Comma) {
                let _ = self.next();
            } else {
                break;
            }
        }
        Ok(args)
    }

    /// One argument: a keyword argument when an identifier is immediately
    /// followed by a colon, else a positional expression.
    fn send_argument(&mut self, start: Token) -> (r: ParseResult)
        requires
            old(self).wf(),
            1 <= old(self).pos,
            start == old(self).tokens@[old(self).pos - 1],
        ensures
            Parser::stepped(*old(self), *final(self)),
            (old(self).pos < old(self).tokens@.len() && old(self).tokens@[old(self).pos
                as int].kind == TokenKind::Colon) ==> (r matches Ok(n) ==> n matches
                Node::KeywordArgument { name, line, column, .. } && name == start.text && line
                == start.line && column == start.column),
            ({
                let toks = old(self).tokens@;
                let p = old(self).pos as int;
                (p + 1 < toks.len() && toks[p].kind == TokenKind::Colon && atom_ok(toks[p + 1])
                    && atom_alone(toks[p + 1], toks, p + 2)) ==> (r matches Ok(n) && (n matches
                    Node::KeywordArgument { name, value, line, column } && name == start.text
                    && *value == atom_node_of(toks[p + 1]) && line == start.line && column
                    == start.column) && final(self).pos == p + 2)
            }),
            (old(self).pos >= old(self).tokens@.len() || old(self).tokens@[old(self).pos
                as int].kind != TokenKind::Colon) && atom_alone(
                start,
                old(self).tokens@,
                old(self).pos as int,
            ) ==> r == Ok::<Node, ParseError>(atom_node_of(start)) && final(self).pos == old(
                self,
            ).pos,
        decreases self.tokens@.len() - self.pos + 1, 56int,
    {
        if self.next_type_is(TokenKind::Colon) {
            let _ = self.next();
            let token = self.next_or_err("an expression")?;
            let value = self.expression(token)?;
            let name = start.text;
            Ok(
                Node::KeywordArgument {
                    name,
                    value: Box::new(value),
                    line: start.line,
                    column: start.column,
                },
            )
        } else {
            self.expression(start)
        }
    }
}

} // verus!

verus! {

impl Parser {
    /// An atomic value, dispatched on the start token's kind.
    fn value(&mut self, start: Token) -> (r: ParseResult)
        requires
            old(self).wf(),
            1 <= old(self).pos,
            start == old(self).tokens@[old(self).pos - 1],
        ensures
            Parser::stepped(*old(self), *final(self)),
            atom_exact(start, old(self).tokens@, old(self).pos as int) ==> r == Ok::<
                Node,
                ParseError,
            >(atom_node_of(start)) && final(self).pos == old(self).pos,
            keyword_entry(old(self).tokens@, old(self).pos - 1) ==> (r matches Ok(n)
                && keyword_entry_node(old(self).tokens@, old(self).pos - 1, n) && final(self).pos
                == old(self).tokens@.len()),
        decreases self.tokens@.len() - self.pos + 1, 20int,
    {
        match start.kind {
            TokenKind::Str => self.string(start),
            TokenKind::Integer => self.integer(start),
            TokenKind::Float => self.float(start),
            TokenKind::Identifier => self.identifier(start),
            TokenKind::Constant => self.constant(start),
            TokenKind::CurlyOpen => self.closure_without_arguments(start),
            TokenKind::Sub => self.negative_number(start),
            TokenKind::BracketOpen => self.array(start),
            TokenKind::HashOpen => self.hash(start),
            TokenKind::Function => self.method_or_closure(start),
            TokenKind::Let => self.let_define(start),
            TokenKind::Var => self.var_define(start),
            TokenKind::Class => self.class(start),
            TokenKind::Trait => self.def_trait(start),
            TokenKind::Return => self.return_value(start),
            TokenKind::Comment => self.comment(start),
            TokenKind::Type => self.def_type(start),
            TokenKind::Attribute => self.attribute(start),
            TokenKind::SelfObject => self.self_object(start),
            TokenKind::Throw => self.throw(start),
            TokenKind::Try => self.try_expression(start),
            _ => Err(
                ParseError {
                    expected: String::from_str("the start of an expression"),
                    found: Some(start.kind),
                    line: start.line,
                    column: start.column,
                },
            ),
        }
    }

    /// An identifier: a reassignment when `=` follows, a receiver-less send
    /// when an argument list follows, else a bare identifier. A same-line
    /// `[` is not an argument start: it is left for the bracket send, so
    /// that indexing a variable yields the `[]` send.
    fn identifier(&mut self, start: Token) -> (r: ParseResult)
        requires
            old(self).wf(),
            1 <= old(self).pos,
            start == old(self).tokens@[old(self).pos - 1],
        ensures
            Parser::stepped(*old(self), *final(self)),
            ({
                let toks = old(self).tokens@;
                let p = old(self).pos as int;
                let send_shape = |n: Node|
                    n matches Node::Send { name, receiver, line, column, .. } && name
                        == start.text && receiver is None && line == start.line && column
                        == start.column;
                &&& (p < toks.len() && toks[p].kind == TokenKind::Assign) ==> (r matches Ok(n)
                    ==> n matches Node::Reassign { variable, line, column, .. } && *variable == (
                Node::Identifier { name: start.text, line: start.line, column: start.column })
                    && line == start.line && column == start.column)
                &&& (p < toks.len() && toks[p].kind == TokenKind::ParenOpen) ==> (r matches Ok(
                    n,
                ) ==> send_shape(n))
                &&& (p < toks.len() && toks[p].kind != TokenKind::Assign && toks[p].kind
                    != TokenKind::ParenOpen && toks[p].kind != TokenKind::BracketOpen
                    && value_start_spec(toks[p].kind) && toks[p].line == start.line) ==> (r
                    matches Ok(n) ==> send_shape(n))
                &&& !(p < toks.len() && (toks[p].kind == TokenKind::Assign || toks[p].kind
                    == TokenKind::ParenOpen || (toks[p].kind != TokenKind::BracketOpen
                    && value_start_spec(toks[p].kind) && toks[p].line == start.line))) ==> r
                    == Ok::<Node, ParseError>(
                    Node::Identifier { name: start.text, line: start.line, column: start.column },
                ) && final(self).pos == old(self).pos
            }),
        decreases self.tokens@.len() - self.pos + 1, 18int,
    {
        if self.next_type_is(TokenKind::Assign) {
            self.reassign_local(start)
        } else if self.next_type_is(TokenKind::ParenOpen) {
            let args = self.arguments_with_parenthesis()?;
            let line = start.line;
            let column = start.column;
            Ok(Node::Send { name: start.text, receiver: None, arguments: args, line, column })
        } else if !self.next_type_is(TokenKind::BracketOpen) && self.next_expression_is_argument(
            start.line,
        ) {
            let args = self.arguments_without_parenthesis()?;
            let line = start.line;
            let column = start.column;
            Ok(Node::Send { name: start.text, receiver: None, arguments: args, line, column })
        } else {
            Ok(self.identifier_from_token(start))
        }
    }

    /// An attribute: a reassignment when `=` follows, else the attribute.
    fn attribute(&mut self, start: Token) -> (r: ParseResult)
        requires
            old(self).wf(),
            1 <= old(self).pos,
            start == old(self).tokens@[old(self).pos - 1],
        ensures
            Parser::stepped(*old(self), *final(self)),
            ({
                let toks = old(self).tokens@;
                let p = old(self).pos as int;
                &&& (p < toks.len() && toks[p].kind == TokenKind::Assign) ==> (r matches Ok(n)
                    ==> n matches Node::Reassign { variable, line, column, .. } && *variable == (
                Node::Attribute { name: start.text, line: start.line, column: start.column })
                    && line == start.line && column == start.column)
                &&& !(p < toks.len() && toks[p].kind == TokenKind::Assign) ==> r == Ok::<
                    Node,
                    ParseError,
                >(Node::Attribute { name: start.text, line: start.line, column: start.column })
                    && final(self).pos == old(self).pos
            }),
        decreases self.tokens@.len() - self.pos + 1, 18int,
    {
        if self.next_type_is(TokenKind::Assign) {
            self.reassign_attribute(start)
        } else {
            Ok(self.attribute_from_token(start))
        }
    }

    /// Reassignment of a local variable.
    fn reassign_local(&mut self, start: Token) -> (r: ParseResult)
        requires
            old(self).wf(),
            1 <= old(self).pos,
            start == old(self).tokens@[old(self).pos - 1],
        ensures
            Parser::stepped(*old(self), *final(self)),
            r matches Ok(n) ==> (n matches Node::Reassign { variable, line, column, .. }
                && *variable == (Node::Identifier {
                name: start.text,
                line: start.line,
                column: start.column,
            }) && line == start.line && column == start.column),
        decreases self.tokens@.len() - self.pos + 1, 16int,
    {
        let _ = self.next();
        let line = start.line;
        let column = start.column;
        let local = self.identifier_from_token(start);
        let token = self.next_or_err("an expression")?;
        let value = self.expression(token)?;
        Ok(Node::Reassign { variable: Box::new(local), value: Box::new(value), line, column })
    }

    /// Reassignment of an attribute.
    fn reassign_attribute(&mut self, start: Token) -> (r: ParseResult)
        requires
            old(self).wf(),
            1 <= old(self).pos,
            start == old(self).tokens@[old(self).pos - 1],
        ensures
            Parser::stepped(*old(self), *final(self)),
            r matches Ok(n) ==> (n matches Node::Reassign { variable, line, column, .. }
                && *variable == (Node::Attribute {
                name: start.text,
                line: start.line,
                column: start.column,
            }) && line == start.line && column == start.column),
        decreases self.tokens@.len() - self.pos + 1, 16int,
    {
        let _ = self.next();
        let line = start.line;
        let column = start.column;
        let attr = self.attribute_from_token(start);
        let token = self.next_or_err("an expression")?;
        let value = self.expression(token)?;
        Ok(Node::Reassign { variable: Box::new(attr), value: Box::new(value), line, column })
    }

    /// A constant, with `::` chains building a right-spined path.
    fn constant(&mut self, start: Token) -> (r: ParseResult)
        requires
            old(self).wf(),
            1 <= old(self).pos,
            start == old(self).tokens@[old(self).pos - 1],
        ensures
            Parser::stepped(*old(self), *final(self)),
            r matches Ok(n) ==> n matches Node::Constant { .. },
            (old(self).pos >= old(self).tokens@.len() || old(self).tokens@[old(self).pos
                as int].kind != TokenKind::ColonColon) ==> r == Ok::<Node, ParseError>(
                Node::Constant {
                    receiver: None,
                    name: start.text,
                    line: start.line,
                    column: start.column,
                },
            ) && final(self).pos == old(self).pos,
        decreases self.tokens@.len() - self.pos + 1, 6int,
    {
        let mut node = self.constant_from_token(start, None);
        loop
            invariant
                self.wf(),
                self.tokens@ == old(self).tokens@,
                old(self).pos <= self.pos,
                node matches Node::Constant { .. },
                (old(self).pos >= old(self).tokens@.len() || old(self).tokens@[old(self).pos
                    as int].kind != TokenKind::ColonColon) ==> node == (Node::Constant {
                    receiver: None,
                    name: start.text,
                    line: start.line,
                    column: start.column,
                }) && self.pos == old(self).pos,
            decreases self.tokens@.len() - self.pos,
        {
            if !self.next_type_is(TokenKind::ColonColon) {
                break;
            }
            let _ = self.next();
            let c = self.expect_kind(TokenKind::Constant, "a constant")?;
            node = self.constant_from_token(c, Some(Box::new(node)));
        }
        Ok(node)
    }

    /// A type name: a constant path with optional `!(…)` type arguments and
    /// an optional `-> T` return clause.
    fn type_node(&mut self, start: Token) -> (r: ParseResult)
        requires
            old(self).wf(),
            1 <= old(self).pos,
            start == old(self).tokens@[old(self).pos - 1],
        ensures
            Parser::stepped(*old(self), *final(self)),
            r matches Ok(n) ==> (n matches Node::Type { constant, line, column, .. } && ((
            *constant) matches Node::Constant { .. }) && line == start.line && column
                == start.column),
            bare_at(old(self).tokens@, old(self).pos as int) ==> (r matches Ok(n) && (n matches
                Node::Type { constant, arguments, return_type, line, column } && *constant == (
            Node::Constant {
                receiver: None,
                name: start.text,
                line: start.line,
                column: start.column,
            }) && arguments@.len() == 0 && return_type is None && line == start.line && column
                == start.column) && final(self).pos == old(self).pos),
        decreases self.tokens@.len() - self.pos + 1, 8int,
    {
        let line = start.line;
        let column = start.column;
        let node = self.constant(start)?;
        let args = self.optional_type_arguments()?;
        let rtype = self.optional_return_type()?;
        Ok(Node::Type { constant: Box::new(node), arguments: args, return_type: rtype, line, column })
    }

    /// A type name, or a `|`-joined union of type names.
    fn type_node_or_union_type(&mut self, start: Token) -> (r: ParseResult)
        requires
            old(self).wf(),
            1 <= old(self).pos,
            start == old(self).tokens@[old(self).pos - 1],
        ensures
            Parser::stepped(*old(self), *final(self)),
            r matches Ok(n) ==> (n matches Node::Type { .. } || (n matches Node::UnionType {
                types,
                line,
                column,
            } && types@.len() >= 2 && (forall|j: int|
                0 <= j < types@.len() ==> (#[trigger] types@[j]) matches Node::Type { .. })
                && line == start.line && column == start.column)),
            ({
                let toks = old(self).tokens@;
                let p = old(self).pos as int;
                (start.kind == TokenKind::Constant && bare_at(toks, p) && p < toks.len()
                    && toks[p].kind == TokenKind::BitwiseOr) ==> (match union_tail_model(
                    toks,
                    p,
                ) {
                    Some(m) => (r matches Ok(n) && (n matches Node::UnionType {
                        types,
                        line,
                        column,
                    } && types@.len() == 1 + m.0.len() && (types@[0] matches Node::Type {
                        constant,
                        arguments,
                        return_type,
                        ..
                    } && *constant == (Node::Constant {
                        receiver: None,
                        name: start.text,
                        line: start.line,
                        column: start.column,
                    }) && arguments@.len() == 0 && return_type is None) && (forall|j: int|
                        1 <= j < types@.len() ==> ((#[trigger] types@[j]) matches Node::Type {
                            constant,
                            arguments,
                            return_type,
                            ..
                        } && *constant == m.0[j - 1] && arguments@.len() == 0 && return_type
                            is None)) && line == start.line && column == start.column)
                        && final(self).pos == m.1),
                    None => true,
                })
            }),
        decreases self.tokens@.len() - self.pos + 1, 10int,
    {
        let ghost toks = old(self).tokens@;
        let ghost p0 = old(self).pos as int;
        let ghost gstart = start;
        let ghost bare_union = gstart.kind == TokenKind::Constant && bare_at(toks, p0) && p0
            < toks.len() && toks[p0].kind == TokenKind::BitwiseOr && union_tail_model(
            toks,
            p0,
        ) is Some;
        let line = start.line;
        let column = start.column;
        let node = self.type_node(start)?;
        if self.next_type_is(TokenKind::BitwiseOr) {
            let mut types: Vec<Node> = Vec::new();
            types.push(node);
            let ghost mut gtail: Seq<Node> = Seq::empty();
            proof {
                if bare_union {
                    let m0 = union_tail_model(toks, p0)->Some_0;
                    assert(Seq::<Node>::empty() + m0.0 =~= m0.0);
                }
            }
            loop
                invariant
                    self.wf(),
                    self.tokens@ == old(self).tokens@,
                    old(self).pos <= self.pos,
                    toks == old(self).tokens@,
                    p0 == old(self).pos,
                    gstart == start,
                    bare_union == (gstart.kind == TokenKind::Constant && bare_at(toks, p0) && p0
                        < toks.len() && toks[p0].kind == TokenKind::BitwiseOr
                        && union_tail_model(toks, p0) is Some),
                    forall|j: int|
                        0 <= j < types@.len() ==> (#[trigger] types@[j]) matches Node::Type {
                            ..
                        },
                    types@.len() >= 2 || (types@.len() == 1 && self.pos < self.tokens@.len()
                        && self.tokens@[self.pos as int].kind == TokenKind::BitwiseOr),
                    bare_union ==> {
                        &&& types@.len() == 1 + gtail.len()
                        &&& (types@[0] matches Node::Type {
                            constant,
                            arguments,
                            return_type,
                            ..
                        } && *constant == (Node::Constant {
                            receiver: None,
                            name: gstart.text,
                            line: gstart.line,
                            column: gstart.column,
                        }) && arguments@.len() == 0 && return_type is None)
                        &&& (forall|j: int|
                            1 <= j < types@.len() ==> ((#[trigger] types@[j]) matches
                                Node::Type { constant, arguments, return_type, .. } && *constant
                                == gtail[j - 1] && arguments@.len() == 0 && return_type
                                is None))
                        &&& (match union_tail_model(toks, self.pos as int) {
                            Some(re) => union_tail_model(toks, p0) == Some(
                                (gtail + re.0, re.1),
                            ),
                            None => union_tail_model(toks, p0) is None,
                        })
                    },
                ensures
                    self.wf(),
                    self.tokens@ == old(self).tokens@,
                    old(self).pos <= self.pos,
                    types@.len() >= 2,
                    forall|j: int|
                        0 <= j < types@.len() ==> (#[trigger] types@[j]) matches Node::Type {
                            ..
                        },
                    bare_union ==> {
                        &&& union_tail_model(toks, p0) == Some((gtail, self.pos as int))
                        &&& types@.len() == 1 + gtail.len()
                        &&& (types@[0] matches Node::Type {
                            constant,
                            arguments,
                            return_type,
                            ..
                        } && *constant == (Node::Constant {
                            receiver: None,
                            name: gstart.text,
                            line: gstart.line,
                            column: gstart.column,
                        }) && arguments@.len() == 0 && return_type is None)
                        &&& (forall|j: int|
                            1 <= j < types@.len() ==> ((#[trigger] types@[j]) matches
                                Node::Type { constant, arguments, return_type, .. } && *constant
                                == gtail[j - 1] && arguments@.len() == 0 && return_type
                                is None))
                    },
                decreases self.tokens@.len() - self.pos,
            {
                if !self.next_type_is(TokenKind::BitwiseOr) {
                    proof {
                        if bare_union {
                            assert(union_tail_model(toks, self.pos as int) == Some((
                                Seq::<Node>::empty(),
                                self.pos as int,
                            )));
                            assert(gtail + Seq::<Node>::empty() =~= gtail);
                        }
                    }
                    break;
                }
                let ghost jpos = self.pos as int;
                let ghost gpre = gtail;
                let _ = self.next();
                let t = self.next_or_err("a type name")?;
                let tn = self.type_node(t)?;
                types.push(tn);
                proof {
                    if bare_union {
                        gtail = gtail.push(const_node_of(toks[jpos + 1]));
                        assert(gpre.push(const_node_of(toks[jpos + 1])) =~= gpre + seq![
                            const_node_of(toks[jpos + 1]),
                        ]);
                        match union_tail_model(toks, jpos + 2) {
                            Some(re2) => {
                                assert(union_tail_model(toks, jpos) == Some(
                                    (seq![const_node_of(toks[jpos + 1])] + re2.0, re2.1),
                                ));
                                assert(gpre + (seq![const_node_of(toks[jpos + 1])] + re2.0)
                                    =~= gtail + re2.0);
                            },
                            None => {
                                assert(union_tail_model(toks, jpos) is None);
                            },
                        }
                    }
                }
            }
            Ok(Node::UnionType { types, line, column })
        } else {
            Ok(node)
        }
    }

    /// A closure with an argument list: `fn(arg: T) -> T { body }`.
    fn closure(&mut self, start: Token) -> (r: ParseResult)
        requires
            old(self).wf(),
            1 <= old(self).pos,
            start == old(self).tokens@[old(self).pos - 1],
        ensures
            Parser::stepped(*old(self), *final(self)),
            r matches Ok(n) ==> (n matches Node::Closure { body, line, column, .. } && (*body)
                matches Node::Expressions { .. } && line == start.line && column == start.column),
        decreases self.tokens@.len() - self.pos + 1, 16int,
    {
        let args = self.optional_arguments()?;
        let ret_type = self.optional_return_type()?;
        self.expect_kind(TokenKind::CurlyOpen, "an opening curly brace")?;
        let body = self.block()?;
        Ok(
            Node::Closure {
                arguments: args,
                return_type: ret_type,
                body: Box::new(body),
                line: start.line,
                column: start.column,
            },
        )
    }

    /// A braced closure without arguments: `{ body }`.
    fn closure_without_arguments(&mut self, start: Token) -> (r: ParseResult)
        requires
            old(self).wf(),
            1 <= old(self).pos,
            start == old(self).tokens@[old(self).pos - 1],
        ensures
            Parser::stepped(*old(self), *final(self)),
            r matches Ok(n) ==> (n matches Node::Closure {
                arguments,
                return_type,
                body,
                line,
                column,
            } && arguments@.len() == 0 && return_type is None && ((*body) matches
                Node::Expressions { .. }) && line == start.line && column == start.column),
        decreases self.tokens@.len() - self.pos + 1, 18int,
    {
        let body = self.block()?;
        Ok(
            Node::Closure {
                arguments: Vec::new(),
                return_type: None,
                body: Box::new(body),
                line: start.line,
                column: start.column,
            },
        )
    }

    /// A list of argument definitions, ended by `)`: optional `*` rest
    /// marker, name, optional type, optional default.
    fn def_arguments(&mut self) -> (r: Result<Vec<Node>, ParseError>)
        requires
            old(self).wf(),
        ensures
            Parser::stepped(*old(self), *final(self)),
            r matches Ok(v) ==> forall|j: int|
                0 <= j < v@.len() ==> (#[trigger] v@[j]) matches Node::ArgumentDefine { .. },
            ({
                let toks = old(self).tokens@;
                let p = old(self).pos as int;
                &&& p >= toks.len() ==> (r matches Ok(v) && v@.len() == 0 && final(self).pos
                    == p)
                &&& (p < toks.len() && toks[p].kind == TokenKind::ParenClose) ==> (r matches Ok(
                    v,
                ) && v@.len() == 0 && final(self).pos == p + 1)
                &&& (p + 1 < toks.len() && toks[p].kind == TokenKind::Identifier && toks[p
                    + 1].kind == TokenKind::ParenClose) ==> (r matches Ok(v) && v@.len() == 1
                    && (v@[0] matches Node::ArgumentDefine {
                    name,
                    value_type,
                    default,
                    rest,
                    line,
                    column,
                } && name == toks[p].text && value_type is None && default is None && rest
                    == false && line == toks[p].line && column == toks[p].column)
                    && final(self).pos == p + 2)
                &&& (p + 2 < toks.len() && toks[p].kind == TokenKind::Mul && toks[p + 1].kind
                    == TokenKind::Identifier && toks[p + 2].kind == TokenKind::ParenClose) ==> (
                r matches Ok(v) && v@.len() == 1 && (v@[0] matches Node::ArgumentDefine {
                    name,
                    value_type,
                    default,
                    rest,
                    ..
                } && name == toks[p + 1].text && value_type is None && default is None && rest
                    == true) && final(self).pos == p + 3)
            }),
        decreases self.tokens@.len() - self.pos, 14int,
    {
        let ghost toks = old(self).tokens@;
        let ghost p0 = old(self).pos as int;
        let ghost w_end = p0 >= toks.len();
        let ghost w_close = p0 < toks.len() && toks[p0].kind == TokenKind::ParenClose;
        let ghost w_one = p0 + 1 < toks.len() && toks[p0].kind == TokenKind::Identifier && toks[
            p0 + 1
        ].kind == TokenKind::ParenClose;
        let ghost w_rest = p0 + 2 < toks.len() && toks[p0].kind == TokenKind::Mul && toks[p0
            + 1].kind == TokenKind::Identifier && toks[p0 + 2].kind == TokenKind::ParenClose;
        let mut args: Vec<Node> = Vec::new();
        loop
            invariant_except_break
                (w_end || w_close || w_one || w_rest) ==> (args@.len() == 0 && self.pos == p0),
            invariant
                self.wf(),
                self.tokens@ == old(self).tokens@,
                old(self).pos <= self.pos,
                toks == old(self).tokens@,
                p0 == old(self).pos,
                w_end == (p0 >= toks.len()),
                w_close == (p0 < toks.len() && toks[p0].kind == TokenKind::ParenClose),
                w_one == (p0 + 1 < toks.len() && toks[p0].kind == TokenKind::Identifier && toks[
                    p0 + 1
                ].kind == TokenKind::ParenClose),
                w_rest == (p0 + 2 < toks.len() && toks[p0].kind == TokenKind::Mul && toks[p0
                    + 1].kind == TokenKind::Identifier && toks[p0 + 2].kind
                    == TokenKind::ParenClose),
                forall|j: int|
                    0 <= j < args@.len() ==> (#[trigger] args@[j]) matches Node::ArgumentDefine {
                        ..
                    },
            ensures
                self.wf(),
                self.tokens@ == old(self).tokens@,
                old(self).pos <= self.pos,
                w_end ==> (args@.len() == 0 && self.pos == p0),
                w_close ==> (args@.len() == 0 && self.pos == p0 + 1),
                w_one ==> (args@.len() == 1 && (args@[0] matches Node::ArgumentDefine {
                    name,
                    value_type,
                    default,
                    rest,
                    line,
                    column,
                } && name == toks[p0].text && value_type is None && default is None && rest
                    == false && line == toks[p0].line && column == toks[p0].column) && self.pos
                    == p0 + 2),
                w_rest ==> (args@.len() == 1 && (args@[0] matches Node::ArgumentDefine {
                    name,
                    value_type,
                    default,
                    rest,
                    ..
                } && name == toks[p0 + 1].text && value_type is None && default is None && rest
                    == true) && self.pos == p0 + 3),
                forall|j: int|
                    0 <= j < args@.len() ==> (#[trigger] args@[j]) matches Node::ArgumentDefine {
                        ..
                    },
            decreases self.tokens@.len() - self.pos,
        {
            if self.pos >= self.tokens.len() {
                break;
            }
            if self.next_type_is(TokenKind::ParenClose) {
                let _ = self.next();
                break;
            }
            let rest = if self.next_type_is(TokenKind::Mul) {
                let _ = self.next();
                true
            } else {
                false
            };
            let token = match self.next() {
                Some(t) => t,
                None => { break },
            };
            let name = token.text;
            let line = token.line;
            let column = token.column;
            let arg_type = self.def_argument_type()?;
            let default = if self.next_type_is(TokenKind::Assign) {
                let _ = self.next();
                let s = self.next_or_err("an expression")?;
                Some(Box::new(self.expression(s)?))
            } else {
                None
            };
            args.push(Node::ArgumentDefine { name, value_type: arg_type, default, line, column, rest });
            let t = self.next_or_err("a comma or closing parenthesis")?;
            match t.kind {
                TokenKind::Comma => {},
                TokenKind::ParenClose => { break },
                _ => {
                    return Err(
                        ParseError {
                            expected: String::from_str("a comma or closing parenthesis"),
                            found: Some(t.kind),
                            line: t.line,
                            column: t.column,
                        },
                    );
                },
            }
        }
        Ok(args)
    }

    /// The optional `: Type | Type | …` of an argument definition.
    fn def_argument_type(&mut self) -> (r: Result<Option<Box<Node>>, ParseError>)
        requires
            old(self).wf(),
        ensures
            Parser::stepped(*old(self), *final(self)),
            (old(self).pos >= old(self).tokens@.len() || old(self).tokens@[old(self).pos
                as int].kind != TokenKind::Colon) ==> r == Ok::<Option<Box<Node>>, ParseError>(
                None,
            ) && final(self).pos == old(self).pos,
            r matches Ok(v) ==> (v matches Some(t) ==> ((*t) matches Node::Type { .. } || (*t)
                matches Node::UnionType { .. })),
        decreases self.tokens@.len() - self.pos, 14int,
    {
        if self.next_type_is(TokenKind::Colon) {
            let _ = self.next();
            let s = self.next_or_err("a type name")?;
            let vtype = self.type_node_or_union_type(s)?;
            Ok(Some(Box::new(vtype)))
        } else {
            Ok(None)
        }
    }

    /// The optional `!( T, … )` type-argument list.
    fn optional_type_arguments(&mut self) -> (r: Result<Vec<Node>, ParseError>)
        requires
            old(self).wf(),
        ensures
            Parser::stepped(*old(self), *final(self)),
            (old(self).pos >= old(self).tokens@.len() || old(self).tokens@[old(self).pos
                as int].kind != TokenKind::TypeArgsOpen) ==> (r matches Ok(v) && v@.len() == 0
                && final(self).pos == old(self).pos),
            r matches Ok(v) ==> forall|j: int|
                0 <= j < v@.len() ==> (#[trigger] v@[j]) matches Node::Type { .. },
        decreases self.tokens@.len() - self.pos, 14int,
    {
        if self.next_type_is(TokenKind::TypeArgsOpen) {
            let _ = self.next();
            self.type_arguments()
        } else {
            Ok(Vec::new())
        }
    }

    /// A type-argument list ended by `)`.
    fn type_arguments(&mut self) -> (r: Result<Vec<Node>, ParseError>)
        requires
            old(self).wf(),
        ensures
            Parser::stepped(*old(self), *final(self)),
            r matches Ok(v) ==> forall|j: int|
                0 <= j < v@.len() ==> (#[trigger] v@[j]) matches Node::Type { .. },
        decreases self.tokens@.len() - self.pos, 12int,
    {
        let mut args: Vec<Node> = Vec::new();
        loop
            invariant
                self.wf(),
                self.tokens@ == old(self).tokens@,
                old(self).pos <= self.pos,
                forall|j: int|
                    0 <= j < args@.len() ==> (#[trigger] args@[j]) matches Node::Type { .. },
            decreases self.tokens@.len() - self.pos,
        {
            let s = self.next_or_err("a type name")?;
            let tname = self.type_node(s)?;
            args.push(tname);
            let t = self.next_or_err("a comma or closing parenthesis")?;
            match t.kind {
                TokenKind::Comma => {},
                TokenKind::ParenClose => { break },
                _ => {
                    return Err(
                        ParseError {
                            expected: String::from_str("a comma or closing parenthesis"),
                            found: Some(t.kind),
                            line: t.line,
                            column: t.column,
                        },
                    );
                },
            }
        }
        Ok(args)
    }

    /// An array literal, ended by `]`.
    fn array(&mut self, start: Token) -> (r: ParseResult)
        requires
            old(self).wf(),
            1 <= old(self).pos,
            start == old(self).tokens@[old(self).pos - 1],
        ensures
            Parser::stepped(*old(self), *final(self)),
            r matches Ok(n) ==> (n matches Node::Array { line, column, .. } && line == start.line
                && column == start.column),
            (old(self).pos < old(self).tokens@.len() && old(self).tokens@[old(self).pos
                as int].kind == TokenKind::BracketClose) ==> (r matches Ok(n) && (n matches
                Node::Array { values, .. } && values@.len() == 0) && final(self).pos == old(
                self,
            ).pos + 1),
        decreases self.tokens@.len() - self.pos + 1, 18int,
    {
        let ghost toks = old(self).tokens@;
        let ghost p0 = old(self).pos as int;
        let mut values: Vec<Node> = Vec::new();
        loop
            invariant_except_break
                (p0 < toks.len() && toks[p0].kind == TokenKind::BracketClose) ==> (values@.len()
                    == 0 && self.pos == p0),
            invariant
                self.wf(),
                self.tokens@ == old(self).tokens@,
                old(self).pos <= self.pos,
                toks == old(self).tokens@,
                p0 == old(self).pos,
            ensures
                self.wf(),
                self.tokens@ == old(self).tokens@,
                old(self).pos <= self.pos,
                (p0 < toks.len() && toks[p0].kind == TokenKind::BracketClose) ==> (values@.len()
                    == 0 && self.pos == p0 + 1),
            decreases self.tokens@.len() - self.pos,
        {
            let expr_start = self.next_or_err("a value or closing bracket")?;
            if expr_start.kind == TokenKind::BracketClose {
                break;
            }
            let e = self.expression(expr_start)?;
            values.push(e);
            let t = self.next_or_err("a comma or closing bracket")?;
            match t.kind {
                TokenKind::Comma => {},
                TokenKind::BracketClose => { break },
                _ => {
                    return Err(
                        ParseError {
                            expected: String::from_str("a comma or closing bracket"),
                            found: Some(t.kind),
                            line: t.line,
                            column: t.column,
                        },
                    );
                },
            }
        }
        Ok(Node::Array { values, line: start.line, column: start.column })
    }

    /// A hash literal `%{ key: value, … }`, ended by `}`.
    fn hash(&mut self, start: Token) -> (r: ParseResult)
        requires
            old(self).wf(),
            1 <= old(self).pos,
            start == old(self).tokens@[old(self).pos - 1],
        ensures
            Parser::stepped(*old(self), *final(self)),
            r matches Ok(n) ==> (n matches Node::Hash { line, column, .. } && line == start.line
                && column == start.column),
            (old(self).pos < old(self).tokens@.len() && old(self).tokens@[old(self).pos
                as int].kind == TokenKind::CurlyClose) ==> (r matches Ok(n) && (n matches
                Node::Hash { pairs, .. } && pairs@.len() == 0) && final(self).pos == old(
                self,
            ).pos + 1),
        decreases self.tokens@.len() - self.pos + 1, 18int,
    {
        let ghost toks = old(self).tokens@;
        let ghost p0 = old(self).pos as int;
        let mut pairs: Vec<(Node, Node)> = Vec::new();
        loop
            invariant_except_break
                (p0 < toks.len() && toks[p0].kind == TokenKind::CurlyClose) ==> (pairs@.len()
                    == 0 && self.pos == p0),
            invariant
                self.wf(),
                self.tokens@ == old(self).tokens@,
                old(self).pos <= self.pos,
                toks == old(self).tokens@,
                p0 == old(self).pos,
            ensures
                self.wf(),
                self.tokens@ == old(self).tokens@,
                old(self).pos <= self.pos,
                (p0 < toks.len() && toks[p0].kind == TokenKind::CurlyClose) ==> (pairs@.len()
                    == 0 && self.pos == p0 + 1),
            decreases self.tokens@.len() - self.pos,
        {
            let key_start = self.next_or_err("a key or closing curly brace")?;
            if key_start.kind == TokenKind::CurlyClose {
                break;
            }
            let key = self.expression(key_start)?;
            self.expect_kind(TokenKind::Colon, "a colon")?;
            let val_start = self.next_or_err("a value")?;
            let val = self.expression(val_start)?;
            pairs.push((key, val));
            let t = self.next_or_err("a comma or closing curly brace")?;
            match t.kind {
                TokenKind::Comma => {},
                TokenKind::CurlyClose => { break },
                _ => {
                    return Err(
                        ParseError {
                            expected: String::from_str("a comma or closing curly brace"),
                            found: Some(t.kind),
                            line: t.line,
                            column: t.column,
                        },
                    );
                },
            }
        }
        Ok(Node::Hash { pairs, line: start.line, column: start.column })
    }

    /// A `fn` token starts a closure when `(`, `{` or `->` follows, else a
    /// method definition.
    fn method_or_closure(&mut self, start: Token) -> (r: ParseResult)
        requires
            old(self).wf(),
            1 <= old(self).pos,
            start == old(self).tokens@[old(self).pos - 1],
        ensures
            Parser::stepped(*old(self), *final(self)),
            r matches Ok(n) ==> (n matches Node::Closure { .. } || n matches Node::Method {
                ..
            }),
        decreases self.tokens@.len() - self.pos + 1, 18int,
    {
        match self.peek_kind() {
            None => Err(
                ParseError {
                    expected: String::from_str("an identifier or an arguments list"),
                    found: None,
                    line: start.line,
                    column: start.column,
                },
            ),
            Some(k) => {
                if matches!(k, TokenKind::ParenOpen | TokenKind::CurlyOpen | TokenKind::Arrow) {
                    self.closure(start)
                } else {
                    self.def_method(start)
                }
            },
        }
    }

    /// A method definition: optional receiver, message name, optional type
    /// arguments, arguments, return and throw types, optional body.
    fn def_method(&mut self, start: Token) -> (r: ParseResult)
        requires
            old(self).wf(),
            1 <= old(self).pos,
            start == old(self).tokens@[old(self).pos - 1],
        ensures
            Parser::stepped(*old(self), *final(self)),
            ({
                let toks = old(self).tokens@;
                let p = old(self).pos as int;
                r matches Ok(n) ==> {
                    &&& n matches Node::Method { receiver, name, line, column, .. } && line
                        == start.line && column == start.column && {
                        &&& (p + 1 >= toks.len() || toks[p + 1].kind != TokenKind::Dot)
                            ==> receiver is None
                        &&& (p + 1 < toks.len() && toks[p + 1].kind == TokenKind::Dot)
                            ==> receiver is Some
                        &&& (p < toks.len() && toks[p].kind != TokenKind::BracketOpen && (p + 1
                            >= toks.len() || (toks[p + 1].kind != TokenKind::Dot && toks[p
                            + 1].kind != TokenKind::Assign))) ==> name@ == toks[p].text@
                    }
                }
            }),
            ({
                let toks = old(self).tokens@;
                let p = old(self).pos as int;
                (p < toks.len() && message_token_spec(toks[p].kind) && toks[p].kind
                    != TokenKind::BracketOpen && (p + 1 >= toks.len() || (toks[p + 1].kind
                    != TokenKind::Dot && toks[p + 1].kind != TokenKind::Assign && toks[p
                    + 1].kind != TokenKind::TypeArgsOpen && toks[p + 1].kind
                    != TokenKind::ParenOpen && toks[p + 1].kind != TokenKind::Arrow && toks[p
                    + 1].kind != TokenKind::Throw && toks[p + 1].kind != TokenKind::CurlyOpen)))
                    ==> (r matches Ok(n) && (n matches Node::Method {
                    receiver,
                    name,
                    arguments,
                    type_arguments,
                    return_type,
                    throw_type,
                    body,
                    ..
                } && receiver is None && name@ == toks[p].text@ && arguments@.len() == 0
                    && type_arguments@.len() == 0 && return_type is None && throw_type is None
                    && body is None) && final(self).pos == p + 1)
            }),
        decreases self.tokens@.len() - self.pos + 1, 16int,
    {
        let left = self.next_or_err("a method name")?;
        let (receiver, name) = if self.next_type_is(TokenKind::Dot) {
            let receiver = self.value(left)?;
            self.expect_kind(TokenKind::Dot, "a dot")?;
            let right = self.next_or_err("a method name")?;
            let n = self.message_name_for_token(right)?;
            (Some(Box::new(receiver)), n)
        } else {
            let n = self.message_name_for_token(left)?;
            (None, n)
        };
        let type_arguments = self.optional_type_arguments()?;
        let arguments = self.optional_arguments()?;
        let return_type = self.optional_return_type()?;
        let throw_type = self.optional_throw_type()?;
        let body = if self.next_type_is(TokenKind::CurlyOpen) {
            let _ = self.next();
            Some(Box::new(self.block()?))
        } else {
            None
        };
        Ok(
            Node::Method {
                receiver,
                name,
                arguments,
                type_arguments,
                return_type,
                throw_type,
                body,
                line: start.line,
                column: start.column,
            },
        )
    }

    /// An immutable variable definition.
    fn let_define(&mut self, start: Token) -> (r: ParseResult)
        requires
            old(self).wf(),
            1 <= old(self).pos,
            start == old(self).tokens@[old(self).pos - 1],
        ensures
            Parser::stepped(*old(self), *final(self)),
            r matches Ok(n) ==> (n matches Node::LetDefine { name, line, column, .. } && (((*name)
                matches Node::Identifier { .. }) || ((*name) matches Node::Attribute { .. }) || (
            (*name) matches Node::Constant { .. })) && line == start.line && column
                == start.column),
        decreases self.tokens@.len() - self.pos + 1, 18int,
    {
        let name = self.variable_name()?;
        let value_type = self.optional_variable_type()?;
        let value = self.variable_value()?;
        Ok(
            Node::LetDefine {
                name: Box::new(name),
                value: Box::new(value),
                value_type,
                line: start.line,
                column: start.column,
            },
        )
    }

    /// A mutable variable definition.
    fn var_define(&mut self, start: Token) -> (r: ParseResult)
        requires
            old(self).wf(),
            1 <= old(self).pos,
            start == old(self).tokens@[old(self).pos - 1],
        ensures
            Parser::stepped(*old(self), *final(self)),
            r matches Ok(n) ==> (n matches Node::VarDefine { name, line, column, .. } && (((*name)
                matches Node::Identifier { .. }) || ((*name) matches Node::Attribute { .. }) || (
            (*name) matches Node::Constant { .. })) && line == start.line && column
                == start.column),
        decreases self.tokens@.len() - self.pos + 1, 18int,
    {
        let name = self.variable_name()?;
        let value_type = self.optional_variable_type()?;
        let value = self.variable_value()?;
        Ok(
            Node::VarDefine {
                name: Box::new(name),
                value: Box::new(value),
                value_type,
                line: start.line,
                column: start.column,
            },
        )
    }

    /// The name being defined: an identifier, attribute or constant.
    fn variable_name(&mut self) -> (r: Result<Node, ParseError>)
        requires
            old(self).wf(),
        ensures
            Parser::stepped(*old(self), *final(self)),
            ({
                let toks = old(self).tokens@;
                let p = old(self).pos as int;
                &&& p >= toks.len() ==> r is Err
                &&& p < toks.len() ==> {
                    let t = toks[p];
                    &&& t.kind == TokenKind::Identifier ==> r == Ok::<Node, ParseError>(
                        Node::Identifier { name: t.text, line: t.line, column: t.column },
                    ) && final(self).pos == p + 1
                    &&& t.kind == TokenKind::Attribute ==> r == Ok::<Node, ParseError>(
                        Node::Attribute { name: t.text, line: t.line, column: t.column },
                    ) && final(self).pos == p + 1
                    &&& t.kind == TokenKind::Constant ==> r == Ok::<Node, ParseError>(
                        Node::Constant {
                            receiver: None,
                            name: t.text,
                            line: t.line,
                            column: t.column,
                        },
                    ) && final(self).pos == p + 1
                    &&& (t.kind != TokenKind::Identifier && t.kind != TokenKind::Attribute
                        && t.kind != TokenKind::Constant) ==> r is Err
                }
            }),
        decreases self.tokens@.len() - self.pos, 6int,
    {
        let start = self.next_or_err("an identifier, attribute or constant")?;
        match start.kind {
            TokenKind::Identifier => Ok(self.identifier_from_token(start)),
            TokenKind::Attribute => Ok(self.attribute_from_token(start)),
            TokenKind::Constant => Ok(self.constant_from_token(start, None)),
            _ => Err(
                ParseError {
                    expected: String::from_str("an identifier, attribute or constant"),
                    found: Some(start.kind),
                    line: start.line,
                    column: start.column,
                },
            ),
        }
    }

    /// The optional `: Constant` type of a variable definition.
    fn optional_variable_type(&mut self) -> (r: Result<Option<Box<Node>>, ParseError>)
        requires
            old(self).wf(),
        ensures
            Parser::stepped(*old(self), *final(self)),
            ({
                let toks = old(self).tokens@;
                let p = old(self).pos as int;
                &&& (p >= toks.len() || toks[p].kind != TokenKind::Colon) ==> r == Ok::<
                    Option<Box<Node>>,
                    ParseError,
                >(None) && final(self).pos == p
                &&& (r matches Ok(v) ==> (v matches Some(c) ==> (*c) matches Node::Constant {
                    ..
                }))
            }),
        decreases self.tokens@.len() - self.pos, 6int,
    {
        if self.next_type_is(TokenKind::Colon) {
            let _ = self.next();
            let s = self.expect_kind(TokenKind::Constant, "a constant")?;
            let c = self.constant(s)?;
            Ok(Some(Box::new(c)))
        } else {
            Ok(None)
        }
    }

    /// The `= expression` of a variable definition.
    fn variable_value(&mut self) -> (r: Result<Node, ParseError>)
        requires
            old(self).wf(),
        ensures
            Parser::stepped(*old(self), *final(self)),
        decreases self.tokens@.len() - self.pos, 6int,
    {
        self.expect_kind(TokenKind::Assign, "an equals sign")?;
        let s = self.next_or_err("an expression")?;
        self.expression(s)
    }

    /// A class definition with optional trait implementations.
    fn class(&mut self, start: Token) -> (r: ParseResult)
        requires
            old(self).wf(),
            1 <= old(self).pos,
            start == old(self).tokens@[old(self).pos - 1],
        ensures
            Parser::stepped(*old(self), *final(self)),
            ({
                let toks = old(self).tokens@;
                let p = old(self).pos as int;
                r matches Ok(n) ==> (n matches Node::Class {
                    name,
                    implements,
                    body,
                    line,
                    column,
                    ..
                } && p < toks.len() && toks[p].kind == TokenKind::Constant && name == toks[p].text
                    && ((*body) matches Node::Expressions { .. }) && (forall|j: int|
                    0 <= j < implements@.len() ==> (#[trigger] implements@[j]) matches
                        Node::Implement { .. }) && line == start.line && column == start.column)
            }),
            ({
                let toks = old(self).tokens@;
                let p = old(self).pos as int;
                (p + 2 < toks.len() && toks[p].kind == TokenKind::Constant && toks[p + 1].kind
                    == TokenKind::CurlyOpen && toks[p + 2].kind == TokenKind::CurlyClose) ==> (
                r matches Ok(n) && (n matches Node::Class {
                    type_arguments,
                    implements,
                    body,
                    ..
                } && type_arguments@.len() == 0 && implements@.len() == 0 && ((*body) matches
                    Node::Expressions { nodes } && nodes@.len() == 0)) && final(self).pos == p
                    + 3)
            }),
            ({
                let toks = old(self).tokens@;
                let p = old(self).pos as int;
                class_impl_entry(toks, p) ==> (r is Ok && final(self).pos == class_impl_end(
                    toks,
                    p,
                ))
            }),
            ({
                let toks = old(self).tokens@;
                let p = old(self).pos as int;
                class_impl_entry(toks, p) ==> (r matches Ok(n) ==> (n matches Node::Class {
                    name,
                    type_arguments,
                    implements,
                    body,
                    line,
                    column,
                } && name == toks[p].text && type_arguments@.len() == 0 && implements@.len()
                    == 1 && bare_implement_node(toks, p + 1, implements@[0]) && ((*body) matches
                    Node::Expressions { nodes } && nodes@.len() == 0) && line == start.line
                    && column == start.column))
            }),
        decreases self.tokens@.len() - self.pos + 1, 18int,
    {
        let ghost toks = old(self).tokens@;
        let ghost p0 = old(self).pos as int;
        let name = self.expect_kind(TokenKind::Constant, "a class name")?;
        let type_args = self.optional_type_arguments()?;
        let mut implements: Vec<Node> = Vec::new();
        loop
            invariant
                self.wf(),
                self.tokens@ == old(self).tokens@,
                old(self).pos < self.pos,
                toks == old(self).tokens@,
                p0 == old(self).pos,
                (p0 + 1 < toks.len() && toks[p0].kind == TokenKind::Constant && toks[p0
                    + 1].kind == TokenKind::CurlyOpen) ==> (implements@.len() == 0 && self.pos
                    == p0 + 1),
                class_impl_entry(toks, p0) ==> ((implements@.len() == 0 && self.pos == p0 + 1)
                    || (implements@.len() == 1 && bare_implement_node(
                    toks,
                    p0 + 1,
                    implements@[0],
                ) && self.pos == class_impl_end(toks, p0) - 2)),
                forall|j: int|
                    0 <= j < implements@.len() ==> (#[trigger] implements@[j]) matches
                        Node::Implement { .. },
            ensures
                self.wf(),
                self.tokens@ == old(self).tokens@,
                old(self).pos < self.pos,
                toks == old(self).tokens@,
                p0 == old(self).pos,
                (p0 + 1 < toks.len() && toks[p0].kind == TokenKind::Constant && toks[p0
                    + 1].kind == TokenKind::CurlyOpen) ==> (implements@.len() == 0 && self.pos
                    == p0 + 1),
                class_impl_entry(toks, p0) ==> (implements@.len() == 1 && bare_implement_node(
                    toks,
                    p0 + 1,
                    implements@[0],
                ) && self.pos == class_impl_end(toks, p0) - 2),
                forall|j: int|
                    0 <= j < implements@.len() ==> (#[trigger] implements@[j]) matches
                        Node::Implement { .. },
            decreases self.tokens@.len() - self.pos,
        {
            if !self.next_type_is(TokenKind::Impl) {
                proof {
                    if class_impl_entry(toks, p0) && self.pos == p0 + 1 && implements@.len()
                        == 0 {
                        assert(toks[p0 + 1].kind == TokenKind::Impl);
                        assert(false);
                    }
                }
                break;
            }
            let s = self.next_or_err("impl")?;
            let im = self.implement_trait(s)?;
            implements.push(im);
        }
        self.expect_kind(TokenKind::CurlyOpen, "an opening curly brace")?;
        let body = self.block()?;
        Ok(
            Node::Class {
                name: name.text,
                type_arguments: type_args,
                implements,
                body: Box::new(body),
                line: start.line,
                column: start.column,
            },
        )
    }

    /// A trait definition.
    fn def_trait(&mut self, start: Token) -> (r: ParseResult)
        requires
            old(self).wf(),
            1 <= old(self).pos,
            start == old(self).tokens@[old(self).pos - 1],
        ensures
            Parser::stepped(*old(self), *final(self)),
            r matches Ok(n) ==> (n matches Node::Trait { name, body, line, column, .. } && ((
            *body) matches Node::Expressions { .. }) && line == start.line && column
                == start.column),
            ({
                let toks = old(self).tokens@;
                let p = old(self).pos as int;
                (p + 2 < toks.len() && toks[p].kind == TokenKind::Constant && toks[p + 1].kind
                    == TokenKind::CurlyOpen && toks[p + 2].kind == TokenKind::CurlyClose) ==> (
                r matches Ok(n) && (n matches Node::Trait { name, type_arguments, body, .. }
                    && name == toks[p].text && type_arguments@.len() == 0 && ((*body) matches
                    Node::Expressions { nodes } && nodes@.len() == 0)) && final(self).pos == p
                    + 3)
            }),
        decreases self.tokens@.len() - self.pos + 1, 18int,
    {
        let name = self.expect_kind(TokenKind::Constant, "a trait name")?;
        let type_args = self.optional_type_arguments()?;
        self.expect_kind(TokenKind::CurlyOpen, "an opening curly brace")?;
        let body = self.block()?;
        Ok(
            Node::Trait {
                name: name.text,
                type_arguments: type_args,
                body: Box::new(body),
                line: start.line,
                column: start.column,
            },
        )
    }

    /// A `return`, with an optional same-line value.
    fn return_value(&mut self, start: Token) -> (r: ParseResult)
        requires
            old(self).wf(),
            1 <= old(self).pos,
            start == old(self).tokens@[old(self).pos - 1],
        ensures
            Parser::stepped(*old(self), *final(self)),
            !(old(self).pos < old(self).tokens@.len() && value_start_spec(
                old(self).tokens@[old(self).pos as int].kind,
            ) && old(self).tokens@[old(self).pos as int].line == start.line) ==> r == Ok::<
                Node,
                ParseError,
            >(Node::Return { value: None, line: start.line, column: start.column }) && final(self).pos == old(self).pos,
            r matches Ok(n) ==> (n matches Node::Return { value, line, column } && line
                == start.line && column == start.column),
        decreases self.tokens@.len() - self.pos + 1, 18int,
    {
        let value = if self.next_expression_is_argument(start.line) {
            let next = self.next_or_err("an expression")?;
            Some(Box::new(self.expression(next)?))
        } else {
            None
        };
        Ok(Node::Return { value, line: start.line, column: start.column })
    }

    /// One `impl T (old as new, …)` clause of a class.
    fn implement_trait(&mut self, start: Token) -> (r: ParseResult)
        requires
            old(self).wf(),
            1 <= old(self).pos,
            start == old(self).tokens@[old(self).pos - 1],
        ensures
            Parser::stepped(*old(self), *final(self)),
            r matches Ok(n) ==> (n matches Node::Implement { name, renames, line, column, .. }
                && ((*name) matches Node::Type { .. }) && (forall|j: int|
                0 <= j < renames@.len() ==> ((#[trigger] renames@[j]).0 matches Node::Identifier {
                    ..
                } && renames@[j].1 matches Node::Identifier { .. })) && line == start.line
                && column == start.column),
            ({
                let toks = old(self).tokens@;
                let p = old(self).pos as int;
                (p + 1 < toks.len() && toks[p].kind == TokenKind::Constant && bare_at(
                    toks,
                    p + 1,
                ) && toks[p + 1].kind == TokenKind::ParenOpen) ==> (match renames_list_model(
                    toks,
                    p + 2,
                ) {
                    Some(m) => (r matches Ok(n) && (n matches Node::Implement {
                        name,
                        type_arguments,
                        renames,
                        line,
                        column,
                    } && ((*name) matches Node::Type {
                        constant,
                        arguments,
                        return_type,
                        ..
                    } && *constant == (Node::Constant {
                        receiver: None,
                        name: toks[p].text,
                        line: toks[p].line,
                        column: toks[p].column,
                    }) && arguments@.len() == 0 && return_type is None) && type_arguments@.len()
                        == 0 && renames@ == m.0 && line == start.line && column == start.column)
                        && final(self).pos == m.1),
                    None => r is Err,
                })
            }),
        decreases self.tokens@.len() - self.pos + 1, 14int,
    {
        let token = self.next_or_err("a trait name")?;
        let name = self.type_node(token)?;
        let type_args = self.optional_type_arguments()?;
        let renames = if self.next_type_is(TokenKind::ParenOpen) {
            let _ = self.next();
            self.trait_renames()?
        } else {
            Vec::new()
        };
        Ok(
            Node::Implement {
                name: Box::new(name),
                type_arguments: type_args,
                renames,
                line: start.line,
                column: start.column,
            },
        )
    }

    /// The method renames of a trait implementation, ended by `)`.
    fn trait_renames(&mut self) -> (r: Result<Vec<(Node, Node)>, ParseError>)
        requires
            old(self).wf(),
        ensures
            Parser::stepped(*old(self), *final(self)),
            r is Ok <==> renames_list_model(old(self).tokens@, old(self).pos as int) is Some,
            r matches Ok(v) ==> (renames_list_model(old(self).tokens@, old(self).pos as int)
                matches Some(m) && v@ == m.0 && final(self).pos == m.1),
            r matches Ok(v) ==> forall|j: int|
                0 <= j < v@.len() ==> ((#[trigger] v@[j]).0 matches Node::Identifier { .. }
                    && v@[j].1 matches Node::Identifier { .. }),
        decreases self.tokens@.len() - self.pos, 6int,
    {
        let ghost toks = old(self).tokens@;
        let ghost p0 = old(self).pos as int;
        let mut renames: Vec<(Node, Node)> = Vec::new();
        loop
            invariant_except_break
                (match renames_model(toks, self.pos as int) {
                    None => renames_model(toks, p0) is None,
                    Some(re) => renames_model(toks, p0) == Some((renames@ + re.0, re.1)),
                }),
            invariant
                self.wf(),
                self.tokens@ == old(self).tokens@,
                old(self).pos <= self.pos,
                toks == old(self).tokens@,
                p0 == old(self).pos,
                forall|j: int|
                    0 <= j < renames@.len() ==> ((#[trigger] renames@[j]).0 matches
                        Node::Identifier { .. } && renames@[j].1 matches Node::Identifier {
                        ..
                    }),
            ensures
                self.wf(),
                self.tokens@ == old(self).tokens@,
                old(self).pos <= self.pos,
                toks == old(self).tokens@,
                p0 == old(self).pos,
                renames_model(toks, p0) == Some((renames@, self.pos as int)),
                forall|j: int|
                    0 <= j < renames@.len() ==> ((#[trigger] renames@[j]).0 matches
                        Node::Identifier { .. } && renames@[j].1 matches Node::Identifier {
                        ..
                    }),
            decreases self.tokens@.len() - self.pos,
        {
            let ghost jpos = self.pos as int;
            let ghost pre = renames@;
            let t1 = self.expect_kind(TokenKind::Identifier, "an identifier")?;
            let src_name = self.identifier_from_token(t1);
            self.expect_kind(TokenKind::As, "as")?;
            let t2 = self.expect_kind(TokenKind::Identifier, "an identifier")?;
            let new_name = self.identifier_from_token(t2);
            renames.push((src_name, new_name));
            proof {
                assert(renames@ =~= pre + seq![
                    (ident_node_of(toks[jpos]), ident_node_of(toks[jpos + 2])),
                ]);
            }
            if self.next_type_is(TokenKind::Comma) {
                let _ = self.next();
                proof {
                    let pair = (ident_node_of(toks[jpos]), ident_node_of(toks[jpos + 2]));
                    match renames_model(toks, self.pos as int) {
                        None => {
                            assert(renames_model(toks, jpos) is None);
                        },
                        Some(re) => {
                            assert(renames_model(toks, jpos) == Some(
                                (seq![pair] + re.0, re.1),
                            ));
                            assert(pre + (seq![pair] + re.0) =~= renames@ + re.0);
                        },
                    }
                }
            } else {
                proof {
                    let pair = (ident_node_of(toks[jpos]), ident_node_of(toks[jpos + 2]));
                    assert(renames_model(toks, jpos) == Some((seq![pair], jpos + 3)));
                    assert(pre + seq![pair] =~= renames@);
                }
                break;
            }
        }
        self.expect_kind(TokenKind::ParenClose, "a closing parenthesis")?;
        Ok(renames)
    }

    /// A type alias definition: `type Name = TypeOrUnion`.
    fn def_type(&mut self, start: Token) -> (r: ParseResult)
        requires
            old(self).wf(),
            1 <= old(self).pos,
            start == old(self).tokens@[old(self).pos - 1],
        ensures
            Parser::stepped(*old(self), *final(self)),
            r matches Ok(n) ==> (n matches Node::TypeDefine { name, value, line, column } && (
            *name) matches Node::Type { .. } && ((*value) matches Node::Type { .. } || (*value)
                matches Node::UnionType { .. }) && line == start.line && column == start.column),
        decreases self.tokens@.len() - self.pos + 1, 18int,
    {
        let token = self.next_or_err("a type name")?;
        let name = self.type_node(token)?;
        self.expect_kind(TokenKind::Assign, "an equals sign")?;
        let vt = self.next_or_err("a type")?;
        let value = self.type_node_or_union_type(vt)?;
        Ok(
            Node::TypeDefine {
                name: Box::new(name),
                value: Box::new(value),
                line: start.line,
                column: start.column,
            },
        )
    }

    /// A block body, ended by `}` or the end of input.
    fn block(&mut self) -> (r: Result<Node, ParseError>)
        requires
            old(self).wf(),
        ensures
            Parser::stepped(*old(self), *final(self)),
            r matches Ok(n) ==> n matches Node::Expressions { .. },
            (old(self).pos < old(self).tokens@.len() && old(self).tokens@[old(self).pos
                as int].kind == TokenKind::CurlyClose) ==> (r matches Ok(n) && (n matches
                Node::Expressions { nodes } && nodes@.len() == 0) && final(self).pos == old(
                self,
            ).pos + 1),
            ({
                let toks = old(self).tokens@;
                let p = old(self).pos as int;
                (p + 1 < toks.len() && atom_ok(toks[p]) && toks[p + 1].kind
                    == TokenKind::CurlyClose) ==> (r matches Ok(n) && (n matches
                    Node::Expressions { nodes } && nodes@.len() == 1 && nodes@[0]
                    == atom_node_of(toks[p])) && final(self).pos == p + 2)
            }),
        decreases self.tokens@.len() - self.pos, 58int,
    {
        let ghost toks = old(self).tokens@;
        let ghost p0 = old(self).pos as int;
        let mut body: Vec<Node> = Vec::new();
        let ghost single = p0 + 1 < toks.len() && atom_ok(toks[p0]) && toks[p0 + 1].kind
            == TokenKind::CurlyClose;
        loop
            invariant_except_break
                (p0 < toks.len() && toks[p0].kind == TokenKind::CurlyClose) ==> (body@.len()
                    == 0 && self.pos == p0),
                single ==> ((body@.len() == 0 && self.pos == p0) || (body@.len() == 1 && body@[0]
                    == atom_node_of(toks[p0]) && self.pos == p0 + 1)),
            invariant
                self.wf(),
                self.tokens@ == old(self).tokens@,
                old(self).pos <= self.pos,
                toks == old(self).tokens@,
                p0 == old(self).pos,
                single == (p0 + 1 < toks.len() && atom_ok(toks[p0]) && toks[p0 + 1].kind
                    == TokenKind::CurlyClose),
            ensures
                self.wf(),
                self.tokens@ == old(self).tokens@,
                old(self).pos <= self.pos,
                (p0 < toks.len() && toks[p0].kind == TokenKind::CurlyClose) ==> (body@.len()
                    == 0 && self.pos == p0 + 1),
                single ==> (body@.len() == 1 && body@[0] == atom_node_of(toks[p0]) && self.pos
                    == p0 + 2),
            decreases self.tokens@.len() - self.pos,
        {
            let token = match self.next() {
                Some(t) => t,
                None => { break },
            };
            if token.kind == TokenKind::CurlyClose {
                break;
            }
            let e = self.expression(token)?;
            body.push(e);
        }
        Ok(Node::Expressions { nodes: body })
    }

    /// A braced block, or a single expression standing for one.
    fn block_with_optional_curly_braces(&mut self) -> (r: Result<Node, ParseError>)
        requires
            old(self).wf(),
        ensures
            Parser::stepped(*old(self), *final(self)),
            old(self).pos < final(self).pos || r is Err,
            r matches Ok(n) ==> n matches Node::Expressions { .. },
            ({
                let toks = old(self).tokens@;
                let p = old(self).pos as int;
                &&& (p + 1 < toks.len() && toks[p].kind == TokenKind::CurlyOpen && toks[p
                    + 1].kind == TokenKind::CurlyClose) ==> (r matches Ok(n) && (n matches
                    Node::Expressions { nodes } && nodes@.len() == 0) && final(self).pos == p
                    + 2)
                &&& (p + 2 < toks.len() && toks[p].kind == TokenKind::CurlyOpen && atom_ok(
                    toks[p + 1],
                ) && toks[p + 2].kind == TokenKind::CurlyClose) ==> (r matches Ok(n) && (n
                    matches Node::Expressions { nodes } && nodes@.len() == 1 && nodes@[0]
                    == atom_node_of(toks[p + 1])) && final(self).pos == p + 3)
                &&& (p < toks.len() && toks[p].kind != TokenKind::CurlyOpen && atom_ok(toks[p])
                    && atom_alone(toks[p], toks, p + 1)) ==> (r matches Ok(n) && (n matches
                    Node::Expressions { nodes } && nodes@.len() == 1 && nodes@[0]
                    == atom_node_of(toks[p])) && final(self).pos == p + 1)
            }),
        decreases self.tokens@.len() - self.pos, 58int,
    {
        if self.next_type_is(TokenKind::CurlyOpen) {
            let _ = self.next();
            self.block()
        } else {
            let s = self.next_or_err("an expression")?;
            let e = self.expression(s)?;
            let mut nodes: Vec<Node> = Vec::new();
            nodes.push(e);
            Ok(Node::Expressions { nodes })
        }
    }

    /// A `try`, with an optional `else` binding and body.
    fn try_expression(&mut self, start: Token) -> (r: ParseResult)
        requires
            old(self).wf(),
            1 <= old(self).pos,
            start == old(self).tokens@[old(self).pos - 1],
        ensures
            Parser::stepped(*old(self), *final(self)),
            r matches Ok(n) ==> (n matches Node::Try {
                body,
                else_body,
                else_argument,
                line,
                column,
            } && ((*body) matches Node::Expressions { .. }) && (else_argument is None || (
            else_argument matches Some(a) && (*a) matches Node::Identifier { .. })) && (
            else_body is None || (else_body matches Some(b) && (*b) matches Node::Expressions {
                ..
            })) && (else_argument is Some ==> else_body is Some) && line == start.line && column
                == start.column),
            ({
                let toks = old(self).tokens@;
                let p = old(self).pos as int;
                try_scenario_entry(toks, p) ==> (r matches Ok(n) ==> (n matches Node::Try {
                    body,
                    else_body,
                    else_argument,
                    line,
                    column,
                } && ((*body) matches Node::Expressions { nodes } && nodes@.len() == 1
                    && nodes@[0] == atom_node_of(toks[p + 1])) && (else_argument matches Some(a)
                    && *a == (Node::Identifier {
                    name: toks[p + 5].text,
                    line: toks[p + 5].line,
                    column: toks[p + 5].column,
                })) && (else_body matches Some(b) && ((*b) matches Node::Expressions {
                    nodes,
                } && nodes@.len() == 1 && nodes@[0] == atom_node_of(toks[p + 8]))) && line
                    == start.line && column == start.column))
            }),
            ({
                let toks = old(self).tokens@;
                let p = old(self).pos as int;
                try_scenario_entry(toks, p) ==> (r is Ok && final(self).pos == p + 10)
            }),
        decreases self.tokens@.len() - self.pos + 1, 18int,
    {
        let body = self.block_with_optional_curly_braces()?;
        let (else_arg, else_body) = if self.next_type_is(TokenKind::Else) {
            let _ = self.next();
            let else_arg = self.optional_else_arg()?;
            let eb = self.block_with_optional_curly_braces()?;
            (else_arg, Some(Box::new(eb)))
        } else {
            (None, None)
        };
        Ok(
            Node::Try {
                body: Box::new(body),
                else_body,
                else_argument: else_arg,
                line: start.line,
                column: start.column,
            },
        )
    }

    /// The optional `(ident)` binding of an `else`.
    fn optional_else_arg(&mut self) -> (r: Result<Option<Box<Node>>, ParseError>)
        requires
            old(self).wf(),
        ensures
            Parser::stepped(*old(self), *final(self)),
            ({
                let toks = old(self).tokens@;
                let p = old(self).pos as int;
                &&& (p >= toks.len() || toks[p].kind != TokenKind::ParenOpen) ==> r == Ok::<
                    Option<Box<Node>>,
                    ParseError,
                >(None) && final(self).pos == p
                &&& (p < toks.len() && toks[p].kind == TokenKind::ParenOpen) ==> {
                    if p + 2 < toks.len() && toks[p + 1].kind == TokenKind::Identifier && toks[p
                        + 2].kind == TokenKind::ParenClose {
                        r == Ok::<Option<Box<Node>>, ParseError>(
                            Some(
                                Box::new(
                                    Node::Identifier {
                                        name: toks[p + 1].text,
                                        line: toks[p + 1].line,
                                        column: toks[p + 1].column,
                                    },
                                ),
                            ),
                        ) && final(self).pos == p + 3
                    } else {
                        r is Err
                    }
                }
            }),
        decreases self.tokens@.len() - self.pos, 6int,
    {
        if self.next_type_is(TokenKind::ParenOpen) {
            let _ = self.next();
            let name = self.expect_kind(TokenKind::Identifier, "an identifier")?;
            self.expect_kind(TokenKind::ParenClose, "a closing parenthesis")?;
            Ok(Some(Box::new(self.identifier_from_token(name))))
        } else {
            Ok(None)
        }
    }

    /// A `throw` with its required value.
    fn throw(&mut self, start: Token) -> (r: ParseResult)
        requires
            old(self).wf(),
            1 <= old(self).pos,
            start == old(self).tokens@[old(self).pos - 1],
        ensures
            Parser::stepped(*old(self), *final(self)),
            r matches Ok(n) ==> (n matches Node::Throw { line, column, .. } && line == start.line
                && column == start.column),
        decreases self.tokens@.len() - self.pos + 1, 18int,
    {
        let s = self.next_or_err("an expression")?;
        let value = self.expression(s)?;
        Ok(Node::Throw { value: Box::new(value), line: start.line, column: start.column })
    }

    /// The optional parenthesised argument-definition list.
    fn optional_arguments(&mut self) -> (r: Result<Vec<Node>, ParseError>)
        requires
            old(self).wf(),
        ensures
            Parser::stepped(*old(self), *final(self)),
            (old(self).pos >= old(self).tokens@.len() || old(self).tokens@[old(self).pos
                as int].kind != TokenKind::ParenOpen) ==> (r matches Ok(v) && v@.len() == 0
                && final(self).pos == old(self).pos),
            r matches Ok(v) ==> forall|j: int|
                0 <= j < v@.len() ==> (#[trigger] v@[j]) matches Node::ArgumentDefine { .. },
        decreases self.tokens@.len() - self.pos, 15int,
    {
        if self.next_type_is(TokenKind::ParenOpen) {
            let _ = self.next();
            self.def_arguments()
        } else {
            Ok(Vec::new())
        }
    }

    /// The optional `-> T` return type.
    fn optional_return_type(&mut self) -> (r: Result<Option<Box<Node>>, ParseError>)
        requires
            old(self).wf(),
        ensures
            Parser::stepped(*old(self), *final(self)),
            (old(self).pos >= old(self).tokens@.len() || old(self).tokens@[old(self).pos
                as int].kind != TokenKind::Arrow) ==> r == Ok::<Option<Box<Node>>, ParseError>(
                None,
            ) && final(self).pos == old(self).pos,
            r matches Ok(v) ==> (v matches Some(t) ==> ((*t) matches Node::Type { .. } || (*t)
                matches Node::UnionType { .. })),
        decreases self.tokens@.len() - self.pos, 14int,
    {
        if self.next_type_is(TokenKind::Arrow) {
            let _ = self.next();
            let s = self.next_or_err("a type name")?;
            let ret = self.type_node_or_union_type(s)?;
            Ok(Some(Box::new(ret)))
        } else {
            Ok(None)
        }
    }

    /// The optional `throw T` clause.
    fn optional_throw_type(&mut self) -> (r: Result<Option<Box<Node>>, ParseError>)
        requires
            old(self).wf(),
        ensures
            Parser::stepped(*old(self), *final(self)),
            (old(self).pos >= old(self).tokens@.len() || old(self).tokens@[old(self).pos
                as int].kind != TokenKind::Throw) ==> r == Ok::<Option<Box<Node>>, ParseError>(
                None,
            ) && final(self).pos == old(self).pos,
            r matches Ok(v) ==> (v matches Some(t) ==> ((*t) matches Node::Type { .. } || (*t)
                matches Node::UnionType { .. })),
        decreases self.tokens@.len() - self.pos, 14int,
    {
        if self.next_type_is(TokenKind::Throw) {
            let _ = self.next();
            let s = self.next_or_err("a type name")?;
            let ret = self.type_node_or_union_type(s)?;
            Ok(Some(Box::new(ret)))
        } else {
            Ok(None)
        }
    }
}

} // verus!
