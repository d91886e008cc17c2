//! A mathematical model of the binary-operator layer.
//!
//! On token streams made of atoms — integer literals and bare
//! identifiers — joined by binary operators ("fragments"), the parser's
//! result is pinned down exactly by a spec-level precedence climb,
//! [`sp_bin`]. The laws of the operator ladder
//! (left-association, precedence, and the presence of every token's
//! position in the tree) are proved of that model, and the parser's
//! contracts tie its output to the model.

use vstd::prelude::*;

use crate::ast::Node;
use crate::parser::ident_node_of;
use crate::parser::op_of;
use crate::parser::prec_of;
use crate::parser::digits_i64_ok;
use crate::parser::dec_val;
use crate::parser::value_start_spec;
use crate::token::Token;
use crate::token::TokenKind;

verus! {

/// An integer-literal token whose text denotes an `i64` value.
pub open spec fn int_tok_ok(t: Token) -> bool {
    t.kind == TokenKind::Integer && digits_i64_ok(t.text@)
}

/// The node an integer-literal token parses to.
pub open spec fn int_node_of(t: Token) -> Node {
    Node::Integer { value: dec_val(t.text@) as i64, line: t.line, column: t.column }
}

/// An atom of the operator fragment: an integer literal, or a bare
/// identifier.
pub open spec fn atom_ok(t: Token) -> bool {
    int_tok_ok(t) || t.kind == TokenKind::Identifier
}

/// The node a fragment atom parses to.
pub open spec fn atom_node_of(t: Token) -> Node {
    if t.kind == TokenKind::Identifier {
        ident_node_of(t)
    } else {
        int_node_of(t)
    }
}

/// The operator after an identifier atom must not start a paren-less
/// argument list: a value-starter operator (the minus sign) on the same
/// line as the identifier is promoted to an argument instead.
pub open spec fn sep_ok(toks: Seq<Token>, i: int) -> bool {
    i + 1 >= toks.len() || toks[i].kind != TokenKind::Identifier || !(value_start_spec(
        toks[i + 1].kind,
    ) && toks[i + 1].line == toks[i].line)
}

/// The node an operator token folds two operands into.
pub open spec fn mk_bin(op: Token, left: Node, right: Node) -> Node {
    Node::Binary {
        op: op_of(op.kind),
        left: Box::new(left),
        right: Box::new(right),
        line: op.line,
        column: op.column,
    }
}

/// A fragment from `i` to the end of the stream: an integer literal,
/// then operator and fragment in alternation.
pub open spec fn frag(toks: Seq<Token>, i: int) -> bool
    decreases toks.len() - i, 0int,
{
    0 <= i < toks.len() && atom_ok(toks[i]) && sep_ok(toks, i) && frag_tail(toks, i + 1)
}

/// What may follow a fragment atom: the end of the stream, or a binary
/// operator starting a further fragment.
pub open spec fn frag_tail(toks: Seq<Token>, j: int) -> bool
    decreases toks.len() - j, 1int,
{
    j == toks.len() || (0 <= j < toks.len() && prec_of(toks[j].kind) >= 1 && frag(toks, j + 1))
}

/// The precedence climb: at class `12` an atom; below, a left operand of
/// the next class folded with every operator of exactly class `p`.
pub open spec fn sp_bin(toks: Seq<Token>, i: int, p: int) -> Option<(Node, int)>
    decreases toks.len() - i, 13 - p, 1int,
{
    if i < 0 || i >= toks.len() || p > 12 {
        None
    } else if p == 12 {
        if atom_ok(toks[i]) {
            Some((atom_node_of(toks[i]), i + 1))
        } else {
            None
        }
    } else {
        match sp_bin(toks, i, p + 1) {
            None => None,
            Some((n, j)) => if i < j <= toks.len() {
                sp_fold(toks, n, j, p)
            } else {
                None
            },
        }
    }
}

/// The left fold of [`sp_bin`]: while the next token is an operator of
/// exactly class `p`, fold it with a right operand of the next class.
pub open spec fn sp_fold(toks: Seq<Token>, acc: Node, j: int, p: int) -> Option<(Node, int)>
    decreases toks.len() - j, 13 - p, 0int,
{
    if j < 0 || j > toks.len() || p > 11 {
        None
    } else if j == toks.len() || prec_of(toks[j].kind) != p {
        Some((acc, j))
    } else {
        match sp_bin(toks, j + 1, p + 1) {
            None => None,
            Some((rhs, j2)) => if j + 1 < j2 <= toks.len() {
                sp_fold(toks, mk_bin(toks[j], acc, rhs), j2, p)
            } else {
                None
            },
        }
    }
}

/// On a fragment the climb always succeeds, consumes at least the atom,
/// stops only where an operator of a lower class (or the end) stands,
/// and leaves a fragment tail behind.
pub proof fn lemma_sp_bin_on_frag(toks: Seq<Token>, i: int, p: int)
    requires
        frag(toks, i),
        1 <= p <= 12,
    ensures
        sp_bin(toks, i, p) matches Some(nj) && i < nj.1 <= toks.len() && frag_tail(toks, nj.1)
            && (nj.1 < toks.len() ==> prec_of(toks[nj.1].kind) < p),
    decreases toks.len() - i, 13 - p, 1int,
{
    if p == 12 {
        assert(sp_bin(toks, i, p) == Some((atom_node_of(toks[i]), i + 1)));
    } else {
        lemma_sp_bin_on_frag(toks, i, p + 1);
        let (n, j) = sp_bin(toks, i, p + 1)->Some_0;
        lemma_sp_fold_on_frag(toks, n, j, p);
    }
}

/// The fold counterpart of [`lemma_sp_bin_on_frag`]: from a fragment
/// tail whose next operator is of class at most `p`, the fold succeeds
/// and stops below `p`.
pub proof fn lemma_sp_fold_on_frag(toks: Seq<Token>, acc: Node, j: int, p: int)
    requires
        1 <= p <= 11,
        0 <= j <= toks.len(),
        frag_tail(toks, j),
        j < toks.len() ==> prec_of(toks[j].kind) <= p,
    ensures
        sp_fold(toks, acc, j, p) matches Some(nj) && j <= nj.1 <= toks.len() && frag_tail(
            toks,
            nj.1,
        ) && (nj.1 < toks.len() ==> prec_of(toks[nj.1].kind) < p),
    decreases toks.len() - j, 13 - p, 0int,
{
    if j == toks.len() || prec_of(toks[j].kind) != p {
        assert(sp_fold(toks, acc, j, p) == Some((acc, j)));
    } else {
        assert(frag(toks, j + 1));
        lemma_sp_bin_on_frag(toks, j + 1, p + 1);
        let (rhs, j2) = sp_bin(toks, j + 1, p + 1)->Some_0;
        lemma_sp_fold_on_frag(toks, mk_bin(toks[j], acc, rhs), j2, p);
    }
}

} // verus!

verus! {

/// A lone atom: when nothing of class `p` or higher follows it, the
/// climb at class `p` returns just the atom.
pub proof fn lemma_sp_atom(toks: Seq<Token>, i: int, p: int)
    requires
        0 <= i < toks.len(),
        atom_ok(toks[i]),
        1 <= p <= 12,
        i + 1 < toks.len() ==> prec_of(toks[i + 1].kind) < p,
    ensures
        sp_bin(toks, i, p) == Some((atom_node_of(toks[i]), i + 1)),
    decreases 13 - p,
{
    if p < 12 {
        lemma_sp_atom(toks, i, p + 1);
        assert(sp_fold(toks, atom_node_of(toks[i]), i + 1, p) == Some(
            (atom_node_of(toks[i]), i + 1),
        ));
    }
}

/// A climb that consumed the whole stream at class `q` gives the same
/// tree at every lower class.
pub proof fn lemma_sp_lift(toks: Seq<Token>, i: int, p: int, q: int, n: Node)
    requires
        1 <= p <= q <= 12,
        0 <= i < toks.len(),
        sp_bin(toks, i, q) == Some((n, toks.len() as int)),
    ensures
        sp_bin(toks, i, p) == Some((n, toks.len() as int)),
    decreases q - p,
{
    if p < q {
        lemma_sp_lift(toks, i, p + 1, q, n);
        assert(sp_fold(toks, n, toks.len() as int, p) == Some((n, toks.len() as int)));
    }
}

/// A two-atom tail `b <op> c` closing the stream: at any class at or
/// below the operator's, it parses as one binary node.
pub proof fn lemma_sp_pair(toks: Seq<Token>, i: int, p: int)
    requires
        i + 3 == toks.len(),
        0 <= i,
        atom_ok(toks[i]),
        atom_ok(toks[i + 2]),
        1 <= p <= prec_of(toks[i + 1].kind) <= 11,
    ensures
        sp_bin(toks, i, p) == Some(
            (mk_bin(toks[i + 1], atom_node_of(toks[i]), atom_node_of(toks[i + 2])), i + 3),
        ),
    decreases 12 - p,
{
    let q = prec_of(toks[i + 1].kind);
    if p == q {
        lemma_sp_atom(toks, i, p + 1);
        lemma_sp_atom(toks, i + 2, p + 1);
        let bin = mk_bin(toks[i + 1], atom_node_of(toks[i]), atom_node_of(toks[i + 2]));
        assert(sp_fold(toks, bin, i + 3, p) == Some((bin, i + 3)));
        assert(sp_fold(toks, atom_node_of(toks[i]), i + 1, p) == Some((bin, i + 3)));
    } else {
        lemma_sp_pair(toks, i, p + 1);
        let bin = mk_bin(toks[i + 1], atom_node_of(toks[i]), atom_node_of(toks[i + 2]));
        assert(sp_fold(toks, bin, i + 3, p) == Some((bin, i + 3)));
    }
}

/// Binary operators of the same precedence class left-associate: a
/// five-token fragment `a <op1> b <op2> c` whose two operators are of
/// one class parses as `op2(op1(a, b), c)`.
pub proof fn lemma_same_class_left_associates(toks: Seq<Token>)
    requires
        toks.len() == 5,
        atom_ok(toks[0]),
        atom_ok(toks[2]),
        atom_ok(toks[4]),
        1 <= prec_of(toks[1].kind) <= 11,
        prec_of(toks[3].kind) == prec_of(toks[1].kind),
    ensures
        sp_bin(toks, 0, 1) == Some(
            (
                mk_bin(
                    toks[3],
                    mk_bin(toks[1], atom_node_of(toks[0]), atom_node_of(toks[2])),
                    atom_node_of(toks[4]),
                ),
                5int,
            ),
        ),
{
    let q = prec_of(toks[1].kind);
    let a = atom_node_of(toks[0]);
    let b = atom_node_of(toks[2]);
    let c = atom_node_of(toks[4]);
    lemma_sp_atom(toks, 0, q + 1);
    lemma_sp_atom(toks, 2, q + 1);
    lemma_sp_atom(toks, 4, q + 1);
    let left = mk_bin(toks[1], a, b);
    let whole = mk_bin(toks[3], left, c);
    assert(sp_fold(toks, whole, 5, q) == Some((whole, 5int)));
    assert(sp_fold(toks, left, 3, q) == Some((whole, 5int)));
    assert(sp_fold(toks, a, 1, q) == Some((whole, 5int)));
    assert(sp_bin(toks, 0, q) == Some((whole, 5int)));
    lemma_sp_lift(toks, 0, 1, q, whole);
}

/// The precedence ladder: in `a <op1> b <op2> c` with `op1` of a lower
/// class than `op2`, the higher class binds tighter: the fragment
/// parses as `op1(a, op2(b, c))`.
pub proof fn lemma_higher_class_binds_tighter(toks: Seq<Token>)
    requires
        toks.len() == 5,
        atom_ok(toks[0]),
        atom_ok(toks[2]),
        atom_ok(toks[4]),
        1 <= prec_of(toks[1].kind),
        prec_of(toks[1].kind) < prec_of(toks[3].kind) <= 11,
    ensures
        sp_bin(toks, 0, 1) == Some(
            (
                mk_bin(
                    toks[1],
                    atom_node_of(toks[0]),
                    mk_bin(toks[3], atom_node_of(toks[2]), atom_node_of(toks[4])),
                ),
                5int,
            ),
        ),
{
    let q1 = prec_of(toks[1].kind);
    let a = atom_node_of(toks[0]);
    lemma_sp_atom(toks, 0, q1 + 1);
    lemma_sp_pair(toks, 2, q1 + 1);
    let right = mk_bin(toks[3], atom_node_of(toks[2]), atom_node_of(toks[4]));
    let whole = mk_bin(toks[1], a, right);
    assert(sp_fold(toks, whole, 5, q1) == Some((whole, 5int)));
    assert(sp_fold(toks, a, 1, q1) == Some((whole, 5int)));
    assert(sp_bin(toks, 0, q1) == Some((whole, 5int)));
    lemma_sp_lift(toks, 0, 1, q1, whole);
}

} // verus!

verus! {

/// The source positions standing in a tree: those of integer leaves and
/// of the operators along binary spines. Nodes of other kinds do not
/// occur in a fragment's tree.
pub open spec fn node_positions(n: Node) -> Set<(usize, usize)>
    decreases n,
{
    match n {
        Node::Integer { line, column, .. } => set![(line, column)],
        Node::Identifier { line, column, .. } => set![(line, column)],
        Node::Binary { left, right, line, column, .. } => node_positions(*left).union(
            node_positions(*right),
        ).insert((line, column)),
        _ => Set::empty(),
    }
}

/// Every token the climb consumed put its position into the tree.
pub proof fn lemma_sp_bin_positions(toks: Seq<Token>, i: int, p: int)
    requires
        frag(toks, i),
        1 <= p <= 12,
    ensures
        sp_bin(toks, i, p) matches Some(nj) && forall|k: int|
            i <= k < nj.1 ==> node_positions(nj.0).contains((toks[k].line, toks[k].column)),
    decreases toks.len() - i, 13 - p, 1int,
{
    lemma_sp_bin_on_frag(toks, i, p);
    if p == 12 {
        assert(node_positions(atom_node_of(toks[i])).contains((toks[i].line, toks[i].column)));
    } else {
        lemma_sp_bin_on_frag(toks, i, p + 1);
        lemma_sp_bin_positions(toks, i, p + 1);
        let (n, j) = sp_bin(toks, i, p + 1)->Some_0;
        lemma_sp_fold_positions(toks, n, i, j, p);
    }
}

/// The fold counterpart of [`lemma_sp_bin_positions`]: positions already
/// covered stay covered, and each operator and right operand adds its
/// own.
pub proof fn lemma_sp_fold_positions(toks: Seq<Token>, acc: Node, lo: int, j: int, p: int)
    requires
        1 <= p <= 11,
        0 <= lo <= j <= toks.len(),
        frag_tail(toks, j),
        j < toks.len() ==> prec_of(toks[j].kind) <= p,
        forall|k: int| lo <= k < j ==> node_positions(acc).contains((toks[k].line, toks[k].column)),
    ensures
        sp_fold(toks, acc, j, p) matches Some(nj) && forall|k: int|
            lo <= k < nj.1 ==> node_positions(nj.0).contains((toks[k].line, toks[k].column)),
    decreases toks.len() - j, 13 - p, 0int,
{
    lemma_sp_fold_on_frag(toks, acc, j, p);
    if j == toks.len() || prec_of(toks[j].kind) != p {
    } else {
        assert(frag(toks, j + 1));
        lemma_sp_bin_on_frag(toks, j + 1, p + 1);
        lemma_sp_bin_positions(toks, j + 1, p + 1);
        let (rhs, j2) = sp_bin(toks, j + 1, p + 1)->Some_0;
        let acc2 = mk_bin(toks[j], acc, rhs);
        assert forall|k: int| lo <= k < j2 implies node_positions(acc2).contains(
            (toks[k].line, toks[k].column),
        ) by {
            if k < j {
                assert(node_positions(acc).contains((toks[k].line, toks[k].column)));
            } else if k == j {
                assert(node_positions(acc2).contains((toks[j].line, toks[j].column)));
            } else {
                assert(node_positions(rhs).contains((toks[k].line, toks[k].column)));
            }
        }
        lemma_sp_fold_positions(toks, acc2, lo, j2, p);
    }
}

/// For every input token consumed, the resulting tree contains at least
/// one node whose position equals that token's position: on a fragment
/// the parse consumes the whole stream and covers every position.
pub proof fn lemma_every_token_position_in_ast(toks: Seq<Token>)
    requires
        frag(toks, 0),
    ensures
        sp_bin(toks, 0, 1) matches Some(nj) && nj.1 == toks.len() && forall|k: int|
            0 <= k < toks.len() ==> node_positions(nj.0).contains((toks[k].line, toks[k].column)),
{
    lemma_sp_bin_on_frag(toks, 0, 1);
    lemma_sp_bin_positions(toks, 0, 1);
    let (n, j) = sp_bin(toks, 0, 1)->Some_0;
    if j < toks.len() {
        assert(frag_tail(toks, j));
        assert(prec_of(toks[j].kind) < 1 && prec_of(toks[j].kind) >= 1);
    }
}

} // verus!

verus! {

/// Source-position order: by line, then by column.
pub open spec fn pos_le(a: (usize, usize), b: (usize, usize)) -> bool {
    a.0 < b.0 || (a.0 == b.0 && a.1 <= b.1)
}

/// The position of a token.
pub open spec fn tok_pos(t: Token) -> (usize, usize) {
    (t.line, t.column)
}

/// The token stream's positions never decrease along the input, as a
/// token stream read from source text has them.
pub open spec fn toks_monotone(toks: Seq<Token>) -> bool {
    forall|k1: int, k2: int|
        0 <= k1 <= k2 < toks.len() ==> pos_le(
            #[trigger] tok_pos(toks[k1]),
            #[trigger] tok_pos(toks[k2]),
        )
}

/// Positions are ordered within the tree: along every binary node, the
/// left subtree's positions come no later than the operator's, and the
/// right subtree's no earlier.
pub open spec fn node_ordered(n: Node) -> bool
    decreases n,
{
    match n {
        Node::Binary { left, right, line, column, .. } => {
            &&& node_ordered(*left)
            &&& node_ordered(*right)
            &&& (forall|q: (usize, usize)|
                node_positions(*left).contains(q) ==> pos_le(q, (line, column)))
            &&& (forall|q: (usize, usize)|
                node_positions(*right).contains(q) ==> pos_le((line, column), q))
        },
        _ => true,
    }
}

/// On a fragment of a position-monotone stream, the climb's tree is
/// position-ordered, and every position in it lies between the positions
/// of the consumed range's first and last token.
pub proof fn lemma_sp_bin_ordered(toks: Seq<Token>, i: int, p: int)
    requires
        frag(toks, i),
        toks_monotone(toks),
        1 <= p <= 12,
    ensures
        sp_bin(toks, i, p) matches Some(nj) && node_ordered(nj.0) && (forall|q: (usize, usize)|
            node_positions(nj.0).contains(q) ==> pos_le(tok_pos(toks[i]), q) && pos_le(
                q,
                tok_pos(toks[nj.1 - 1]),
            )),
    decreases toks.len() - i, 13 - p, 1int,
{
    lemma_sp_bin_on_frag(toks, i, p);
    if p == 12 {
        assert(node_positions(atom_node_of(toks[i])) =~= set![(toks[i].line, toks[i].column)]);
    } else {
        lemma_sp_bin_on_frag(toks, i, p + 1);
        lemma_sp_bin_ordered(toks, i, p + 1);
        let (n, j) = sp_bin(toks, i, p + 1)->Some_0;
        lemma_sp_fold_ordered(toks, n, i, j, p);
    }
}

/// The fold counterpart of [`lemma_sp_bin_ordered`].
pub proof fn lemma_sp_fold_ordered(toks: Seq<Token>, acc: Node, lo: int, j: int, p: int)
    requires
        1 <= p <= 11,
        0 <= lo < j <= toks.len(),
        toks_monotone(toks),
        frag_tail(toks, j),
        j < toks.len() ==> prec_of(toks[j].kind) <= p,
        node_ordered(acc),
        forall|q: (usize, usize)|
            node_positions(acc).contains(q) ==> pos_le(tok_pos(toks[lo]), q) && pos_le(
                q,
                tok_pos(toks[j - 1]),
            ),
    ensures
        sp_fold(toks, acc, j, p) matches Some(nj) && node_ordered(nj.0) && (forall|
            q: (usize, usize),
        |
            node_positions(nj.0).contains(q) ==> pos_le(tok_pos(toks[lo]), q) && pos_le(
                q,
                tok_pos(toks[nj.1 - 1]),
            )),
    decreases toks.len() - j, 13 - p, 0int,
{
    lemma_sp_fold_on_frag(toks, acc, j, p);
    if j == toks.len() || prec_of(toks[j].kind) != p {
    } else {
        assert(frag(toks, j + 1));
        lemma_sp_bin_on_frag(toks, j + 1, p + 1);
        lemma_sp_bin_ordered(toks, j + 1, p + 1);
        let (rhs, j2) = sp_bin(toks, j + 1, p + 1)->Some_0;
        let acc2 = mk_bin(toks[j], acc, rhs);
        assert(node_positions(acc2) =~= node_positions(acc).union(node_positions(rhs)).insert(
            (toks[j].line, toks[j].column),
        ));
        assert forall|q: (usize, usize)| node_positions(acc2).contains(q) implies pos_le(
            tok_pos(toks[lo]),
            q,
        ) && pos_le(q, tok_pos(toks[j2 - 1])) by {
            if node_positions(acc).contains(q) {
                assert(pos_le(tok_pos(toks[j - 1]), tok_pos(toks[j2 - 1])));
            } else if node_positions(rhs).contains(q) {
                assert(pos_le(tok_pos(toks[lo]), tok_pos(toks[j + 1])));
            } else {
                assert(q == tok_pos(toks[j]));
                assert(pos_le(tok_pos(toks[lo]), tok_pos(toks[j])));
                assert(pos_le(tok_pos(toks[j]), tok_pos(toks[j2 - 1])));
            }
        }
        assert(node_ordered(acc2)) by {
            assert forall|q: (usize, usize)| node_positions(acc).contains(q) implies pos_le(
                q,
                (toks[j].line, toks[j].column),
            ) by {
                assert(pos_le(q, tok_pos(toks[j - 1])));
                assert(pos_le(tok_pos(toks[j - 1]), tok_pos(toks[j])));
            }
            assert forall|q: (usize, usize)| node_positions(rhs).contains(q) implies pos_le(
                (toks[j].line, toks[j].column),
                q,
            ) by {
                assert(pos_le(tok_pos(toks[j]), tok_pos(toks[j + 1])));
                assert(pos_le(tok_pos(toks[j + 1]), q));
            }
        }
        lemma_sp_fold_ordered(toks, acc2, lo, j2, p);
    }
}

/// Positions are monotone non-decreasing along the input: on a fragment
/// of a position-monotone token stream, the whole parse tree is
/// position-ordered — an in-order walk of it meets positions in source
/// order.
pub proof fn lemma_fragment_positions_ordered(toks: Seq<Token>)
    requires
        frag(toks, 0),
        toks_monotone(toks),
    ensures
        sp_bin(toks, 0, 1) matches Some(nj) && nj.1 == toks.len() && node_ordered(nj.0),
{
    lemma_sp_bin_on_frag(toks, 0, 1);
    lemma_sp_bin_ordered(toks, 0, 1);
    let (n, j) = sp_bin(toks, 0, 1)->Some_0;
    if j < toks.len() {
        assert(frag_tail(toks, j));
        assert(prec_of(toks[j].kind) < 1 && prec_of(toks[j].kind) >= 1);
    }
}

} // verus!
