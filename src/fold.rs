use vstd::prelude::*;
use std::collections::VecDeque;
use crate::ast::{BinOp, Expression, ExprView};

verus! {

/// What a pending combination of two tokens becomes.
#[derive(Clone, Copy, Debug, PartialEq, Eq, Structural)]
pub enum FoldOp {
    Binary(BinOp),
    /// Logical negation of the left token; the right token is a placeholder.
    Not,
}

/// A token of the fold queue: a finished expression, an operator symbol
/// between two operands, or a combination that is still pending.
pub enum FoldToken {
    Value(Expression),
    Operator(BinOp),
    Operation(FoldOp, Box<FoldToken>, Box<FoldToken>),
}

/// A token that stands for an expression: no bare operator anywhere in it.
pub open spec fn token_ok(t: FoldToken) -> bool
    decreases t,
{
    match t {
        FoldToken::Value(_) => true,
        FoldToken::Operator(_) => false,
        FoldToken::Operation(_, lhs, rhs) => token_ok(*lhs) && token_ok(*rhs),
    }
}

/// The expression that a token stands for.
pub open spec fn token_expr(t: FoldToken) -> ExprView
    decreases t,
{
    match t {
        FoldToken::Value(e) => e@,
        FoldToken::Operator(_) => ExprView::Bool(false),
        FoldToken::Operation(FoldOp::Binary(op), lhs, rhs) => ExprView::Binary(
            op,
            Box::new(token_expr(*lhs)),
            Box::new(token_expr(*rhs)),
        ),
        FoldToken::Operation(FoldOp::Not, lhs, _) => ExprView::Not(Box::new(token_expr(*lhs))),
    }
}

/// The token that `e` becomes: an operator node becomes a pending
/// combination of the tokens of its operands, a negation pairs the token of
/// its operand with the placeholder `true`, any other expression is a value.
pub open spec fn token_of(e: Expression) -> FoldToken
    decreases e,
{
    match e {
        Expression::Binary(op, lhs, rhs) => FoldToken::Operation(
            FoldOp::Binary(op),
            Box::new(token_of(*lhs)),
            Box::new(token_of(*rhs)),
        ),
        Expression::Not(inner) => FoldToken::Operation(
            FoldOp::Not,
            Box::new(token_of(*inner)),
            Box::new(FoldToken::Value(Expression::Bool(true))),
        ),
        _ => FoldToken::Value(e),
    }
}

/// The expression that a token without bare operators becomes: a pending
/// combination becomes an operator node, a pending negation drops its
/// placeholder.
pub open spec fn expr_of_token(t: FoldToken) -> Expression
    decreases t,
{
    match t {
        FoldToken::Value(e) => e,
        FoldToken::Operator(_) => Expression::Bool(false),
        FoldToken::Operation(FoldOp::Binary(op), lhs, rhs) => Expression::Binary(
            op,
            Box::new(expr_of_token(*lhs)),
            Box::new(expr_of_token(*rhs)),
        ),
        FoldToken::Operation(FoldOp::Not, lhs, _) => Expression::Not(Box::new(expr_of_token(*lhs))),
    }
}

/// A token in the form that `token_of` builds: no bare operator, values hold
/// no operator node or negation, and each pending negation carries the
/// placeholder `true`.
pub open spec fn token_canonical(t: FoldToken) -> bool
    decreases t,
{
    match t {
        FoldToken::Value(e) => !(e is Binary) && !(e is Not),
        FoldToken::Operator(_) => false,
        FoldToken::Operation(FoldOp::Binary(_), lhs, rhs) => token_canonical(*lhs)
            && token_canonical(*rhs),
        FoldToken::Operation(FoldOp::Not, lhs, rhs) => token_canonical(*lhs) && *rhs
            == FoldToken::Value(Expression::Bool(true)),
    }
}

/// Turning an expression into a token and back gives the expression again.
pub proof fn expression_token_round_trip(e: Expression)
    ensures
        token_canonical(token_of(e)),
        expr_of_token(token_of(e)) == e,
    decreases e,
{
    match e {
        Expression::Binary(_, lhs, rhs) => {
            expression_token_round_trip(*lhs);
            expression_token_round_trip(*rhs);
        },
        Expression::Not(inner) => {
            expression_token_round_trip(*inner);
        },
        _ => {},
    }
}

/// Turning a canonical token into an expression and back gives the token
/// again.
pub proof fn token_expression_round_trip(t: FoldToken)
    requires
        token_canonical(t),
    ensures
        token_of(expr_of_token(t)) == t,
    decreases t,
{
    match t {
        FoldToken::Operation(_, lhs, rhs) => {
            token_expression_round_trip(*lhs);
            if !(t->Operation_0 is Not) {
                token_expression_round_trip(*rhs);
            }
        },
        _ => {},
    }
}

/// Left-associative fold of `operands` joined by `ops`:
/// `x0 op0 x1 op1 x2` is `(x0 op0 x1) op1 x2`.
pub open spec fn fold_view(operands: Seq<ExprView>, ops: Seq<BinOp>) -> ExprView
    decreases ops.len(),
{
    if ops.len() == 0 || operands.len() == 0 {
        operands[0]
    } else {
        ExprView::Binary(
            ops.last(),
            Box::new(fold_view(operands.drop_last(), ops.drop_last())),
            Box::new(operands.last()),
        )
    }
}

/// A queue that alternates operands and operators, starting and ending on an
/// operand.
pub open spec fn queue_ok(q: Seq<FoldToken>) -> bool {
    &&& q.len() % 2 == 1
    &&& forall|i: int|
        0 <= i < q.len() ==> if i % 2 == 0 {
            token_ok(#[trigger] q[i])
        } else {
            q[i] is Operator
        }
}

/// The operands of an alternating queue, as expressions.
pub open spec fn queue_operands(q: Seq<FoldToken>) -> Seq<ExprView> {
    Seq::new(((q.len() + 1) / 2) as nat, |i: int| token_expr(q[2 * i]))
}

/// The operators of an alternating queue.
pub open spec fn queue_ops(q: Seq<FoldToken>) -> Seq<BinOp> {
    Seq::new((q.len() / 2) as nat, |i: int| q[2 * i + 1]->Operator_0)
}

/// The operands met along the left spine of `e`, `k` operator nodes deep:
/// the innermost left operand first, then each right operand from the inside out.
pub open spec fn spine_operands(e: ExprView, k: nat) -> Seq<ExprView>
    decreases k,
{
    if k == 0 {
        seq![e]
    } else {
        match e {
            ExprView::Binary(_, lhs, rhs) => spine_operands(*lhs, (k - 1) as nat).push(*rhs),
            _ => seq![e],
        }
    }
}

/// The operators met along the left spine of `e`, `k` operator nodes deep,
/// innermost first.
pub open spec fn spine_ops(e: ExprView, k: nat) -> Seq<BinOp>
    decreases k,
{
    if k == 0 {
        Seq::empty()
    } else {
        match e {
            ExprView::Binary(op, lhs, _) => spine_ops(*lhs, (k - 1) as nat).push(op),
            _ => Seq::empty(),
        }
    }
}

/// Whether the left spine of `e` holds at least `k` operator nodes.
pub open spec fn has_spine(e: ExprView, k: nat) -> bool
    decreases k,
{
    k == 0 || (e matches ExprView::Binary(_, lhs, _) && has_spine(*lhs, (k - 1) as nat))
}

/// Flattening a folded level back into operands and operators gives the
/// level's own operands and operators, in their order.
pub proof fn flatten_after_fold(operands: Seq<ExprView>, ops: Seq<BinOp>)
    requires
        operands.len() == ops.len() + 1,
    ensures
        has_spine(fold_view(operands, ops), ops.len()),
        spine_operands(fold_view(operands, ops), ops.len()) == operands,
        spine_ops(fold_view(operands, ops), ops.len()) == ops,
    decreases ops.len(),
{
    if ops.len() == 0 {
        assert(seq![operands[0]] =~= operands);
        assert(spine_ops(fold_view(operands, ops), 0) =~= ops);
    } else {
        flatten_after_fold(operands.drop_last(), ops.drop_last());
        assert(operands.drop_last().push(operands.last()) =~= operands);
        assert(ops.drop_last().push(ops.last()) =~= ops);
    }
}

/// Folding the operands and operators of a left spine again rebuilds the
/// expression: the fold is left-associative on its own output.
pub proof fn fold_after_flatten(e: ExprView, k: nat)
    requires
        has_spine(e, k),
    ensures
        spine_operands(e, k).len() == spine_ops(e, k).len() + 1,
        fold_view(spine_operands(e, k), spine_ops(e, k)) == e,
    decreases k,
{
    if k > 0 {
        if let ExprView::Binary(op, lhs, rhs) = e {
            fold_after_flatten(*lhs, (k - 1) as nat);
            let xs = spine_operands(e, k);
            let os = spine_ops(e, k);
            assert(xs.drop_last() =~= spine_operands(*lhs, (k - 1) as nat));
            assert(os.drop_last() =~= spine_ops(*lhs, (k - 1) as nat));
        }
    }
}

/// Operators of one level group to the left: `a - b - c` is `(a - b) - c`.
pub proof fn subtraction_groups_left(a: ExprView, b: ExprView, c: ExprView)
    ensures
        fold_view(seq![a, b, c], seq![BinOp::Sub, BinOp::Sub]) == ExprView::Binary(
            BinOp::Sub,
            Box::new(ExprView::Binary(BinOp::Sub, Box::new(a), Box::new(b))),
            Box::new(c),
        ),
{
    let xs = seq![a, b, c];
    let ops = seq![BinOp::Sub, BinOp::Sub];
    assert(xs.drop_last() =~= seq![a, b]);
    assert(ops.drop_last() =~= seq![BinOp::Sub]);
    assert(seq![a, b].drop_last() =~= seq![a]);
    assert(seq![BinOp::Sub].drop_last() =~= Seq::<BinOp>::empty());
    assert(fold_view(seq![a], Seq::empty()) == a);
    assert(fold_view(seq![a, b], seq![BinOp::Sub]) == ExprView::Binary(
        BinOp::Sub,
        Box::new(a),
        Box::new(b),
    ));
}

impl FoldToken {
    /// The token that stands for `val`: an operator node becomes a pending
    /// combination, a negation pairs its operand with the placeholder `true`.
    pub fn from_expression(val: Expression) -> (r: FoldToken)
        ensures
            r == token_of(val),
            token_ok(r),
            token_expr(r) == val@,
        decreases val,
    {
        match val {
            Expression::Binary(op, lhs, rhs) => {
                let left = FoldToken::from_expression(*lhs);
                let right = FoldToken::from_expression(*rhs);
                FoldToken::Operation(FoldOp::Binary(op), Box::new(left), Box::new(right))
            },
            Expression::Not(inner) => {
                let operand = FoldToken::from_expression(*inner);
                let placeholder = FoldToken::Value(Expression::Bool(true));
                assert(token_ok(placeholder));
                FoldToken::Operation(FoldOp::Not, Box::new(operand), Box::new(placeholder))
            },
            other => FoldToken::Value(other),
        }
    }

    /// The expression this token stands for.
    pub fn to_expression(self) -> (r: Expression)
        requires
            token_ok(self),
        ensures
            r == expr_of_token(self),
            r@ == token_expr(self),
        decreases self,
    {
        match self {
            FoldToken::Value(val) => val,
            FoldToken::Operator(_) => {
                proof {
                    assert(false);
                }
                Expression::Bool(false)
            },
            FoldToken::Operation(op, lhs, rhs) => {
                let left = Box::new(lhs.to_expression());
                let right = Box::new(rhs.to_expression());
                match op {
                    FoldOp::Binary(b) => Expression::Binary(b, left, right),
                    FoldOp::Not => Expression::Not(left),
                }
            },
        }
    }

    /// Folds an alternating queue of operands and operators strictly from
    /// left to right into one expression.
    pub fn fold_queue(queue: VecDeque<FoldToken>) -> (r: Expression)
        requires
            queue_ok(queue@),
        ensures
            r@ == fold_view(queue_operands(queue@), queue_ops(queue@)),
    {
        let ghost q = queue@;
        let ghost xs = queue_operands(q);
        let ghost ops = queue_ops(q);
        let mut vd = queue;
        let mut left = match vd.pop_front() {
            Some(t) => t,
            None => {
                proof {
                    assert(false);
                }
                FoldToken::Value(Expression::Bool(false))
            },
        };
        let ghost mut j: int = 0;
        proof {
            assert(q[0] == q[2 * 0int]);
            assert(xs.take(1).drop_last().len() == 0);
            assert(ops.take(0).len() == 0);
        }
        while vd.len() > 0
            invariant
                queue_ok(q),
                xs == queue_operands(q),
                ops == queue_ops(q),
                0 <= j <= ops.len(),
                vd@ == q.subrange(2 * j + 1, q.len() as int),
                token_ok(left),
                token_expr(left) == fold_view(xs.take(j + 1), ops.take(j)),
            decreases vd@.len(),
        {
            assert(q[2 * j + 1] is Operator);
            assert(q[2 * (j + 1)] == q[2 * j + 2]);
            let op = match vd.pop_front() {
                Some(FoldToken::Operator(op)) => op,
                _ => {
                    proof {
                        assert(false);
                    }
                    BinOp::Add
                },
            };
            let right = match vd.pop_front() {
                Some(t) => t,
                None => {
                    proof {
                        assert(false);
                    }
                    FoldToken::Value(Expression::Bool(false))
                },
            };
            left = FoldToken::Operation(FoldOp::Binary(op), Box::new(left), Box::new(right));
            proof {
                let xs2 = xs.take(j + 2);
                let ops2 = ops.take(j + 1);
                assert(xs2.drop_last() =~= xs.take(j + 1));
                assert(ops2.drop_last() =~= ops.take(j));
                assert(xs2.last() == token_expr(right));
                assert(ops2.last() == op);
                j = j + 1;
            }
        }
        proof {
            assert(xs.take(j + 1) =~= xs);
            assert(ops.take(j) =~= ops);
        }
        left.to_expression()
    }
}

} // verus!
