use vstd::prelude::*;
use std::collections::VecDeque;
use crate::ast::{op_of_symbol, stmts_view, BinOp, ExprView, Expression, Statement, StmtView};
use crate::fold::{fold_view, queue_ok, queue_operands, queue_ops, token_expr, token_ok, FoldToken};
use crate::literal::{
    int_literal_value, is_bool_literal, is_float_literal, is_int_literal, parse_boolean, parse_integer,
    strip_quotes, true_text, unquoted,
};
use crate::tree::{ParseNode, Rule};

verus! {

/// Whether `rule` is one of the precedence levels.
pub open spec fn is_level(rule: Rule) -> bool {
    rule == Rule::BareExpr || rule == Rule::Sum || rule == Rule::Product
}

/// The category of the operator symbols of a precedence level.
pub open spec fn op_rule_of(rule: Rule) -> Rule {
    if rule == Rule::BareExpr {
        Rule::EqOps
    } else if rule == Rule::Sum {
        Rule::SumOps
    } else {
        Rule::ProdOps
    }
}

/// The operands of a precedence level: its children at even positions.
pub open spec fn level_operands(c: Seq<ParseNode>) -> Seq<ExprView>
    decreases c,
{
    Seq::new(
        ((c.len() + 1) / 2) as nat,
        |i: int|
            if 0 <= 2 * i < c.len() {
                expr_of(c[2 * i])
            } else {
                ExprView::Bool(false)
            },
    )
}

/// The operators of a precedence level: its children at odd positions.
pub open spec fn level_ops(c: Seq<ParseNode>) -> Seq<BinOp> {
    Seq::new((c.len() / 2) as nat, |i: int| op_of_symbol(c[2 * i + 1].text@)->Some_0)
}

/// The expressions of the children of `c` from position `from` on.
pub open spec fn exprs_from(c: Seq<ParseNode>, from: int) -> Seq<ExprView> {
    Seq::new((c.len() - from) as nat, |i: int| expr_of(c[i + from]))
}

/// The expression that a well-formed node stands for.
pub open spec fn expr_of(n: ParseNode) -> ExprView
    decreases n,
{
    let c = n.children;
    match n.rule {
        Rule::Identifier => ExprView::VarRef(n.text@),
        Rule::Str => ExprView::Str(unquoted(n.text@)),
        Rule::Float => ExprView::Float(n.text@),
        Rule::Integer => ExprView::Int(int_literal_value(n.text@)),
        Rule::Boolean => ExprView::Bool(n.text@ == true_text()),
        Rule::FunctionCall => ExprView::FnCall(
            c[0].text@,
            Seq::new(
                (c.len() - 1) as nat,
                |i: int|
                    if 0 <= i && i + 1 < c.len() {
                        expr_of(c[i + 1])
                    } else {
                        ExprView::Bool(false)
                    },
            ),
        ),
        Rule::List => ExprView::Array(
            Seq::new(
                c.len() as nat,
                |i: int|
                    if 0 <= i < c.len() {
                        expr_of(c[i])
                    } else {
                        ExprView::Bool(false)
                    },
            ),
        ),
        Rule::Expr | Rule::Term => if c.len() > 0 {
            expr_of(c[0])
        } else {
            ExprView::Bool(false)
        },
        Rule::BareExpr | Rule::Sum | Rule::Product => fold_view(
            level_operands(c@),
            level_ops(c@),
        ),
        _ => ExprView::Bool(false),
    }
}

/// Whether a node has the shape that the grammar promises for an expression.
pub open spec fn expr_wf(n: ParseNode) -> bool
    decreases n,
{
    let c = n.children;
    match n.rule {
        Rule::Identifier => true,
        Rule::Float => is_float_literal(n.text@),
        Rule::Str => n.text@.len() >= 2,
        Rule::Integer => is_int_literal(n.text@),
        Rule::Boolean => is_bool_literal(n.text@),
        Rule::FunctionCall => c.len() >= 1 && forall|i: int|
            1 <= i < c.len() ==> expr_wf(#[trigger] c[i]),
        Rule::List => forall|i: int| 0 <= i < c.len() ==> expr_wf(#[trigger] c[i]),
        Rule::Expr | Rule::Term => c.len() >= 1 && expr_wf(c[0]),
        Rule::BareExpr | Rule::Sum | Rule::Product => c.len() % 2 == 1 && forall|i: int|
            0 <= i < c.len() ==> if i % 2 == 0 {
                expr_wf(#[trigger] c[i])
            } else {
                c[i].rule == op_rule_of(n.rule) && op_of_symbol(c[i].text@) is Some
            },
        _ => false,
    }
}

/// Translates the children of `c` from position `from` on, in order.
fn translate_from(c: &Vec<ParseNode>, from: usize) -> (r: Vec<Expression>)
    requires
        from <= c@.len(),
        forall|i: int| from <= i < c@.len() ==> expr_wf(#[trigger] c@[i]),
    ensures
        r@.len() == c@.len() - from,
        forall|i: int| 0 <= i < r@.len() ==> (#[trigger] r@[i])@ == expr_of(c@[i + from]),
    decreases *c, 0nat,
{
    let mut r: Vec<Expression> = Vec::new();
    let mut i: usize = from;
    while i < c.len()
        invariant
            from <= i <= c@.len(),
            forall|k: int| from <= k < c@.len() ==> expr_wf(#[trigger] c@[k]),
            r@.len() == i - from,
            forall|k: int| 0 <= k < r@.len() ==> (#[trigger] r@[k])@ == expr_of(c@[k + from]),
        decreases c@.len() - i,
    {
        r.push(eval_from_rule(&c[i]));
        i = i + 1;
    }
    r
}

/// Translates one precedence level: its operands in order, joined by its
/// operators, folded from left to right. A single operand is returned as it
/// is.
fn translate_level(node: &ParseNode) -> (r: Expression)
    requires
        is_level(node.rule),
        expr_wf(*node),
    ensures
        r@ == expr_of(*node),
    decreases *node, 0nat,
{
    let c = &node.children;
    let op_rule = if node.rule == Rule::BareExpr {
        Rule::EqOps
    } else if node.rule == Rule::Sum {
        Rule::SumOps
    } else {
        Rule::ProdOps
    };
    let ghost cs = c@;
    let ghost xs = level_operands(cs);
    if c.len() == 1 {
        assert(xs[0] == expr_of(cs[0]));
        assert(level_ops(cs).len() == 0);
        return eval_from_rule(&c[0]);
    }
    let mut items: VecDeque<FoldToken> = VecDeque::new();
    let mut i: usize = 0;
    while i < node.children.len()
        invariant
            cs == node.children@,
            cs.len() % 2 == 1,
            op_rule == op_rule_of(node.rule),
            forall|k: int|
                0 <= k < cs.len() ==> if k % 2 == 0 {
                    expr_wf(#[trigger] cs[k])
                } else {
                    cs[k].rule == op_rule && op_of_symbol(cs[k].text@) is Some
                },
            0 <= i <= cs.len(),
            items@.len() == i,
            forall|k: int|
                0 <= k < i ==> if k % 2 == 0 {
                    token_ok(#[trigger] items@[k]) && token_expr(items@[k]) == expr_of(cs[k])
                } else {
                    items@[k] == FoldToken::Operator(op_of_symbol(cs[k].text@)->Some_0)
                },
        decreases cs.len() - i,
    {
        if node.children[i].rule == op_rule {
            assert(i % 2 == 1) by {
                if i % 2 == 0 {
                    assert(expr_wf(cs[i as int]));
                }
            }
            let op = match BinOp::from_symbol(node.children[i].text.as_str()) {
                Some(op) => op,
                None => {
                    proof {
                        assert(false);
                    }
                    BinOp::Add
                },
            };
            items.push_back(FoldToken::Operator(op));
        } else {
            let value = eval_from_rule(&node.children[i]);
            items.push_back(FoldToken::Value(value));
        }
        i = i + 1;
    }
    proof {
        let q = items@;
        assert(queue_ok(q)) by {
            assert forall|k: int| 0 <= k < q.len() implies if k % 2 == 0 {
                token_ok(#[trigger] q[k])
            } else {
                q[k] is Operator
            } by {}
        }
        assert(queue_operands(q) =~= xs) by {
            assert forall|k: int| 0 <= k < xs.len() implies queue_operands(q)[k] == xs[k] by {
                assert(token_expr(q[2 * k]) == expr_of(cs[2 * k]));
            }
        }
        assert(queue_ops(q) =~= level_ops(cs));
    }
    FoldToken::fold_queue(items)
}

/// Translates an expression node of the tagged tree into an expression.
///
/// Leaves become literals and variable references, a call and a list
/// translate their children in order, the wrapper categories pass their
/// child through, and each precedence level folds its operands from left
/// to right.
pub fn eval_from_rule(rule: &ParseNode) -> (r: Expression)
    requires
        expr_wf(*rule),
    ensures
        r@ == expr_of(*rule),
    decreases *rule, 1nat,
{
    match rule.rule {
        Rule::Identifier => Expression::VarRef(rule.text.clone()),
        Rule::Str => Expression::Str(strip_quotes(rule.text.as_str())),
        Rule::Float => Expression::Float(rule.text.clone()),
        Rule::Integer => Expression::Int(parse_integer(rule.text.as_str())),
        Rule::Boolean => Expression::Bool(parse_boolean(rule.text.as_str())),
        Rule::FunctionCall => {
            let name = rule.children[0].text.clone();
            let args = translate_from(&rule.children, 1);
            let r = Expression::FnCall(name, args);
            proof {
                let got = r@->FnCall_1;
                let want = expr_of(*rule)->FnCall_1;
                assert(got =~= want) by {
                    assert forall|i: int| 0 <= i < want.len() implies got[i] == want[i] by {
                        assert(args@[i]@ == expr_of(rule.children@[i + 1]));
                    }
                }
            }
            r
        },
        Rule::List => {
            let items = translate_from(&rule.children, 0);
            let r = Expression::Array(items);
            proof {
                let got = r@->Array_0;
                let want = expr_of(*rule)->Array_0;
                assert(got =~= want) by {
                    assert forall|i: int| 0 <= i < want.len() implies got[i] == want[i] by {
                        assert(items@[i]@ == expr_of(rule.children@[i + 0]));
                    }
                }
            }
            r
        },
        Rule::Expr | Rule::Term => eval_from_rule(&rule.children[0]),
        Rule::BareExpr | Rule::Sum | Rule::Product => translate_level(rule),
        _ => {
            proof {
                assert(false);
            }
            Expression::Bool(false)
        },
    }
}

/// The statement that a well-formed node stands for.
pub open spec fn stmt_of(n: ParseNode) -> StmtView
    decreases n,
{
    let c = n.children;
    match n.rule {
        Rule::VariableAssignment => StmtView::Assign(c[0].text@, expr_of(c[1])),
        Rule::FunctionCall => StmtView::FnCall(c[0].text@, exprs_from(c@, 1)),
        Rule::WhileLoop => StmtView::WhileLoop(
            expr_of(c[0]),
            if c.len() > 1 {
                Seq::new(
                    c[1].children.len() as nat,
                    |i: int|
                        if 0 <= i < c[1].children.len() {
                            stmt_of(c[1].children[i])
                        } else {
                            StmtView::Assign(Seq::empty(), ExprView::Bool(false))
                        },
                )
            } else {
                Seq::empty()
            },
        ),
        _ => StmtView::Assign(Seq::empty(), ExprView::Bool(false)),
    }
}

/// Whether a node has the shape that the grammar promises for a statement.
pub open spec fn stmt_wf(n: ParseNode) -> bool
    decreases n,
{
    let c = n.children;
    match n.rule {
        Rule::VariableAssignment => c.len() >= 2 && expr_wf(c[1]),
        Rule::FunctionCall => c.len() >= 1 && forall|i: int|
            1 <= i < c.len() ==> expr_wf(#[trigger] c[i]),
        Rule::WhileLoop => c.len() >= 2 && expr_wf(c[0]) && forall|i: int|
            0 <= i < c[1].children.len() ==> stmt_wf(#[trigger] c[1].children[i]),
        _ => false,
    }
}

/// Translates a statement node of the tagged tree: an assignment, a bare
/// call, or a while-loop whose block is translated statement by statement.
pub fn single_parse(pair: &ParseNode) -> (r: Statement)
    requires
        stmt_wf(*pair),
    ensures
        r@ == stmt_of(*pair),
    decreases *pair,
{
    match pair.rule {
        Rule::VariableAssignment => {
            let name = pair.children[0].text.clone();
            let value = eval_from_rule(&pair.children[1]);
            Statement::Assign(name, value)
        },
        Rule::FunctionCall => {
            let name = pair.children[0].text.clone();
            let args = translate_from(&pair.children, 1);
            let r = Statement::FnCall(name, args);
            assert(r@->FnCall_1 =~= stmt_of(*pair)->FnCall_1);
            r
        },
        Rule::WhileLoop => {
            let condition = eval_from_rule(&pair.children[0]);
            let mut body: Vec<Statement> = Vec::new();
            let mut i: usize = 0;
            while i < pair.children[1].children.len()
                invariant
                    stmt_wf(*pair),
                    pair.rule == Rule::WhileLoop,
                    0 <= i <= pair.children[1].children.len(),
                    body@.len() == i,
                    forall|k: int|
                        0 <= k < i ==> (#[trigger] body@[k])@ == stmt_of(pair.children[1].children[k]),
                decreases pair.children[1].children.len() - i,
            {
                body.push(single_parse(&pair.children[1].children[i]));
                i = i + 1;
            }
            let r = Statement::WhileLoop(condition, body);
            proof {
                let got = r@->WhileLoop_1;
                let want = stmt_of(*pair)->WhileLoop_1;
                assert(got =~= want) by {
                    assert forall|k: int| 0 <= k < want.len() implies got[k] == want[k] by {
                        assert(body@[k]@ == stmt_of(pair.children[1].children[k]));
                    }
                }
            }
            r
        },
        _ => {
            proof {
                assert(false);
            }
            Statement::Assign(String::new(), Expression::Bool(false))
        },
    }
}

/// The statements of a top-level node sequence, up to its first
/// end-of-input marker.
pub open spec fn program_of(s: Seq<ParseNode>) -> Seq<StmtView>
    decreases s.len(),
{
    if s.len() == 0 || s[0].rule == Rule::Eoi {
        Seq::empty()
    } else {
        seq![stmt_of(s[0])] + program_of(s.drop_first())
    }
}

/// Whether every node of a top-level sequence before its first end-of-input
/// marker is a well-formed statement.
pub open spec fn program_wf(s: Seq<ParseNode>) -> bool
    decreases s.len(),
{
    s.len() == 0 || s[0].rule == Rule::Eoi || (stmt_wf(s[0]) && program_wf(s.drop_first()))
}

/// Translates the top-level node sequence of a program, in order, stopping
/// at the end-of-input marker.
pub fn parse_data(data: &Vec<ParseNode>) -> (r: Vec<Statement>)
    requires
        program_wf(data@),
    ensures
        stmts_view(r@) == program_of(data@),
{
    let mut nodes: Vec<Statement> = Vec::new();
    let mut i: usize = 0;
    proof {
        assert(data@.subrange(0, data@.len() as int) =~= data@);
        assert(stmts_view(nodes@) + program_of(data@) =~= program_of(data@));
    }
    while i < data.len()
        invariant
            0 <= i <= data@.len(),
            program_wf(data@.subrange(i as int, data@.len() as int)),
            stmts_view(nodes@) + program_of(data@.subrange(i as int, data@.len() as int))
                == program_of(data@),
        decreases data@.len() - i,
    {
        let ghost rest = data@.subrange(i as int, data@.len() as int);
        if data[i].rule == Rule::Eoi {
            assert(program_of(rest).len() == 0);
            assert(stmts_view(nodes@) =~= stmts_view(nodes@) + program_of(rest));
            return nodes;
        }
        let ghost before = stmts_view(nodes@);
        nodes.push(single_parse(&data[i]));
        proof {
            assert(rest.drop_first() =~= data@.subrange(i + 1, data@.len() as int));
            assert(stmts_view(nodes@) =~= before.push(stmt_of(rest[0])));
            assert(stmts_view(nodes@) + program_of(rest.drop_first()) =~= before + program_of(rest));
        }
        i = i + 1;
    }
    proof {
        let rest = data@.subrange(i as int, data@.len() as int);
        assert(program_of(rest) =~= Seq::empty());
        assert(stmts_view(nodes@) =~= stmts_view(nodes@) + program_of(rest));
    }
    nodes
}

/// A precedence level with a single operand stands for that operand itself:
/// no operator node is put around it.
pub proof fn single_operand_level(n: ParseNode)
    requires
        is_level(n.rule),
        n.children.len() == 1,
    ensures
        expr_of(n) == expr_of(n.children[0]),
{
    assert(level_ops(n.children@).len() == 0);
    assert(level_operands(n.children@)[0] == expr_of(n.children[0]));
}

/// A program whose top-level sequence starts with the end-of-input marker
/// has no statements.
pub proof fn end_marker_only_program(s: Seq<ParseNode>)
    requires
        s.len() >= 1,
        s[0].rule == Rule::Eoi,
    ensures
        program_wf(s),
        program_of(s) == Seq::<StmtView>::empty(),
{
}

} // verus!
