use std::collections::VecDeque;

use qahl_front::ast::{BinOp, Expression, Statement};
use qahl_front::fold::{FoldOp, FoldToken};
use qahl_front::literal::{parse_boolean, parse_integer, strip_quotes};
use qahl_front::translate::{eval_from_rule, parse_data, single_parse};
use qahl_front::tree::{ParseNode, Rule};

fn leaf(rule: Rule, text: &str) -> ParseNode {
    ParseNode::leaf(rule, text.to_string())
}

fn node(rule: Rule, children: Vec<ParseNode>) -> ParseNode {
    ParseNode::branch(rule, String::new(), children)
}

fn int_lit(v: i64) -> Expression {
    Expression::Int(v)
}

fn var(name: &str) -> Expression {
    Expression::VarRef(name.to_string())
}

fn bin(op: BinOp, lhs: Expression, rhs: Expression) -> Expression {
    Expression::Binary(op, Box::new(lhs), Box::new(rhs))
}

#[test]
fn single_operand_level_is_unwrapped() {
    let n = node(Rule::Sum, vec![leaf(Rule::Integer, "7")]);
    assert_eq!(eval_from_rule(&n), int_lit(7));
    let n = node(Rule::Product, vec![leaf(Rule::Identifier, "x")]);
    assert_eq!(eval_from_rule(&n), var("x"));
}

#[test]
fn subtraction_folds_to_the_left() {
    let n = node(
        Rule::Sum,
        vec![
            leaf(Rule::Identifier, "a"),
            leaf(Rule::SumOps, "-"),
            leaf(Rule::Identifier, "b"),
            leaf(Rule::SumOps, "-"),
            leaf(Rule::Identifier, "c"),
        ],
    );
    let expected = bin(BinOp::Sub, bin(BinOp::Sub, var("a"), var("b")), var("c"));
    assert_eq!(eval_from_rule(&n), expected);
    assert_ne!(
        eval_from_rule(&n),
        bin(BinOp::Sub, var("a"), bin(BinOp::Sub, var("b"), var("c")))
    );
}

fn term_int(text: &str) -> ParseNode {
    node(Rule::Term, vec![leaf(Rule::Integer, text)])
}

#[test]
fn multiplication_nests_inside_addition() {
    // 2 + 3 * 4
    let product_left = node(Rule::Product, vec![term_int("2")]);
    let product_right = node(
        Rule::Product,
        vec![term_int("3"), leaf(Rule::ProdOps, "*"), term_int("4")],
    );
    let sum = node(
        Rule::Sum,
        vec![product_left, leaf(Rule::SumOps, "+"), product_right],
    );
    let tree = node(Rule::Expr, vec![node(Rule::BareExpr, vec![sum])]);
    let expected = bin(BinOp::Add, int_lit(2), bin(BinOp::Mul, int_lit(3), int_lit(4)));
    assert_eq!(eval_from_rule(&tree), expected);
}

#[test]
fn string_literal_loses_its_quotes() {
    let n = leaf(Rule::Str, "\"hello\"");
    assert_eq!(eval_from_rule(&n), Expression::Str("hello".to_string()));
    let n = leaf(Rule::Str, "\"\"");
    assert_eq!(eval_from_rule(&n), Expression::Str(String::new()));
    let n = leaf(Rule::Str, "\"a\\n\"");
    assert_eq!(eval_from_rule(&n), Expression::Str("a\\n".to_string()));
}

fn assignment(name: &str, value: ParseNode) -> ParseNode {
    node(Rule::VariableAssignment, vec![leaf(Rule::Identifier, name), value])
}

fn call(name: &str, args: Vec<ParseNode>) -> ParseNode {
    let mut children = vec![leaf(Rule::Identifier, name)];
    children.extend(args);
    node(Rule::FunctionCall, children)
}

#[test]
fn while_loop_keeps_its_body_in_order() {
    let cond = node(
        Rule::BareExpr,
        vec![
            leaf(Rule::Identifier, "i"),
            leaf(Rule::EqOps, "<"),
            leaf(Rule::Integer, "10"),
        ],
    );
    let body = node(
        Rule::Block,
        vec![
            assignment("i", leaf(Rule::Integer, "1")),
            call("print", vec![leaf(Rule::Identifier, "i")]),
        ],
    );
    let w = node(Rule::WhileLoop, vec![cond, body]);
    let expected = Statement::WhileLoop(
        bin(BinOp::Lt, var("i"), int_lit(10)),
        vec![
            Statement::Assign("i".to_string(), int_lit(1)),
            Statement::FnCall("print".to_string(), vec![var("i")]),
        ],
    );
    assert_eq!(single_parse(&w), expected);
}

#[test]
fn nested_while_loops() {
    let inner = node(
        Rule::WhileLoop,
        vec![leaf(Rule::Boolean, "false"), node(Rule::Block, vec![])],
    );
    let outer = node(
        Rule::WhileLoop,
        vec![leaf(Rule::Boolean, "true"), node(Rule::Block, vec![inner])],
    );
    let expected = Statement::WhileLoop(
        Expression::Bool(true),
        vec![Statement::WhileLoop(Expression::Bool(false), vec![])],
    );
    assert_eq!(single_parse(&outer), expected);
}

#[test]
fn end_marker_alone_gives_no_statements() {
    let program = vec![leaf(Rule::Eoi, "")];
    assert_eq!(parse_data(&program), vec![]);
    assert_eq!(parse_data(&vec![]), vec![]);
}

#[test]
fn program_stops_at_the_end_marker() {
    let program = vec![
        assignment("x", leaf(Rule::Integer, "1")),
        call("show", vec![leaf(Rule::Identifier, "x")]),
        leaf(Rule::Eoi, ""),
        assignment("y", leaf(Rule::Integer, "2")),
    ];
    let expected = vec![
        Statement::Assign("x".to_string(), int_lit(1)),
        Statement::FnCall("show".to_string(), vec![var("x")]),
    ];
    assert_eq!(parse_data(&program), expected);
}

#[test]
fn leaves_translate_to_literals() {
    assert_eq!(eval_from_rule(&leaf(Rule::Integer, "42")), int_lit(42));
    assert_eq!(eval_from_rule(&leaf(Rule::Integer, "-17")), int_lit(-17));
    assert_eq!(eval_from_rule(&leaf(Rule::Integer, "+5")), int_lit(5));
    assert_eq!(eval_from_rule(&leaf(Rule::Boolean, "true")), Expression::Bool(true));
    assert_eq!(eval_from_rule(&leaf(Rule::Boolean, "false")), Expression::Bool(false));
    assert_eq!(
        eval_from_rule(&leaf(Rule::Float, "2.5")),
        Expression::Float("2.5".to_string())
    );
    assert_eq!(
        eval_from_rule(&leaf(Rule::Float, "-0.25")),
        Expression::Float("-0.25".to_string())
    );
    assert_eq!(eval_from_rule(&leaf(Rule::Identifier, "count")), var("count"));
}

#[test]
fn integer_limits() {
    assert_eq!(parse_integer("9223372036854775807"), i64::MAX);
    assert_eq!(parse_integer("-9223372036854775808"), i64::MIN);
    assert_eq!(parse_integer("0"), 0);
    assert_eq!(parse_integer("007"), 7);
    assert!(parse_boolean("true"));
    assert!(!parse_boolean("false"));
    assert_eq!(strip_quotes("'ab'"), "ab".to_string());
}

#[test]
fn calls_and_lists_keep_argument_order() {
    let n = call(
        "max",
        vec![leaf(Rule::Integer, "1"), leaf(Rule::Identifier, "y")],
    );
    assert_eq!(
        eval_from_rule(&n),
        Expression::FnCall("max".to_string(), vec![int_lit(1), var("y")])
    );
    let l = node(
        Rule::List,
        vec![leaf(Rule::Integer, "3"), leaf(Rule::Str, "\"s\""), node(Rule::List, vec![])],
    );
    assert_eq!(
        eval_from_rule(&l),
        Expression::Array(vec![
            int_lit(3),
            Expression::Str("s".to_string()),
            Expression::Array(vec![])
        ])
    );
    assert_eq!(eval_from_rule(&call("now", vec![])), Expression::FnCall("now".to_string(), vec![]));
}

#[test]
fn comparison_level_folds_left() {
    let n = node(
        Rule::BareExpr,
        vec![
            leaf(Rule::Identifier, "a"),
            leaf(Rule::EqOps, "=="),
            leaf(Rule::Identifier, "b"),
            leaf(Rule::EqOps, "&&"),
            leaf(Rule::Identifier, "c"),
        ],
    );
    let expected = bin(BinOp::And, bin(BinOp::Eq, var("a"), var("b")), var("c"));
    assert_eq!(eval_from_rule(&n), expected);
}

#[test]
fn operator_symbols() {
    let table = [
        ("+", BinOp::Add),
        ("-", BinOp::Sub),
        ("*", BinOp::Mul),
        ("/", BinOp::Div),
        ("%", BinOp::Mod),
        ("^", BinOp::Pow),
        ("==", BinOp::Eq),
        ("!=", BinOp::Ne),
        (">", BinOp::Gt),
        (">=", BinOp::Ge),
        ("<", BinOp::Lt),
        ("<=", BinOp::Le),
        ("&&", BinOp::And),
        ("||", BinOp::Or),
    ];
    for (symbol, op) in table {
        assert_eq!(BinOp::from_symbol(symbol), Some(op));
    }
    assert_eq!(BinOp::from_symbol("=>"), None);
    assert_eq!(BinOp::from_symbol("!"), None);
    assert_eq!(BinOp::from_symbol(""), None);
    assert_eq!(BinOp::from_symbol("+++"), None);
}

#[test]
fn expression_round_trips_through_fold_tokens() {
    let e = bin(
        BinOp::Or,
        Expression::Not(Box::new(bin(BinOp::Div, int_lit(1), var("z")))),
        bin(BinOp::Pow, Expression::Str("q".to_string()), int_lit(2)),
    );
    let expected = bin(
        BinOp::Or,
        Expression::Not(Box::new(bin(BinOp::Div, int_lit(1), var("z")))),
        bin(BinOp::Pow, Expression::Str("q".to_string()), int_lit(2)),
    );
    let token = FoldToken::from_expression(e);
    match &token {
        FoldToken::Operation(FoldOp::Binary(BinOp::Or), lhs, _) => match lhs.as_ref() {
            FoldToken::Operation(FoldOp::Not, _, placeholder) => {
                assert!(matches!(placeholder.as_ref(), FoldToken::Value(Expression::Bool(true))));
            }
            _ => panic!("negation is not a pending combination"),
        },
        _ => panic!("operator node is not a pending combination"),
    }
    assert_eq!(token.to_expression(), expected);
}

#[test]
fn queue_folds_left_and_flattens_back() {
    let mut queue = VecDeque::new();
    queue.push_back(FoldToken::Value(int_lit(8)));
    queue.push_back(FoldToken::Operator(BinOp::Div));
    queue.push_back(FoldToken::Value(int_lit(4)));
    queue.push_back(FoldToken::Operator(BinOp::Mod));
    queue.push_back(FoldToken::Value(int_lit(3)));
    let folded = FoldToken::fold_queue(queue);
    assert_eq!(folded, bin(BinOp::Mod, bin(BinOp::Div, int_lit(8), int_lit(4)), int_lit(3)));

    // flatten the left spine and fold the pieces again
    let mut operands = Vec::new();
    let mut ops = Vec::new();
    let mut cur = folded;
    loop {
        match cur {
            Expression::Binary(op, lhs, rhs) => {
                operands.push(*rhs);
                ops.push(op);
                cur = *lhs;
            }
            other => {
                operands.push(other);
                break;
            }
        }
    }
    assert_eq!(ops, vec![BinOp::Mod, BinOp::Div]);
    let mut queue = VecDeque::new();
    let mut operands = operands.into_iter().rev();
    queue.push_back(FoldToken::Value(operands.next().unwrap()));
    for (op, value) in ops.into_iter().rev().zip(operands) {
        queue.push_back(FoldToken::Operator(op));
        queue.push_back(FoldToken::Value(value));
    }
    assert_eq!(
        FoldToken::fold_queue(queue),
        bin(BinOp::Mod, bin(BinOp::Div, int_lit(8), int_lit(4)), int_lit(3))
    );

    let mut single = VecDeque::new();
    single.push_back(FoldToken::Value(var("only")));
    assert_eq!(FoldToken::fold_queue(single), var("only"));
}
