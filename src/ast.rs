use vstd::prelude::*;

verus! {

/// The binary operators of the expression language.
#[derive(Clone, Copy, Debug, PartialEq, Eq, Structural)]
pub enum BinOp {
    Add,
    Sub,
    Mul,
    Div,
    Mod,
    Pow,
    Eq,
    Ne,
    Gt,
    Ge,
    Lt,
    Le,
    And,
    Or,
}

/// An expression tree, handed to the execution engine.
///
/// A float literal is kept as its source text: the engine turns it into a number.
#[derive(Debug, PartialEq)]
pub enum Expression {
    Int(i64),
    Float(String),
    Bool(bool),
    Str(String),
    VarRef(String),
    GetMember(Box<Expression>, String),
    Array(Vec<Expression>),
    Object(Vec<(String, Expression)>),
    FnCall(String, Vec<Expression>),
    Binary(BinOp, Box<Expression>, Box<Expression>),
    Not(Box<Expression>),
}

/// A statement of a program.
#[derive(Debug, PartialEq)]
pub enum Statement {
    Assign(String, Expression),
    FnCall(String, Vec<Expression>),
    WhileLoop(Expression, Vec<Statement>),
}

/// The mathematical value of an `Expression`: strings as character sequences,
/// lists as sequences.
pub enum ExprView {
    Int(int),
    Float(Seq<char>),
    Bool(bool),
    Str(Seq<char>),
    VarRef(Seq<char>),
    GetMember(Box<ExprView>, Seq<char>),
    Array(Seq<ExprView>),
    Object(Seq<(Seq<char>, ExprView)>),
    FnCall(Seq<char>, Seq<ExprView>),
    Binary(BinOp, Box<ExprView>, Box<ExprView>),
    Not(Box<ExprView>),
}

/// The mathematical value of a `Statement`.
pub enum StmtView {
    Assign(Seq<char>, ExprView),
    FnCall(Seq<char>, Seq<ExprView>),
    WhileLoop(ExprView, Seq<StmtView>),
}

impl View for Expression {
    type V = ExprView;

    open spec fn view(&self) -> ExprView {
        self.model()
    }
}

impl Expression {
    /// The value of this expression (see `ExprView`).
    pub open spec fn model(&self) -> ExprView
        decreases self,
    {
        match self {
            Expression::Int(v) => ExprView::Int(*v as int),
            Expression::Float(t) => ExprView::Float(t@),
            Expression::Bool(b) => ExprView::Bool(*b),
            Expression::Str(s) => ExprView::Str(s@),
            Expression::VarRef(name) => ExprView::VarRef(name@),
            Expression::GetMember(obj, field) => ExprView::GetMember(Box::new(obj.model()), field@),
            Expression::Array(items) => ExprView::Array(
                Seq::new(
                    items.len() as nat,
                    |i: int|
                        if 0 <= i < items.len() {
                            items[i].model()
                        } else {
                            ExprView::Bool(false)
                        },
                ),
            ),
            Expression::Object(fields) => ExprView::Object(
                Seq::new(
                    fields.len() as nat,
                    |i: int|
                        if 0 <= i < fields.len() {
                            (fields[i].0@, fields[i].1.model())
                        } else {
                            (Seq::empty(), ExprView::Bool(false))
                        },
                ),
            ),
            Expression::FnCall(name, args) => ExprView::FnCall(
                name@,
                Seq::new(
                    args.len() as nat,
                    |i: int|
                        if 0 <= i < args.len() {
                            args[i].model()
                        } else {
                            ExprView::Bool(false)
                        },
                ),
            ),
            Expression::Binary(op, lhs, rhs) => ExprView::Binary(
                *op,
                Box::new(lhs.model()),
                Box::new(rhs.model()),
            ),
            Expression::Not(inner) => ExprView::Not(Box::new(inner.model())),
        }
    }
}

/// The views of a sequence of expressions, in order.
pub open spec fn exprs_view(s: Seq<Expression>) -> Seq<ExprView> {
    Seq::new(s.len(), |i: int| s[i]@)
}

impl View for Statement {
    type V = StmtView;

    open spec fn view(&self) -> StmtView {
        self.model()
    }
}

impl Statement {
    /// The value of this statement (see `StmtView`).
    pub open spec fn model(&self) -> StmtView
        decreases self,
    {
        match self {
            Statement::Assign(name, value) => StmtView::Assign(name@, value@),
            Statement::FnCall(name, args) => StmtView::FnCall(name@, exprs_view(args@)),
            Statement::WhileLoop(cond, body) => StmtView::WhileLoop(
                cond@,
                Seq::new(
                    body.len() as nat,
                    |i: int|
                        if 0 <= i < body.len() {
                            body[i].model()
                        } else {
                            StmtView::Assign(Seq::empty(), ExprView::Bool(false))
                        },
                ),
            ),
        }
    }
}

/// The views of a sequence of statements, in order.
pub open spec fn stmts_view(s: Seq<Statement>) -> Seq<StmtView> {
    Seq::new(s.len(), |i: int| s[i]@)
}

/// The operator that an operator symbol of the grammar stands for, if any.
pub open spec fn op_of_symbol(s: Seq<char>) -> Option<BinOp> {
    if s.len() == 1 {
        if s[0] == '+' {
            Some(BinOp::Add)
        } else if s[0] == '-' {
            Some(BinOp::Sub)
        } else if s[0] == '*' {
            Some(BinOp::Mul)
        } else if s[0] == '/' {
            Some(BinOp::Div)
        } else if s[0] == '%' {
            Some(BinOp::Mod)
        } else if s[0] == '^' {
            Some(BinOp::Pow)
        } else if s[0] == '>' {
            Some(BinOp::Gt)
        } else if s[0] == '<' {
            Some(BinOp::Lt)
        } else {
            None
        }
    } else if s.len() == 2 {
        if s[0] == '=' && s[1] == '=' {
            Some(BinOp::Eq)
        } else if s[0] == '!' && s[1] == '=' {
            Some(BinOp::Ne)
        } else if s[0] == '>' && s[1] == '=' {
            Some(BinOp::Ge)
        } else if s[0] == '<' && s[1] == '=' {
            Some(BinOp::Le)
        } else if s[0] == '&' && s[1] == '&' {
            Some(BinOp::And)
        } else if s[0] == '|' && s[1] == '|' {
            Some(BinOp::Or)
        } else {
            None
        }
    } else {
        None
    }
}

impl BinOp {
    /// The operator written as `symbol`, or `None` for a symbol of no operator.
    pub fn from_symbol(symbol: &str) -> (r: Option<BinOp>)
        ensures
            r == op_of_symbol(symbol@),
    {
        let n = symbol.unicode_len();
        if n == 1 {
            let c = symbol.get_char(0);
            if c == '+' {
                Some(BinOp::Add)
            } else if c == '-' {
                Some(BinOp::Sub)
            } else if c == '*' {
                Some(BinOp::Mul)
            } else if c == '/' {
                Some(BinOp::Div)
            } else if c == '%' {
                Some(BinOp::Mod)
            } else if c == '^' {
                Some(BinOp::Pow)
            } else if c == '>' {
                Some(BinOp::Gt)
            } else if c == '<' {
                Some(BinOp::Lt)
            } else {
                None
            }
        } else if n == 2 {
            let a = symbol.get_char(0);
            let b = symbol.get_char(1);
            if a == '=' && b == '=' {
                Some(BinOp::Eq)
            } else if a == '!' && b == '=' {
                Some(BinOp::Ne)
            } else if a == '>' && b == '=' {
                Some(BinOp::Ge)
            } else if a == '<' && b == '=' {
                Some(BinOp::Le)
            } else if a == '&' && b == '&' {
                Some(BinOp::And)
            } else if a == '|' && b == '|' {
                Some(BinOp::Or)
            } else {
                None
            }
        } else {
            None
        }
    }
}

} // verus!
