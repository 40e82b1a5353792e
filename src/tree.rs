use vstd::prelude::*;

verus! {

/// The grammatical category of a parse-tree node.
#[derive(Clone, Copy, Debug, PartialEq, Eq, Structural)]
pub enum Rule {
    VariableAssignment,
    FunctionCall,
    WhileLoop,
    Block,
    Expr,
    BareExpr,
    Sum,
    Product,
    Term,
    List,
    Identifier,
    Str,
    Integer,
    Float,
    Boolean,
    EqOps,
    SumOps,
    ProdOps,
    Eoi,
}

/// A node of the tagged tree that the grammar engine produces: its category,
/// the source text it matched, and its children in order.
pub struct ParseNode {
    pub rule: Rule,
    pub text: String,
    pub children: Vec<ParseNode>,
}

impl ParseNode {
    /// A node without children.
    pub fn leaf(rule: Rule, text: String) -> (r: ParseNode)
        ensures
            r.rule == rule,
            r.text == text,
            r.children@.len() == 0,
    {
        ParseNode { rule, text, children: Vec::new() }
    }

    /// A node with the given children and matched text.
    pub fn branch(rule: Rule, text: String, children: Vec<ParseNode>) -> (r: ParseNode)
        ensures
            r.rule == rule,
            r.text == text,
            r.children == children,
    {
        ParseNode { rule, text, children }
    }
}

} // verus!
