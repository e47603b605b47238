//! The abstract syntax tree: programs, statements and expressions as plain data.

use vstd::prelude::*;
use crate::lexer::{Token, TokenView};

verus! {

/// A node of the syntax tree. Every subtree belongs to exactly one parent.
#[derive(Debug)]
pub enum AstNode {
    /// The root: statements in program order.
    Program(Vec<AstNode>),
    /// `name = expression`.
    Assignment(String, Box<AstNode>),
    /// `output expression`.
    Output(Box<AstNode>),
    /// A condition, the statements run when it holds, and the statements run
    /// when it does not; the last are empty when no `else` was written.
    If(Box<AstNode>, Vec<AstNode>, Vec<AstNode>),
    /// A condition and the statements repeated while it holds.
    Loop(Box<AstNode>, Vec<AstNode>),
    /// A left operand, an operator token and a right operand.
    BinOp(Box<AstNode>, Token, Box<AstNode>),
    /// An integer literal.
    Number(i64),
    /// A text literal, taken as written.
    String(String),
    /// A reference to a variable.
    Identifier(String),
}

/// The mathematical value of an [`AstNode`]: the same tree over sequences.
pub enum AstView {
    Program(Seq<AstView>),
    Assignment(Seq<char>, Box<AstView>),
    Output(Box<AstView>),
    If(Box<AstView>, Seq<AstView>, Seq<AstView>),
    Loop(Box<AstView>, Seq<AstView>),
    BinOp(Box<AstView>, TokenView, Box<AstView>),
    Number(i64),
    String(Seq<char>),
    Identifier(Seq<char>),
}

impl AstNode {
    /// The tree that this node stands for.
    pub open spec fn model(self) -> AstView
        decreases self,
    {
        match self {
            AstNode::Program(statements) => AstView::Program(models(statements@)),
            AstNode::Assignment(name, value) => AstView::Assignment(name@, Box::new(value.model())),
            AstNode::Output(value) => AstView::Output(Box::new(value.model())),
            AstNode::If(condition, then_branch, else_branch) => AstView::If(
                Box::new(condition.model()),
                models(then_branch@),
                models(else_branch@),
            ),
            AstNode::Loop(condition, body) => AstView::Loop(
                Box::new(condition.model()),
                models(body@),
            ),
            AstNode::BinOp(left, op, right) => AstView::BinOp(
                Box::new(left.model()),
                op@,
                Box::new(right.model()),
            ),
            AstNode::Number(value) => AstView::Number(value),
            AstNode::String(text) => AstView::String(text@),
            AstNode::Identifier(name) => AstView::Identifier(name@),
        }
    }
}

/// The trees that a list of nodes stands for, in the same order.
pub open spec fn models(nodes: Seq<AstNode>) -> Seq<AstView>
    decreases nodes,
{
    Seq::new(
        nodes.len(),
        |i: int|
            if 0 <= i < nodes.len() {
                nodes[i].model()
            } else {
                AstView::Number(0)
            },
    )
}

impl View for AstNode {
    type V = AstView;

    open spec fn view(&self) -> AstView {
        self.model()
    }
}

/// Appending a node to a list appends its tree to the list's trees.
pub proof fn lemma_models_push(nodes: Seq<AstNode>, node: AstNode)
    ensures
        models(nodes.push(node)) == models(nodes).push(node@),
{
    assert(models(nodes.push(node)) =~= models(nodes).push(node@));
}

} // verus!
