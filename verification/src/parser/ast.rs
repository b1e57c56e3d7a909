//! The syntax tree that the parser builds and the evaluator walks.

use vstd::prelude::*;

verus! {

/// A node of the syntax tree.  Every node owns its children.
#[derive(PartialEq, Eq, Debug)]
pub enum ASTNode {
    BooleanLiteral(bool),
    StringLiteral(String),
    /// A number, as the digits and dots that were written.
    NumberLiteral(String),
    Identifier(String),
    /// A member access without a receiver.
    MemberInvocation(Box<ASTNode>),
    /// `left.right`.
    InvocationExpression(Box<ASTNode>, Box<ASTNode>),
    /// `name(params)`.
    Function(Box<ASTNode>, Box<ASTNode>),
    /// The arguments of a call: none, or one expression.
    ParamList(Option<Box<ASTNode>>),
    /// `left, right`.
    Union(Box<ASTNode>, Box<ASTNode>),
}

/// The mathematical value of an [`ASTNode`].
pub enum NodeView {
    BooleanLiteral(bool),
    StringLiteral(Seq<char>),
    NumberLiteral(Seq<char>),
    Identifier(Seq<char>),
    MemberInvocation(Box<NodeView>),
    InvocationExpression(Box<NodeView>, Box<NodeView>),
    Function(Box<NodeView>, Box<NodeView>),
    ParamList(Option<Box<NodeView>>),
    Union(Box<NodeView>, Box<NodeView>),
}

impl View for ASTNode {
    type V = NodeView;

    open spec fn view(&self) -> NodeView
        decreases self,
    {
        match self {
            ASTNode::BooleanLiteral(b) => NodeView::BooleanLiteral(*b),
            ASTNode::StringLiteral(s) => NodeView::StringLiteral(s@),
            ASTNode::NumberLiteral(s) => NodeView::NumberLiteral(s@),
            ASTNode::Identifier(s) => NodeView::Identifier(s@),
            ASTNode::MemberInvocation(inner) => NodeView::MemberInvocation(Box::new((**inner).view())),
            ASTNode::InvocationExpression(left, right) => NodeView::InvocationExpression(
                Box::new((**left).view()),
                Box::new((**right).view()),
            ),
            ASTNode::Function(name, params) => NodeView::Function(
                Box::new((**name).view()),
                Box::new((**params).view()),
            ),
            ASTNode::ParamList(None) => NodeView::ParamList(None),
            ASTNode::ParamList(Some(inner)) => NodeView::ParamList(
                Some(Box::new((**inner).view())),
            ),
            ASTNode::Union(left, right) => NodeView::Union(
                Box::new((**left).view()),
                Box::new((**right).view()),
            ),
        }
    }
}

impl ASTNode {
    pub fn identifier(s: &str) -> (node: Box<Self>)
        ensures
            node@ == NodeView::Identifier(s@),
    {
        Box::new(ASTNode::Identifier(s.to_owned()))
    }

    pub fn invocation(left: Box<ASTNode>, right: Box<ASTNode>) -> (node: Box<Self>)
        ensures
            node@ == NodeView::InvocationExpression(Box::new(left@), Box::new(right@)),
    {
        Box::new(ASTNode::InvocationExpression(left, right))
    }

    pub fn function(left: Box<ASTNode>, right: Box<ASTNode>) -> (node: Box<Self>)
        ensures
            node@ == NodeView::Function(Box::new(left@), Box::new(right@)),
    {
        Box::new(ASTNode::Function(left, right))
    }

    pub fn union(left: Box<ASTNode>, right: Box<ASTNode>) -> (node: Box<Self>)
        ensures
            node@ == NodeView::Union(Box::new(left@), Box::new(right@)),
    {
        Box::new(ASTNode::Union(left, right))
    }

    pub fn string(s: &str) -> (node: Box<Self>)
        ensures
            node@ == NodeView::StringLiteral(s@),
    {
        Box::new(ASTNode::StringLiteral(s.to_owned()))
    }

    pub fn params(p: Box<ASTNode>) -> (node: Box<Self>)
        ensures
            node@ == NodeView::ParamList(Some(Box::new(p@))),
    {
        Box::new(ASTNode::ParamList(Some(p)))
    }

    pub fn empty_params() -> (node: Box<Self>)
        ensures
            node@ == NodeView::ParamList(None),
    {
        Box::new(ASTNode::ParamList(None))
    }
}

} // verus!
