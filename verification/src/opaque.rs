//! Syntax nodes that are carried through as they are.
use crate::ast::{FormalParameters, FunctionBody};
use crate::shape::{is_leaf, is_readable, reads_as_big_int, shape_of, Shape};
use oxc_ast::ast::ArrowFunctionExpression as ArrowNode;
use oxc_ast::ast::Expression as Node;
use oxc_ast::ast::Function as FunctionNode;
use oxc_ecmascript::StringToBigInt;
use vstd::prelude::*;

verus! {

/// What a syntax node is to the expression tree.
enum NodeKind {
    /// One that has a variant of its own.
    Mirrored,
    /// A bigint of that text.
    BigInt(String),
    /// Any other one.
    Leaf,
}

/// The variants of `Expression`, told apart: those that the tree has variants for, bigints with
/// their text, and the rest.
#[verifier::external_body]
fn node_kind(node: &Node<'_>) -> (kind: NodeKind)
    ensures
        kind is Mirrored == !is_leaf(shape_of(*node)),
        kind is BigInt == (shape_of(*node) is BigInt),
        kind is BigInt ==> shape_of(*node) == Shape::BigInt(kind->BigInt_0@),
{
    match node {
        Node::BigIntLiteral(big_int) => NodeKind::BigInt(big_int.raw.to_string()),
        Node::NullLiteral(_) | Node::StringLiteral(_) | Node::Identifier(_)
        | Node::TemplateLiteral(_) | Node::ArrayExpression(_) | Node::ObjectExpression(_)
        | Node::UnaryExpression(_) | Node::BinaryExpression(_) | Node::LogicalExpression(_)
        | Node::ConditionalExpression(_) | Node::SequenceExpression(_)
        | Node::CallExpression(_) | Node::NewExpression(_) | Node::StaticMemberExpression(_)
        | Node::ComputedMemberExpression(_) | Node::ChainExpression(_)
        | Node::FunctionExpression(_) | Node::ArrowFunctionExpression(_)
        | Node::ClassExpression(_) | Node::ParenthesizedExpression(_) => NodeKind::Mirrored,
        _ => NodeKind::Leaf,
    }
}

/// `StringToBigInt::string_to_big_int` of the text of a bigint literal up to its `n`, as `ToBigInt`
/// of such a literal calls it: whether it gives a number, by name.
#[verifier::external_body]
fn big_int_is_readable(raw: &str) -> (readable: bool)
    ensures
        readable == reads_as_big_int(raw@),
{
    raw.trim_end_matches('n').string_to_big_int().is_some()
}

/// A syntax node that neither the pass nor the analyses look into. The text of a bigint is one that
/// they can read.
#[derive(Debug)]
pub struct OpaqueNode<'a> {
    node: Node<'a>,
}

/// Whether `node` can be carried through as it is.
pub open spec fn is_opaque(node: Node<'_>) -> bool {
    is_leaf(shape_of(node)) && is_readable(shape_of(node))
}

impl<'a> OpaqueNode<'a> {
    pub closed spec fn view(&self) -> Node<'a> {
        self.node
    }

    #[verifier::type_invariant]
    spec fn can_be_carried(self) -> bool {
        is_opaque(self.node)
    }

    /// The node, unless it is of a kind that the tree has a variant for, or a bigint that the
    /// analyses cannot read.
    pub fn new(node: Node<'a>) -> (opaque: Option<OpaqueNode<'a>>)
        ensures
            opaque is Some == is_opaque(node),
            opaque is Some ==> opaque->Some_0@ == node,
    {
        match node_kind(&node) {
            NodeKind::Mirrored => None,
            NodeKind::BigInt(raw) => if big_int_is_readable(raw.as_str()) {
                Some(OpaqueNode { node })
            } else {
                None
            },
            NodeKind::Leaf => Some(OpaqueNode { node }),
        }
    }

    /// The node.
    pub fn node(&self) -> (node: &Node<'a>)
        ensures
            *node == self@,
            is_opaque(*node),
    {
        proof {
            use_type_invariant(self);
        }
        &self.node
    }

    /// The node, taken out.
    pub fn into_node(self) -> (node: Node<'a>)
        ensures
            node == self@,
    {
        self.node
    }
}

/// What the pass reads of a function.
#[derive(Clone, Copy, PartialEq, Eq, Structural, Debug)]
pub struct FunctionOutline {
    pub params: FormalParameters,
    /// `None` where the function is only declared.
    pub body: Option<FunctionBody>,
}

/// The parameters that a function of the parser's syntax tree declares, and what its body holds.
pub uninterp spec fn outline_of(node: FunctionNode<'_>) -> FunctionOutline;

/// The parameters that an arrow function of the parser's syntax tree declares.
pub uninterp spec fn params_of(node: ArrowNode<'_>) -> FormalParameters;

/// The lengths of the lists in a `Function`, by name: its parameters, and the directives and
/// statements of its body.
#[verifier::external_body]
fn function_outline(node: &FunctionNode<'_>) -> (outline: FunctionOutline)
    ensures
        outline == outline_of(*node),
{
    let params =
        FormalParameters { items: node.params.items.len(), rest: node.params.rest.is_some() };
    let body = match &node.body {
        Some(body) => Some(
            FunctionBody { directives: body.directives.len(), statements: body.statements.len() },
        ),
        None => None,
    };
    FunctionOutline { params, body }
}

/// The length of the list of parameters of an `ArrowFunctionExpression`, by name.
#[verifier::external_body]
fn arrow_params(node: &ArrowNode<'_>) -> (params: FormalParameters)
    ensures
        params == params_of(*node),
{
    FormalParameters { items: node.params.items.len(), rest: node.params.rest.is_some() }
}

/// A function, with what the pass reads of it.
#[derive(Debug)]
pub struct OpaqueFunction<'a> {
    read: FunctionOutline,
    node: Box<FunctionNode<'a>>,
}

impl<'a> OpaqueFunction<'a> {
    pub closed spec fn view(&self) -> FunctionNode<'a> {
        *self.node
    }

    pub closed spec fn outline(&self) -> FunctionOutline {
        self.read
    }

    #[verifier::type_invariant]
    spec fn is_read_of_node(self) -> bool {
        self.read == outline_of(*self.node)
    }

    pub fn new(node: FunctionNode<'a>) -> (function: OpaqueFunction<'a>)
        ensures
            function@ == node,
            function.outline() == outline_of(node),
    {
        OpaqueFunction { read: function_outline(&node), node: Box::new(node) }
    }

    /// What the pass reads of the function.
    pub fn read(&self) -> (outline: FunctionOutline)
        ensures
            outline == self.outline(),
            outline == outline_of(self@),
    {
        proof {
            use_type_invariant(self);
        }
        self.read
    }

    /// The function, taken out.
    pub fn into_node(self) -> (node: FunctionNode<'a>)
        ensures
            node == self@,
    {
        *self.node
    }
}

/// An arrow function, with the parameters that it declares.
#[derive(Debug)]
pub struct OpaqueArrow<'a> {
    read: FormalParameters,
    node: Box<ArrowNode<'a>>,
}

impl<'a> OpaqueArrow<'a> {
    pub closed spec fn view(&self) -> ArrowNode<'a> {
        *self.node
    }

    pub closed spec fn params(&self) -> FormalParameters {
        self.read
    }

    #[verifier::type_invariant]
    spec fn is_read_of_node(self) -> bool {
        self.read == params_of(*self.node)
    }

    pub fn new(node: ArrowNode<'a>) -> (function: OpaqueArrow<'a>)
        ensures
            function@ == node,
            function.params() == params_of(node),
    {
        OpaqueArrow { read: arrow_params(&node), node: Box::new(node) }
    }

    /// The parameters that the function declares.
    pub fn read(&self) -> (params: FormalParameters)
        ensures
            params == self.params(),
            params == params_of(self@),
    {
        proof {
            use_type_invariant(self);
        }
        self.read
    }

    /// The function, taken out.
    pub fn into_node(self) -> (node: ArrowNode<'a>)
        ensures
            node == self@,
    {
        *self.node
    }
}

} // verus!
