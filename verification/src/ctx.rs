//! What the pass knows of the program around the expression.
use crate::ast::{Expr, Expression, IdentifierReference};
use crate::nodes::is_number;
use crate::shape::shape_of;
use oxc_ast::ast::IdentifierReference as IdentifierNode;
use oxc_ecmascript::is_global_reference::IsGlobalReference;
use oxc_syntax::operator::UnaryOperator;
use oxc_syntax::reference::ReferenceId;
use vstd::prelude::*;

verus! {

/// An identifier of the parser's syntax tree: opaque here.
#[verifier::external_type_specification]
#[verifier::external_body]
pub struct ExIdentifierNode<'a>(IdentifierNode<'a>);

/// Which references of the program resolve to no declaration in it.
#[derive(Debug)]
pub struct Ctx {
    pub globals: Vec<ReferenceId>,
}

/// Whether `reference_id` is one of `globals`.
pub open spec fn is_global(globals: Seq<ReferenceId>, reference_id: Option<ReferenceId>) -> bool {
    match reference_id {
        Some(id) => globals.contains(id),
        None => false,
    }
}

/// Whether `e` surely evaluates to `undefined` and does nothing else: the global `undefined`, or
/// `void` of a number.
pub open spec fn is_undefined(e: Expr<'_>, globals: Seq<ReferenceId>) -> bool {
    match e {
        Expr::Identifier(i) => i.name == "undefined"@ && is_global(globals, i.reference_id),
        Expr::Unary { operator: UnaryOperator::Void, argument, .. } => match *argument {
            Expr::Other { node, .. } => shape_of(node) is Number,
            _ => false,
        },
        _ => false,
    }
}

/// `==` of [`ReferenceId`], which compares the numbers inside.
#[verifier::external_body]
fn same_reference(a: ReferenceId, b: ReferenceId) -> (same: bool)
    ensures
        same == (a == b),
{
    a == b
}

/// The reference that an identifier of the parser's syntax tree holds in its cell. Nothing in this
/// crate sets that cell.
pub uninterp spec fn reference_held_by(identifier: IdentifierNode<'_>) -> Option<ReferenceId>;

/// `Cell::get` on the `reference_id` of an identifier: the reference that it holds, by name.
#[verifier::external_body]
fn reference_of(identifier: &IdentifierNode<'_>) -> (reference_id: Option<ReferenceId>)
    ensures
        reference_id == reference_held_by(*identifier),
{
    identifier.reference_id.get()
}

impl Ctx {
    pub open spec fn view(&self) -> Seq<ReferenceId> {
        self.globals@
    }

    /// Whether `reference_id` refers to a variable that the program does not declare.
    fn is_global(&self, reference_id: Option<ReferenceId>) -> (global: bool)
        ensures
            global == is_global(self@, reference_id),
    {
        match reference_id {
            Some(id) => {
                for i in 0..self.globals.len()
                    invariant
                        reference_id == Some(id),
                        forall|j: int| 0 <= j < i ==> self.globals@[j] != id,
                {
                    if same_reference(self.globals[i], id) {
                        assert(self@[i as int] == id);
                        return true;
                    }
                }
                false
            },
            None => false,
        }
    }

    /// Whether `ident` refers to a variable that the program does not declare.
    pub fn is_global_variable(&self, ident: &IdentifierReference) -> (global: bool)
        ensures
            global == is_global(self@, ident.reference_id),
    {
        self.is_global(ident.reference_id)
    }

    /// Whether `e` surely evaluates to `undefined` and does nothing else.
    pub fn is_expression_undefined(&self, e: &Expression<'_>) -> (undefined: bool)
        ensures
            undefined == is_undefined(e@, self@),
    {
        match e {
            Expression::Identifier(ident) => ident.name == "undefined".to_owned()
                && self.is_global_variable(ident),
            Expression::UnaryExpression { operator, argument, .. } => match operator {
                UnaryOperator::Void => match &**argument {
                    Expression::Other { node, .. } => {
                        assert(argument@ is Other);
                        is_number(node.node())
                    },
                    _ => {
                        assert(argument@ !is Other);
                        false
                    },
                },
                _ => false,
            },
            _ => false,
        }
    }
}

impl IsGlobalReference for Ctx {
    fn is_global_reference(&self, reference: &IdentifierNode<'_>) -> (global: Option<bool>)
        ensures
            global == Some(is_global(self@, reference_held_by(*reference))),
    {
        Some(self.is_global(reference_of(reference)))
    }
}

} // verus!
