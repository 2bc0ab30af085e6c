//! Simplification of an expression of which only the truth of its value is used.
use crate::ast::{Expr, Expression};
use oxc_syntax::operator::{LogicalOperator, UnaryOperator};
use vstd::prelude::*;

verus! {

/// An expression with its double negations taken out, and whether it had any.
pub struct Folded<'a> {
    pub expr: Expr<'a>,
    pub folded: bool,
}

/// `!!x` is as true as `x`. So are `&&`, `||` and `?:` of which the operands are folded.
pub open spec fn boolean_context(e: Expr<'_>) -> Folded<'_>
    decreases e,
{
    match e {
        Expr::Unary { operator: UnaryOperator::LogicalNot, argument, .. } => match *argument {
            Expr::Unary { operator: UnaryOperator::LogicalNot, argument: inner, .. } => Folded {
                expr: boolean_context(*inner).expr,
                folded: true,
            },
            _ => Folded { expr: e, folded: false },
        },
        Expr::Logical { span, left, operator, right } => if operator is Coalesce {
            Folded { expr: e, folded: false }
        } else {
            let l = boolean_context(*left);
            let r = boolean_context(*right);
            Folded {
                expr: Expr::Logical {
                    span,
                    left: Box::new(l.expr),
                    operator,
                    right: Box::new(r.expr),
                },
                folded: l.folded || r.folded,
            }
        },
        Expr::Conditional { span, test, consequent, alternate } => {
            let c = boolean_context(*consequent);
            let a = boolean_context(*alternate);
            Folded {
                expr: Expr::Conditional {
                    span,
                    test,
                    consequent: Box::new(c.expr),
                    alternate: Box::new(a.expr),
                },
                folded: c.folded || a.folded,
            }
        },
        _ => Folded { expr: e, folded: false },
    }
}

/// Folding makes an expression no larger.
pub proof fn lemma_boolean_context_size(e: Expr<'_>)
    ensures
        boolean_context(e).expr.size() <= e.size(),
    decreases e,
{
    reveal_with_fuel(Expr::size, 3);
    match e {
        Expr::Unary { operator: UnaryOperator::LogicalNot, argument, .. } => match *argument {
            Expr::Unary { operator: UnaryOperator::LogicalNot, argument: inner, .. } => {
                lemma_boolean_context_size(*inner);
            },
            _ => {},
        },
        Expr::Logical { left, right, .. } => {
            lemma_boolean_context_size(*left);
            lemma_boolean_context_size(*right);
        },
        Expr::Conditional { consequent, alternate, .. } => {
            lemma_boolean_context_size(*consequent);
            lemma_boolean_context_size(*alternate);
        },
        _ => {},
    }
}

/// Takes the double negations out of `e`, of which only the truth of its value is used. Tells
/// whether there were any.
pub fn try_fold_expr_in_boolean_context<'a>(e: &mut Expression<'a>) -> (folded: bool)
    ensures
        final(e)@ == boolean_context(old(e)@).expr,
        folded == boolean_context(old(e)@).folded,
    decreases old(e)@.size(),
{
    match e {
        Expression::UnaryExpression { operator: UnaryOperator::LogicalNot, argument, .. } => {
            let ghost outer = argument@;
            match argument.take() {
                Expression::UnaryExpression {
                    operator: UnaryOperator::LogicalNot,
                    argument: mut inner,
                    ..
                } => {
                    assert(outer.size() == inner@.size() + 1);
                    try_fold_expr_in_boolean_context(&mut inner);
                    *e = *inner;
                    true
                },
                other => {
                    **argument = other;
                    false
                },
            }
        },
        Expression::LogicalExpression { left, operator, right, .. } => match operator {
            LogicalOperator::And | LogicalOperator::Or => {
                let l = try_fold_expr_in_boolean_context(left);
                let r = try_fold_expr_in_boolean_context(right);
                l || r
            },
            LogicalOperator::Coalesce => false,
        },
        Expression::ConditionalExpression { consequent, alternate, .. } => {
            let c = try_fold_expr_in_boolean_context(consequent);
            let a = try_fold_expr_in_boolean_context(alternate);
            c || a
        },
        _ => false,
    }
}

} // verus!
