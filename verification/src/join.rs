//! Joining two expressions by a logical operator.
use crate::ast::{expressions_view, Expr, Expression, Span};
use crate::measure::expressions_size;
use oxc_syntax::operator::LogicalOperator;
use vstd::prelude::*;

verus! {

/// `a op b`, with the operators associated to the left: `(x, y) op b` is `x, y op b`, and
/// `a op (x op y)` is `(a op x) op y`.
pub open spec fn join<'a>(span: Span, op: LogicalOperator, a: Expr<'a>, b: Expr<'a>) -> Expr<'a>
    decreases b.size(), a.size(),
{
    if a is Sequence && a->Sequence_expressions.len() > 0 {
        let s = a->Sequence_expressions;
        proof {
            assert(s.last().size() < expressions_size(s));
        }
        Expr::Sequence {
            span: a->Sequence_span,
            expressions: s.drop_last().push(join(span, op, s.last(), b)),
        }
    } else if b is Logical && b->Logical_operator == op {
        join(span, op, join(span, op, a, *b->Logical_left), *b->Logical_right)
    } else {
        Expr::Logical { span, left: Box::new(a), operator: op, right: Box::new(b) }
    }
}

fn same_operator(a: LogicalOperator, b: LogicalOperator) -> (same: bool)
    ensures
        same == (a == b),
{
    match (a, b) {
        (LogicalOperator::Or, LogicalOperator::Or) => true,
        (LogicalOperator::And, LogicalOperator::And) => true,
        (LogicalOperator::Coalesce, LogicalOperator::Coalesce) => true,
        _ => false,
    }
}

/// Joins `a` and `b` by `op`, with the operators associated to the left.
pub fn join_with_left_associative_op<'a>(
    span: Span,
    op: LogicalOperator,
    a: Expression<'a>,
    b: Expression<'a>,
) -> (joined: Expression<'a>)
    ensures
        joined@ == join(span, op, a@, b@),
    decreases b@.size(), a@.size(),
{
    let ghost whole = (a@, b@);
    let a = match a {
        Expression::SequenceExpression { span: sequence_span, mut expressions } => {
            let ghost s = expressions@;
            match expressions.pop() {
                Some(last) => {
                    assert(expressions_view(s).last() == last@);
                    assert(last@.size() < expressions_size(expressions_view(s)));
                    let joined = join_with_left_associative_op(span, op, last, b);
                    expressions.push(joined);
                    assert(expressions_view(expressions@) =~= expressions_view(
                        s,
                    ).drop_last().push(joined@));
                    return Expression::SequenceExpression { span: sequence_span, expressions };
                },
                None => Expression::SequenceExpression { span: sequence_span, expressions },
            }
        },
        a => a,
    };
    assert(a@ == whole.0);
    match b {
        Expression::LogicalExpression { span: logical_span, left, operator, right } => {
            if same_operator(operator, op) {
                let a = join_with_left_associative_op(span, op, a, *left);
                join_with_left_associative_op(span, op, a, *right)
            } else {
                let b = Expression::LogicalExpression {
                    span: logical_span,
                    left,
                    operator,
                    right,
                };
                assert(b@ == whole.1);
                Expression::LogicalExpression {
                    span,
                    left: Box::new(a),
                    operator: op,
                    right: Box::new(b),
                }
            }
        },
        b => Expression::LogicalExpression {
            span,
            left: Box::new(a),
            operator: op,
            right: Box::new(b),
        },
    }
}

} // verus!
