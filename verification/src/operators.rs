//! What is left of operators of which the value is not used.
use crate::ast::{expressions_view, Expression, Span};
use crate::boolean_context::{lemma_boolean_context_size, try_fold_expr_in_boolean_context};
use crate::ctx::Ctx;
use crate::join::join_with_left_associative_op;
use crate::optional_chain::inject_optional_chaining_if_matched;
use crate::peephole::PeepholeOptimizations;
use crate::preservation::law_sum_is_string;
use crate::rewrite::{
    as_optional_chain, blanked_string, converts_to_string, empty_string, has_optional_chaining,
    is_empty_string, is_string, shortened_sum, unused, unused_comparison, unused_conditional,
    unused_if, unused_logical, Env,
};
use oxc_syntax::es_target::ESTarget;
use oxc_syntax::operator::{BinaryOperator, LogicalOperator};
use vstd::prelude::*;

verus! {

/// Whether the language has the operator `?.`.
fn target_has_optional_chaining(target: &ESTarget) -> (r: bool)
    ensures
        r == has_optional_chaining(*target),
{
    match target {
        ESTarget::ES5
        | ESTarget::ES2015
        | ESTarget::ES2016
        | ESTarget::ES2017
        | ESTarget::ES2018
        | ESTarget::ES2019 => false,
        _ => true,
    }
}

/// Whether `test logical ..`, with `test` a comparison by `binary` with null, lets through only
/// what is not nullish.
fn tests_for_null(logical: &LogicalOperator, binary: &BinaryOperator) -> (r: bool)
    ensures
        r == ((*logical is And && *binary is Inequality) || (*logical is Or
            && *binary is Equality)),
{
    match (logical, binary) {
        (LogicalOperator::And, BinaryOperator::Inequality) => true,
        (LogicalOperator::Or, BinaryOperator::Equality) => true,
        _ => false,
    }
}

/// The literal `""`.
fn empty_string_literal<'a>(span: Span) -> (r: Expression<'a>)
    ensures
        r@ == empty_string(span),
{
    proof {
        reveal_strlit("");
    }
    let value = "".to_owned();
    assert(value@ =~= seq![]);
    Expression::StringLiteral { span, value, raw: None, lossy: false }
}

/// Makes `e`, a string of which the value is not used, the literal `""` unless it has side
/// effects. Tells whether that changes it.
pub fn blank_string<'a>(e: &mut Expression<'a>, effects: bool) -> (blanked: bool)
    ensures
        final(e)@ == blanked_string(old(e)@, effects).0,
        blanked == blanked_string(old(e)@, effects).1,
{
    if !effects && !e.is_empty_string_literal() {
        *e = empty_string_literal(e.span());
        true
    } else {
        false
    }
}

impl<'a> Expression<'a> {
    /// Whether the expression is the literal `null`.
    pub fn is_null(&self) -> (r: bool)
        ensures
            r == (self@ is Null),
    {
        match self {
            Expression::NullLiteral { .. } => true,
            _ => false,
        }
    }

    /// Whether the expression is the literal `""`.
    pub fn is_empty_string_literal(&self) -> (r: bool)
        ensures
            r == is_empty_string(self@),
    {
        match self {
            Expression::StringLiteral { value, .. } => {
                proof {
                    reveal_strlit("");
                    assert(value@.len() == 0 ==> value@ =~= ""@);
                }
                *value == "".to_owned()
            },
            _ => false,
        }
    }

    /// Whether converting the value to a string surely throws no error.
    pub(crate) fn converts_to_string(&self, ctx: &Ctx) -> (r: bool)
        ensures
            forall|env: Env|
                env.globals == ctx@ ==> r == #[trigger] converts_to_string(self@, env),
    {
        match self.primitive_is_symbol(ctx) {
            Some(symbol) => !symbol,
            None => false,
        }
    }

    /// Whether the primitive of the value is surely a string.
    fn is_string(&self, ctx: &Ctx) -> (r: bool)
        ensures
            forall|env: Env| env.globals == ctx@ ==> r == #[trigger] is_string(self@, env),
    {
        match self.primitive_is_string(ctx) {
            Some(string) => string,
            None => false,
        }
    }
}

impl PeepholeOptimizations {
    /// `a() && 1` to `a()`; `a != null && a.b()` to `a?.b()`.
    pub(crate) fn fold_logical_expression<'a>(
        &mut self,
        e: &mut Expression<'a>,
        ctx: &Ctx,
    ) -> (removed: bool)
        ensures
            final(e)@ == unused_if(old(e)@ is Logical, old(e)@, old(self).env(*ctx)).expr,
            removed == unused_if(old(e)@ is Logical, old(e)@, old(self).env(*ctx)).removed,
            *final(self) == old(self).after(
                unused_if(old(e)@ is Logical, old(e)@, old(self).env(*ctx)),
            ),
        decreases old(e)@.size(), 0nat,
    {
        let ghost env = self.env(*ctx);
        match e.take() {
            Expression::LogicalExpression { span, mut left, operator, mut right } => {
                let ghost o = unused_logical(span, left@, operator, right@, env);
                proof {
                    lemma_boolean_context_size(left@);
                }
                let folded = match operator {
                    LogicalOperator::Coalesce => false,
                    _ => try_fold_expr_in_boolean_context(&mut left),
                };
                if folded {
                    self.mark_current_function_as_changed();
                }
                let ghost r = unused(right@, env);
                let ghost l = unused(left@, env);
                if self.remove_unused_expression(&mut right, ctx) {
                    self.remove_unused_expression(&mut left, ctx);
                    *e = *left;
                    self.mark_current_function_as_changed();
                    return false;
                }
                let ghost test = left@;
                let ghost chain = as_optional_chain(left@, operator, right@, env);
                match *left {
                    Expression::BinaryExpression {
                        span: test_span,
                        left: mut tested,
                        operator: test_operator,
                        right: mut against,
                    } => {
                        if target_has_optional_chaining(&self.target) && tests_for_null(
                            &operator,
                            &test_operator,
                        ) {
                            let injected = if let Expression::Identifier(id) = &*tested {
                                if !ctx.is_global_variable(id) && against.is_null() {
                                    let name = id.name.clone();
                                    inject_optional_chaining_if_matched(
                                        &name,
                                        &mut tested,
                                        &mut right,
                                    )
                                } else {
                                    false
                                }
                            } else if let Expression::Identifier(id) = &*against {
                                if !ctx.is_global_variable(id) && tested.is_null() {
                                    let name = id.name.clone();
                                    inject_optional_chaining_if_matched(
                                        &name,
                                        &mut against,
                                        &mut right,
                                    )
                                } else {
                                    false
                                }
                            } else {
                                false
                            };
                            if injected {
                                *e = *right;
                                self.mark_current_function_as_changed();
                                return false;
                            }
                        }
                        let left = Expression::BinaryExpression {
                            span: test_span,
                            left: tested,
                            operator: test_operator,
                            right: against,
                        };
                        assert(left@ == test);
                        *e = Expression::LogicalExpression {
                            span,
                            left: Box::new(left),
                            operator,
                            right,
                        };
                        false
                    },
                    left => {
                        assert(left@ == test);
                        *e = Expression::LogicalExpression {
                            span,
                            left: Box::new(left),
                            operator,
                            right,
                        };
                        false
                    },
                }
            },
            other => {
                *e = other;
                false
            },
        }
    }

    /// `a() ? 1 : b()` to `a() || b()`; `a() ? b() : 1` to `a() && b()`; `a() ? 1 : 2` to `a()`.
    pub(crate) fn fold_conditional_expression<'a>(
        &mut self,
        e: &mut Expression<'a>,
        ctx: &Ctx,
    ) -> (removed: bool)
        ensures
            final(e)@ == unused_if(old(e)@ is Conditional, old(e)@, old(self).env(*ctx)).expr,
            removed == unused_if(old(e)@ is Conditional, old(e)@, old(self).env(*ctx)).removed,
            *final(self) == old(self).after(
                unused_if(old(e)@ is Conditional, old(e)@, old(self).env(*ctx)),
            ),
        decreases old(e)@.size(), 0nat,
    {
        let ghost env = self.env(*ctx);
        match e.take() {
            Expression::ConditionalExpression {
                span,
                mut test,
                mut consequent,
                mut alternate,
            } => {
                let ghost o = unused_conditional(span, test@, consequent@, alternate@, env);
                let ghost t = unused(test@, env);
                let ghost c = unused(consequent@, env);
                let ghost a = unused(alternate@, env);
                let consequent_removed = self.remove_unused_expression(&mut consequent, ctx);
                let alternate_removed = self.remove_unused_expression(&mut alternate, ctx);
                if consequent_removed && alternate_removed {
                    if self.remove_unused_expression(&mut test, ctx) {
                        *e = Expression::ConditionalExpression {
                            span,
                            test,
                            consequent,
                            alternate,
                        };
                        return true;
                    }
                    *e = *test;
                    self.mark_current_function_as_changed();
                    false
                } else if consequent_removed {
                    *e = join_with_left_associative_op(
                        span,
                        LogicalOperator::Or,
                        *test,
                        *alternate,
                    );
                    self.mark_current_function_as_changed();
                    false
                } else if alternate_removed {
                    *e = join_with_left_associative_op(
                        span,
                        LogicalOperator::And,
                        *test,
                        *consequent,
                    );
                    self.mark_current_function_as_changed();
                    false
                } else {
                    *e = Expression::ConditionalExpression { span, test, consequent, alternate };
                    false
                }
            },
            other => {
                *e = other;
                false
            },
        }
    }

    /// `a() === b()` to `a(), b()`; `'a' + b()` to `'' + b()`.
    pub(crate) fn fold_binary_expression<'a>(
        &mut self,
        e: &mut Expression<'a>,
        ctx: &Ctx,
    ) -> (removed: bool)
        ensures
            final(e)@ == unused_if(old(e)@ is Binary, old(e)@, old(self).env(*ctx)).expr,
            removed == unused_if(old(e)@ is Binary, old(e)@, old(self).env(*ctx)).removed,
            *final(self) == old(self).after(
                unused_if(old(e)@ is Binary, old(e)@, old(self).env(*ctx)),
            ),
        decreases old(e)@.size(), 0nat,
    {
        let ghost env = self.env(*ctx);
        let ghost whole = e@;
        match e.take() {
            Expression::BinaryExpression { span, mut left, operator, mut right } => match operator {
                BinaryOperator::Equality
                | BinaryOperator::Inequality
                | BinaryOperator::StrictEquality
                | BinaryOperator::StrictInequality
                | BinaryOperator::LessThan
                | BinaryOperator::LessEqualThan
                | BinaryOperator::GreaterThan
                | BinaryOperator::GreaterEqualThan => {
                    let ghost o = unused_comparison(span, left@, operator, right@, env);
                    let ghost l = unused(left@, env);
                    let ghost r = unused(right@, env);
                    let left_removed = self.remove_unused_expression(&mut left, ctx);
                    let right_removed = self.remove_unused_expression(&mut right, ctx);
                    if left_removed && right_removed {
                        *e = Expression::BinaryExpression { span, left, operator, right };
                        true
                    } else if left_removed {
                        *e = *right;
                        self.mark_current_function_as_changed();
                        false
                    } else if right_removed {
                        *e = *left;
                        self.mark_current_function_as_changed();
                        false
                    } else {
                        let expressions = vec![*left, *right];
                        assert(expressions_view(expressions@) =~= seq![l.expr, r.expr]);
                        *e = Expression::SequenceExpression { span, expressions };
                        self.mark_current_function_as_changed();
                        false
                    }
                },
                BinaryOperator::Addition => {
                    *e = Expression::BinaryExpression { span, left, operator, right };
                    assert(e@ == whole);
                    let ghost sum = shortened_sum(whole, env);
                    self.fold_string_addition_chain(e, ctx);
                    match e {
                        Expression::StringLiteral { .. } => true,
                        _ => false,
                    }
                },
                _ => {
                    *e = Expression::BinaryExpression { span, left, operator, right };
                    assert(e@ == whole);
                    !e.may_have_side_effects(ctx)
                },
            },
            other => {
                *e = other;
                false
            },
        }
    }

    /// Shortens a chain of `+` of which the value is not used. Tells whether the value of the
    /// chain is surely a string, before as well as after.
    pub(crate) fn fold_string_addition_chain<'a>(
        &mut self,
        e: &mut Expression<'a>,
        ctx: &Ctx,
    ) -> (string: bool)
        ensures
            final(e)@ == shortened_sum(old(e)@, old(self).env(*ctx)).expr,
            string == is_string(old(e)@, old(self).env(*ctx)),
            string == is_string(final(e)@, old(self).env(*ctx)),
            final(self).target == old(self).target,
            final(self).changed == (old(self).changed || shortened_sum(
                old(e)@,
                old(self).env(*ctx),
            ).changed),
        decreases old(e)@.size(),
    {
        let ghost env = self.env(*ctx);
        let ghost whole = e@;
        proof {
            law_sum_is_string(whole, env);
        }
        match e.take() {
            Expression::BinaryExpression {
                span,
                mut left,
                operator: BinaryOperator::Addition,
                mut right,
            } => {
                let ghost sum = shortened_sum(whole, env);
                let ghost l = shortened_sum(left@, env);
                proof {
                    law_sum_is_string(left@, env);
                }
                if self.fold_string_addition_chain(&mut left, ctx) {
                    let effects = left.may_have_side_effects(ctx);
                    if blank_string(&mut left, effects) {
                        self.mark_current_function_as_changed();
                    }
                    if right.converts_to_string(ctx) && !right.may_have_side_effects(ctx) {
                        *e = *left;
                        self.mark_current_function_as_changed();
                        return true;
                    }
                    *e = Expression::BinaryExpression {
                        span,
                        left,
                        operator: BinaryOperator::Addition,
                        right,
                    };
                    true
                } else {
                    let string = right.is_string(ctx);
                    if string {
                        let effects = right.may_have_side_effects(ctx);
                        if blank_string(&mut right, effects) {
                            self.mark_current_function_as_changed();
                        }
                    }
                    *e = Expression::BinaryExpression {
                        span,
                        left,
                        operator: BinaryOperator::Addition,
                        right,
                    };
                    string
                }
            },
            other => {
                *e = other;
                assert(e@ == whole);
                e.is_string(ctx)
            },
        }
    }
}

} // verus!
