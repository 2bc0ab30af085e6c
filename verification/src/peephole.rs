//! The pass: what is left of an expression of which the value is not used.
use crate::ast::{expressions_view, Expression};
use crate::ctx::Ctx;
use crate::measure::{expressions_size, lemma_expression_size};
use crate::rewrite::{kept, unused, unused_if, Env, Outcome};
use oxc_syntax::es_target::ESTarget;
use oxc_syntax::operator::UnaryOperator;
use vstd::prelude::*;

verus! {

/// The pass and what it has to report.
pub struct PeepholeOptimizations {
    /// The version of the language that the result is written in.
    pub target: ESTarget,
    /// Whether anything was rewritten so far.
    pub changed: bool,
}

impl PeepholeOptimizations {
    /// What the outcome of the pass depends on besides the expression.
    pub open spec fn env(self, ctx: Ctx) -> Env {
        Env { globals: ctx@, target: self.target }
    }

    /// The pass once `o` has come to pass.
    pub open spec fn after(self, o: Outcome<'_>) -> PeepholeOptimizations {
        PeepholeOptimizations { target: self.target, changed: self.changed || o.changed }
    }

    /// A pass that has rewritten nothing yet.
    pub fn new(target: ESTarget) -> (pass: PeepholeOptimizations)
        ensures
            pass.target == target,
            !pass.changed,
    {
        PeepholeOptimizations { target, changed: false }
    }

    /// Records that something was rewritten.
    pub fn mark_current_function_as_changed(&mut self)
        ensures
            final(self).target == old(self).target,
            final(self).changed,
    {
        self.changed = true;
    }

    /// Leaves in `e` what is needed of it when its value is not used. Tells whether nothing is
    /// needed at all, in which case the whole of `e` can go.
    pub fn remove_unused_expression<'a>(
        &mut self,
        e: &mut Expression<'a>,
        ctx: &Ctx,
    ) -> (removed: bool)
        ensures
            final(e)@ == unused(old(e)@, old(self).env(*ctx)).expr,
            removed == unused(old(e)@, old(self).env(*ctx)).removed,
            *final(self) == old(self).after(unused(old(e)@, old(self).env(*ctx))),
        decreases old(e)@.size(), 1nat,
    {
        match e {
            Expression::ArrayExpression { .. } => self.fold_array_expression(e, ctx),
            Expression::UnaryExpression { .. } => self.fold_unary_expression(e, ctx),
            Expression::NewExpression { .. } => self.fold_new_constructor(e, ctx),
            Expression::LogicalExpression { .. } => self.fold_logical_expression(e, ctx),
            Expression::SequenceExpression { .. } => self.fold_sequence_expression(e, ctx),
            Expression::TemplateLiteral { .. } => self.fold_template_literal(e, ctx),
            Expression::ObjectExpression { .. } => self.fold_object_expression(e, ctx),
            Expression::ConditionalExpression { .. } => self.fold_conditional_expression(e, ctx),
            Expression::BinaryExpression { .. } => self.fold_binary_expression(e, ctx),
            Expression::CallExpression { .. } => self.fold_call_expression(e, ctx),
            _ => !e.may_have_side_effects(ctx),
        }
    }

    /// `void x`, `!x` and `typeof x` do what `x` does.
    pub(crate) fn fold_unary_expression<'a>(
        &mut self,
        e: &mut Expression<'a>,
        ctx: &Ctx,
    ) -> (removed: bool)
        ensures
            final(e)@ == unused_if(old(e)@ is Unary, old(e)@, old(self).env(*ctx)).expr,
            removed == unused_if(old(e)@ is Unary, old(e)@, old(self).env(*ctx)).removed,
            *final(self) == old(self).after(
                unused_if(old(e)@ is Unary, old(e)@, old(self).env(*ctx)),
            ),
        decreases old(e)@.size(), 0nat,
    {
        let ghost env = self.env(*ctx);
        match e.take() {
            Expression::UnaryExpression { span, operator, argument } => match operator {
                UnaryOperator::Void | UnaryOperator::LogicalNot => {
                    let ghost o = unused(argument@, env);
                    *e = *argument;
                    self.mark_current_function_as_changed();
                    self.remove_unused_expression(e, ctx)
                },
                UnaryOperator::Typeof => {
                    let ghost o = unused(argument@, env);
                    match &*argument {
                        Expression::Identifier(_) => {
                            *e = Expression::UnaryExpression { span, operator, argument };
                            true
                        },
                        _ => {
                            *e = *argument;
                            self.mark_current_function_as_changed();
                            self.remove_unused_expression(e, ctx)
                        },
                    }
                },
                _ => {
                    *e = Expression::UnaryExpression { span, operator, argument };
                    false
                },
            },
            other => {
                *e = other;
                false
            },
        }
    }

    /// `(a(), 1, b())` to `(a(), b())`.
    pub(crate) fn fold_sequence_expression<'a>(
        &mut self,
        e: &mut Expression<'a>,
        ctx: &Ctx,
    ) -> (removed: bool)
        ensures
            final(e)@ == unused_if(old(e)@ is Sequence, old(e)@, old(self).env(*ctx)).expr,
            removed == unused_if(old(e)@ is Sequence, old(e)@, old(self).env(*ctx)).removed,
            *final(self) == old(self).after(
                unused_if(old(e)@ is Sequence, old(e)@, old(self).env(*ctx)),
            ),
        decreases old(e)@.size(), 0nat,
    {
        let ghost env = self.env(*ctx);
        let ghost pass = *self;
        let ghost whole = e@;
        match e.take() {
            Expression::SequenceExpression { span, expressions } => {
                let ghost s = expressions_view(expressions@);
                let old_len = expressions.len();
                let mut needed: Vec<Expression<'a>> = Vec::new();
                for el in it: expressions
                    invariant
                        s == expressions_view(it.seq()),
                        env == self.env(*ctx),
                        pass.target == self.target,
                        self.changed == (pass.changed || kept(
                            s.take(it.index() as int),
                            env,
                        ).changed),
                        expressions_view(needed@) == kept(s.take(it.index() as int), env).exprs,
                        whole.size() > expressions_size(s),
                        whole == old(e)@,
                {
                    let ghost i = it.index() as int;
                    proof {
                        lemma_expression_size(s, i);
                        assert(s.take(i + 1).drop_last() =~= s.take(i));
                        assert(s.take(i + 1).last() == s[i]);
                        let step = kept(s.take(i + 1), env);
                    }
                    let ghost before = needed@;
                    let mut el = el;
                    if !self.remove_unused_expression(&mut el, ctx) {
                        needed.push(el);
                        assert(expressions_view(needed@) =~= expressions_view(before).push(el@));
                    }
                }
                assert(s.take(s.len() as int) =~= s);
                if needed.len() != old_len {
                    self.mark_current_function_as_changed();
                }
                let removed = needed.len() == 0;
                *e = Expression::SequenceExpression { span, expressions: needed };
                removed
            },
            other => {
                *e = other;
                false
            },
        }
    }
}

} // verus!
