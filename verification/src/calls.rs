//! What is left of calls of which the value is not used.
use crate::ast::{
    arguments_view, elements_view, expressions_view, statements_view, Arg, Argument,
    ArrayExpressionElement, ArrowBody, Element, Expression, Span, Statement,
};
use crate::ctx::Ctx;
use crate::measure::{arguments_size, lemma_list_argument_size, statements_size};
use crate::peephole::PeepholeOptimizations;
use crate::rewrite::{
    argument_expression, constructs_only, is_empty_function, in_order, is_nullish, is_plain,
    is_plain_value, kept_arguments, lemma_argument_size, unused_body, unused_if, Env,
};
use oxc_ecmascript::constant_evaluation::ValueType;
use vstd::prelude::*;

verus! {

/// The expressions one after the other: a comma expression unless there is only one.
pub(crate) fn sequence_of<'a>(span: Span, exprs: Vec<Expression<'a>>) -> (r: Expression<'a>)
    requires
        exprs@.len() > 0,
    ensures
        r@ == in_order(span, expressions_view(exprs@)),
{
    let mut exprs = exprs;
    if exprs.len() == 1 {
        let ghost s = exprs@;
        match exprs.pop() {
            Some(only) => {
                assert(only@ == expressions_view(s)[0]);
                only
            },
            None => Expression::SequenceExpression { span, expressions: exprs },
        }
    } else {
        Expression::SequenceExpression { span, expressions: exprs }
    }
}

/// Whether a value of that type, computed with or without side effects, is a null, undefined,
/// boolean, number or string that is computed without.
pub fn is_plain_type(ty: ValueType, effects: bool) -> (r: bool)
    ensures
        r == is_plain(ty, effects),
{
    match ty {
        ValueType::Null
        | ValueType::Undefined
        | ValueType::Boolean
        | ValueType::Number
        | ValueType::String => !effects,
        _ => false,
    }
}

impl<'a> Expression<'a> {
    /// Whether the expression is the literal `null` or surely `undefined`.
    fn is_nullish(&self, ctx: &Ctx) -> (r: bool)
        ensures
            forall|env: Env| env.globals == ctx@ ==> r == #[trigger] is_nullish(self@, env),
    {
        self.is_null() || ctx.is_expression_undefined(self)
    }

    /// Whether the expression is the literal `[]`.
    fn is_empty_array(&self) -> (r: bool)
        ensures
            r == (self@ is Array && self@->Array_elements.len() == 0),
    {
        match self {
            Expression::ArrayExpression { elements, .. } => {
                assert(elements_view(elements@).len() == elements@.len());
                elements.len() == 0
            },
            _ => false,
        }
    }

    /// Whether the expression is a null, undefined, boolean, number or string, computed without
    /// side effects.
    fn is_plain_value(&self, ctx: &Ctx) -> (r: bool)
        ensures
            forall|env: Env| env.globals == ctx@ ==> r == #[trigger] is_plain_value(self@, env),
    {
        is_plain_type(self.value_type(ctx), self.may_have_side_effects(ctx))
    }

    /// Whether the expression is a function without parameters, but for a rest parameter, and
    /// with an empty body.
    fn is_empty_function(&self) -> (r: bool)
        ensures
            r == is_empty_function(self@),
    {
        match self {
            Expression::FunctionExpression { function, .. } => {
                let outline = function.read();
                match outline.body {
                    Some(body) => outline.params.items == 0 && body.directives == 0
                        && body.statements == 0,
                    None => false,
                }
            },
            Expression::ArrowFunctionExpression { body, function, .. } => match body {
                ArrowBody::Block { directives, statements } => {
                    assert(body@ is Block);
                    function.read().items == 0 && directives.len() == 0 && statements.len() == 0
                },
                ArrowBody::Expression(_) => {
                    assert(body@ is Expression);
                    false
                },
            },
            _ => false,
        }
    }
}

/// Whether `new callee(arguments)` is a call of a built-in constructor that does nothing but make
/// an object.
fn is_construction_only<'a>(
    callee: &Expression<'a>,
    arguments: &Vec<Argument<'a>>,
    ctx: &Ctx,
) -> (r: bool)
    ensures
        forall|env: Env|
            env.globals == ctx@ ==> r == #[trigger] constructs_only(
                callee@,
                arguments_view(arguments@),
                env,
            ),
{
    let Expression::Identifier(ident) = callee else {
        return false;
    };
    if !ctx.is_global_variable(ident) {
        return false;
    }
    proof {
        reveal_strlit("WeakSet");
        reveal_strlit("WeakMap");
        reveal_strlit("Date");
        reveal_strlit("Set");
        reveal_strlit("Map");
    }
    let weak = ident.name == "WeakSet".to_owned() || ident.name == "WeakMap".to_owned();
    let date = ident.name == "Date".to_owned();
    let collection = ident.name == "Set".to_owned() || ident.name == "Map".to_owned();
    assert("WeakSet"@.len() == 7 && "WeakMap"@.len() == 7);
    assert("Date"@.len() == 4 && "Set"@.len() == 3 && "Map"@.len() == 3);
    assert(!(weak && date) && !(weak && collection) && !(date && collection));
    match arguments.len() {
        0 => weak || date || collection,
        1 => match &arguments[0] {
            Argument::SpreadElement { .. } => {
                assert(arguments_view(arguments@)[0] is Spread);
                false
            },
            Argument::Expression(e) => {
                assert(arguments_view(arguments@)[0] == Arg::Expression(e@));
                if weak {
                    e.is_empty_array() || e.is_nullish(ctx)
                } else if date {
                    e.is_plain_value(ctx)
                } else {
                    collection && e.is_nullish(ctx)
                }
            },
        },
        _ => false,
    }
}

impl PeepholeOptimizations {
    /// What is needed of the arguments of a call that is not made. `args` is left empty.
    pub(crate) fn fold_arguments_into_needed_expressions<'a>(
        &mut self,
        args: &mut Vec<Argument<'a>>,
        ctx: &Ctx,
    ) -> (needed: Vec<Expression<'a>>)
        ensures
            final(args)@.len() == 0,
            expressions_view(needed@) == kept_arguments(
                arguments_view(old(args)@),
                old(self).env(*ctx),
            ).exprs,
            final(self).target == old(self).target,
            final(self).changed == (old(self).changed || kept_arguments(
                arguments_view(old(args)@),
                old(self).env(*ctx),
            ).changed),
        decreases arguments_size(arguments_view(old(args)@)), 2nat,
    {
        let ghost env = self.env(*ctx);
        let ghost pass = *self;
        let ghost s = arguments_view(args@);
        let mut drained: Vec<Argument<'a>> = Vec::new();
        core::mem::swap(args, &mut drained);
        let mut needed: Vec<Expression<'a>> = Vec::new();
        for arg in it: drained
            invariant
                s == arguments_view(it.seq()),
                s == arguments_view(old(args)@),
                env == self.env(*ctx),
                pass.target == self.target,
                self.changed == (pass.changed || kept_arguments(
                    s.take(it.index() as int),
                    env,
                ).changed),
                expressions_view(needed@) == kept_arguments(s.take(it.index() as int), env).exprs,
        {
            let ghost i = it.index() as int;
            let ghost before = needed@;
            proof {
                lemma_list_argument_size(s, i);
                lemma_argument_size(s[i]);
                assert(s.take(i + 1).drop_last() =~= s.take(i));
                assert(s.take(i + 1).last() == s[i]);
                let step = kept_arguments(s.take(i + 1), env);
            }
            assert(arg@ == s[i]);
            let mut expr = match arg {
                Argument::SpreadElement { span, argument } => {
                    let elements = vec![ArrayExpressionElement::SpreadElement { span, argument }];
                    assert(elements_view(elements@) =~= seq![
                        Element::Spread { span, argument: argument@ },
                    ]);
                    Expression::ArrayExpression { span, elements, trailing_comma: None }
                },
                Argument::Expression(e) => e,
            };
            assert(expr@ == argument_expression(s[i]));
            if !self.remove_unused_expression(&mut expr, ctx) {
                needed.push(expr);
                assert(expressions_view(needed@) =~= expressions_view(before).push(expr@));
            }
        }
        assert(s.take(s.len() as int) =~= s);
        needed
    }

    /// `/* @__PURE__ */ new Foo(a())` to `a()`; `new Map()` to nothing.
    pub(crate) fn fold_new_constructor<'a>(
        &mut self,
        e: &mut Expression<'a>,
        ctx: &Ctx,
    ) -> (removed: bool)
        ensures
            final(e)@ == unused_if(old(e)@ is New, old(e)@, old(self).env(*ctx)).expr,
            removed == unused_if(old(e)@ is New, old(e)@, old(self).env(*ctx)).removed,
            *final(self) == old(self).after(
                unused_if(old(e)@ is New, old(e)@, old(self).env(*ctx)),
            ),
        decreases old(e)@.size(), 0nat,
    {
        let ghost env = self.env(*ctx);
        match e.take() {
            Expression::NewExpression { span, callee, mut arguments, pure } => {
                if pure {
                    let ghost kept = kept_arguments(arguments_view(arguments@), env);
                    let exprs = self.fold_arguments_into_needed_expressions(&mut arguments, ctx);
                    if exprs.len() == 0 {
                        assert(arguments_view(arguments@) =~= seq![]);
                        *e = Expression::NewExpression { span, callee, arguments, pure };
                        return true;
                    }
                    *e = sequence_of(span, exprs);
                    self.mark_current_function_as_changed();
                    false
                } else {
                    let removed = is_construction_only(&callee, &arguments, ctx);
                    *e = Expression::NewExpression { span, callee, arguments, pure };
                    removed
                }
            },
            other => {
                *e = other;
                false
            },
        }
    }

    /// `/* @__PURE__ */ foo(a())` to `a()`; `(() => a())()` to `a()`; `(() => {})()` to nothing.
    pub(crate) fn fold_call_expression<'a>(
        &mut self,
        e: &mut Expression<'a>,
        ctx: &Ctx,
    ) -> (removed: bool)
        ensures
            final(e)@ == unused_if(old(e)@ is Call, old(e)@, old(self).env(*ctx)).expr,
            removed == unused_if(old(e)@ is Call, old(e)@, old(self).env(*ctx)).removed,
            *final(self) == old(self).after(
                unused_if(old(e)@ is Call, old(e)@, old(self).env(*ctx)),
            ),
        decreases old(e)@.size(), 0nat,
    {
        let ghost env = self.env(*ctx);
        let ghost whole = e@;
        match e.take() {
            Expression::CallExpression { span, callee, mut arguments, optional, pure } => {
                if pure {
                    let ghost kept = kept_arguments(arguments_view(arguments@), env);
                    let exprs = self.fold_arguments_into_needed_expressions(&mut arguments, ctx);
                    if exprs.len() == 0 {
                        assert(arguments_view(arguments@) =~= seq![]);
                        *e = Expression::CallExpression { span, callee, arguments, optional, pure };
                        return true;
                    }
                    *e = sequence_of(span, exprs);
                    self.mark_current_function_as_changed();
                    return false;
                }
                let ghost args = arguments_view(arguments@);
                if arguments.len() != 0 {
                    *e = Expression::CallExpression { span, callee, arguments, optional, pure };
                    assert(e@ == whole);
                    return false;
                }
                if callee.is_empty_function() {
                    *e = Expression::CallExpression { span, callee, arguments, optional, pure };
                    return true;
                }
                *e = Expression::CallExpression { span, callee, arguments, optional, pure };
                assert(e@ == whole);
                self.fold_called_arrow(e, ctx)
            },
            other => {
                *e = other;
                false
            },
        }
    }

    /// What the call of an arrow function leaves: the expression that is its body, or that its
    /// only statement evaluates.
    fn fold_called_arrow<'a>(&mut self, e: &mut Expression<'a>, ctx: &Ctx) -> (removed: bool)
        requires
            old(e)@ is Call,
        ensures
            final(e)@ == unused_body(
                old(e)@,
                *old(e)@->Call_callee,
                old(self).env(*ctx),
            ).expr,
            removed == unused_body(old(e)@, *old(e)@->Call_callee, old(self).env(*ctx)).removed,
            *final(self) == old(self).after(
                unused_body(old(e)@, *old(e)@->Call_callee, old(self).env(*ctx)),
            ),
        decreases old(e)@->Call_callee.size(), 1nat,
    {
        let ghost env = self.env(*ctx);
        let ghost whole = e@;
        match e.take() {
            Expression::CallExpression { span, callee, arguments, optional, pure } => {
                let ghost called = callee@;
                match *callee {
                    Expression::ArrowFunctionExpression {
                        span: arrow_span,
                        is_async: false,
                        body,
                        function,
                    } => {
                        let ghost b = body@;
                        assert(called->Arrow_body == b);
                        match body {
                            ArrowBody::Expression(expr) => {
                                assert(b.size() == expr@.size() + 1);
                                *e = *expr;
                                self.remove_unused_expression(e, ctx)
                            },
                            ArrowBody::Block { directives, mut statements } => {
                                let ghost s = statements_view(statements@);
                                assert(b.size() == statements_size(s) + 1);
                                let mut removed = false;
                                if statements.len() == 1 {
                                    assert(s.last() == s[0]);
                                    assert(statements_size(s) > s[0].size());
                                    assert(s[0] == statements@[0]@);
                                    match statements.pop() {
                                        Some(
                                            Statement::ExpressionStatement { expression, .. },
                                        ) => {
                                            assert(s[0].size() == expression@.size() + 1);
                                            *e = expression;
                                            return self.remove_unused_expression(e, ctx);
                                        },
                                        Some(
                                            Statement::ReturnStatement {
                                                span: return_span,
                                                argument,
                                            },
                                        ) => match argument {
                                            Some(argument) => {
                                                assert(s[0].size() == argument@.size() + 1);
                                                *e = argument;
                                                return self.remove_unused_expression(e, ctx);
                                            },
                                            None => {
                                                statements.push(
                                                    Statement::ReturnStatement {
                                                        span: return_span,
                                                        argument: None,
                                                    },
                                                );
                                                removed = true;
                                            },
                                        },
                                        Some(Statement::Other(node)) => {
                                            statements.push(Statement::Other(node));
                                        },
                                        None => {},
                                    }
                                }
                                assert(statements_view(statements@) =~= s);
                                let body = ArrowBody::Block { directives, statements };
                                assert(body@ == b);
                                let callee = Expression::ArrowFunctionExpression {
                                    span: arrow_span,
                                    is_async: false,
                                    body,
                                    function,
                                };
                                assert(callee@ == called);
                                *e = Expression::CallExpression {
                                    span,
                                    callee: Box::new(callee),
                                    arguments,
                                    optional,
                                    pure,
                                };
                                removed
                            },
                        }
                    },
                    callee => {
                        assert(callee@ == called);
                        *e = Expression::CallExpression {
                            span,
                            callee: Box::new(callee),
                            arguments,
                            optional,
                            pure,
                        };
                        false
                    },
                }
            },
            other => {
                *e = other;
                false
            },
        }
    }
}

} // verus!
