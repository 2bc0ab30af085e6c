//! The pass keeps what an expression does.
use crate::analysis::is_comparison;
use crate::ast::{Arg, Body, Element, Expr, Ident, Key, Prop, Quasi, Span, Stmt};
use crate::boolean_context::{boolean_context, lemma_boolean_context_size};
use crate::ctx::is_global;
use crate::join::join;
use crate::measure::{
    arguments_size, elements_size, expressions_size, properties_size, statements_size,
};
use crate::optional_chain::{guarded, guarded_links, is_specific_id};
use crate::rewrite::{
    argument_expression, as_optional_chain, bare_template, blanked_string, converts_to_string,
    is_empty_function, element_expressions, folded_left, has_effects, has_spread, in_order,
    is_bare_template, is_string, kept, kept_arguments, kept_elements, kept_key, kept_properties,
    kept_substitutions, lemma_argument_size, reduced, shortened_sum, tested_variable, unused,
    unused_array, unused_body, unused_comparison, unused_conditional, unused_logical, unused_object,
    unused_template, with_object, with_template, Env,
};
use crate::semantics::{
    all_regular, arguments_regular, decides, elements_regular, exec,
    exec_all, exec_argument, exec_arguments, exec_call, exec_element, exec_elements, exec_key,
    exec_link, exec_properties, exec_property, exec_reference, exec_substitutions, faithful,
    is_regular, is_regular_callee, is_regular_sum, is_told_from_null, key_regular, negates,
    properties_regular, settled, skipped, substitutions_regular, Machine,
};
use oxc_syntax::operator::{BinaryOperator, LogicalOperator, UnaryOperator};
use vstd::prelude::*;

verus! {

/// Taking double negations out of an expression keeps what it does and whether its value is true.
pub proof fn law_boolean_context<'a, V, W>(m: Machine<'a, V, W>, e: Expr<'a>, w: W)
    requires
        negates(m),
    ensures
        exec(m, boolean_context(e).expr, w).1 == exec(m, e, w).1,
        (m.truthy)(exec(m, boolean_context(e).expr, w).0) == (m.truthy)(exec(m, e, w).0),
    decreases e,
{
    let f = boolean_context(e).expr;
    match e {
        Expr::Unary { operator: UnaryOperator::LogicalNot, argument, .. } => match *argument {
            Expr::Unary { operator: UnaryOperator::LogicalNot, argument: inner, .. } => {
                law_boolean_context(m, *inner, w);
                let once = exec(m, *argument, w);
                let twice = exec(m, e, w);
            },
            _ => {},
        },
        Expr::Logical { left, operator, right, .. } => {
            if operator !is Coalesce {
                law_boolean_context(m, *left, w);
                let l = exec(m, *left, w);
                law_boolean_context(m, *right, l.1);
            }
        },
        Expr::Conditional { test, consequent, alternate, .. } => {
            let t = exec(m, *test, w);
            law_boolean_context(m, *consequent, t.1);
            law_boolean_context(m, *alternate, t.1);
        },
        _ => {},
    }
}

/// Joining two expressions by a logical operator gives what the operator gives: the same value,
/// after doing the same.
pub proof fn law_join<'a, V, W>(
    m: Machine<'a, V, W>,
    span: Span,
    op: LogicalOperator,
    a: Expr<'a>,
    b: Expr<'a>,
    w: W,
)
    ensures
        exec(m, join(span, op, a, b), w) == exec(
            m,
            (Expr::Logical { span, left: Box::new(a), operator: op, right: Box::new(b) }),
            w,
        ),
    decreases b.size(), a.size(),
{
    let j = join(span, op, a, b);
    let plain = Expr::Logical { span, left: Box::new(a), operator: op, right: Box::new(b) };
    if a is Sequence && a->Sequence_expressions.len() > 0 {
        let s = a->Sequence_expressions;
        assert(s.last().size() < expressions_size(s));
        let w0 = exec_all(m, s.drop_last(), w);
        let tail = join(span, op, s.last(), b);
        law_join(m, span, op, s.last(), b, w0);
        assert(s.drop_last().push(tail).drop_last() =~= s.drop_last());
        assert(exec(m, j, w) == exec(m, tail, w0));
        assert(exec(m, a, w) == exec(m, s.last(), w0));
    } else if b is Logical && b->Logical_operator == op {
        let first = join(span, op, a, *b->Logical_left);
        law_join(m, span, op, a, *b->Logical_left, w);
        law_join(m, span, op, first, *b->Logical_right, w);
        let inner = Expr::Logical {
            span,
            left: Box::new(a),
            operator: op,
            right: b->Logical_left,
        };
        let l = exec(m, a, w);
        assert(exec(m, first, w) == exec(m, inner, w));
        assert(exec(m, b, l.1) == {
            let x = exec(m, *b->Logical_left, l.1);
            if decides(m, op, x.0) {
                x
            } else {
                exec(m, *b->Logical_right, x.1)
            }
        });
    }
}

/// Shortening a chain of `+` keeps whether the chain is surely a string. One that is not stays as
/// it is.
pub proof fn law_sum_is_string(e: Expr<'_>, env: Env)
    ensures
        is_string(shortened_sum(e, env).expr, env) == is_string(e, env),
        !is_string(e, env) ==> shortened_sum(e, env).expr == e && !shortened_sum(e, env).changed,
    decreases e.size(),
{
    match e {
        Expr::Binary { left, operator: BinaryOperator::Addition, right, .. } => {
            law_sum_is_string(*left, env);
            let sum = shortened_sum(e, env).expr;
            let l = shortened_sum(*left, env).expr;
            assert(is_string(*left, env) || is_string(*right, env) <==> is_string(e, env));
            let first = blanked_string(l, has_effects(l, env)).0;
            let second = blanked_string(*right, has_effects(*right, env)).0;
            if is_string(*left, env) {
                assert(is_string(first, env));
            }
            if is_string(*right, env) {
                assert(is_string(second, env));
            }
        },
        _ => {},
    }
}

/// Shortening a chain of `+` keeps what it does.
pub proof fn law_sum<'a, V, W>(m: Machine<'a, V, W>, e: Expr<'a>, env: Env, w: W)
    requires
        faithful(m, env),
        is_regular_sum(m, e, env),
    ensures
        exec(m, shortened_sum(e, env).expr, w).1 == exec(m, e, w).1,
    decreases e.size(),
{
    match e {
        Expr::Binary { span, left, operator: BinaryOperator::Addition, right } => {
            let l = exec(m, *left, w);
            let r = exec(m, *right, l.1);
            assert(exec(m, e, w) == (m.plus)(l.0, r.0, r.1));
            if is_string(*left, env) {
                law_sum_is_string(*left, env);
                law_sum(m, *left, env, w);
                let s = shortened_sum(*left, env).expr;
                let first = blanked_string(s, has_effects(s, env)).0;
                let kept = exec(m, s, w);
                let f = exec(m, first, w);
                assert(is_string(first, env));
                assert(f.1 == l.1);
                let rest = Expr::Binary {
                    span,
                    left: Box::new(first),
                    operator: BinaryOperator::Addition,
                    right,
                };
                assert(exec(m, rest, w) == (m.plus)(f.0, r.0, r.1));
            } else if is_string(*right, env) {
                let second = blanked_string(*right, has_effects(*right, env)).0;
                let t = exec(m, second, l.1);
                assert(is_string(second, env));
                assert(t.1 == r.1);
                let rest = Expr::Binary {
                    span,
                    left,
                    operator: BinaryOperator::Addition,
                    right: Box::new(second),
                };
                assert(exec(m, rest, w) == (m.plus)(l.0, t.0, t.1));
            }
        },
        _ => {},
    }
}

/// Whether `e` is a call with arguments that is marked as pure.
pub open spec fn calls_purely(e: Expr<'_>) -> bool {
    e is Call && e->Call_pure && e->Call_arguments.len() > 0
}

/// Whether none of `s` is a call with arguments that is marked as pure.
pub open spec fn none_calls_purely(s: Seq<Expr<'_>>) -> bool {
    forall|i: int| 0 <= i < s.len() ==> !calls_purely(#[trigger] s[i])
}

proof fn lemma_join_is_no_call<'a>(span: Span, op: LogicalOperator, a: Expr<'a>, b: Expr<'a>)
    ensures
        join(span, op, a, b) !is Call,
    decreases b.size(), a.size(),
{
    if a is Sequence && a->Sequence_expressions.len() > 0 {
    } else if b is Logical && b->Logical_operator == op {
        lemma_join_is_no_call(span, op, join(span, op, a, *b->Logical_left), *b->Logical_right);
    }
}

proof fn lemma_pure_arguments(s: Seq<Arg<'_>>, env: Env)
    ensures
        none_calls_purely(kept_arguments(s, env).exprs),
    decreases arguments_size(s), 2nat,
{
    if s.len() > 0 {
        lemma_pure_arguments(s.drop_last(), env);
        lemma_argument_size(s.last());
        law_pure_call(argument_expression(s.last()), env);
    }
}

proof fn lemma_pure_elements(s: Seq<Element<'_>>, env: Env)
    ensures
        forall|i: int|
            0 <= i < kept_elements(s, env).elements.len() ==> match #[trigger] kept_elements(
                s,
                env,
            ).elements[i] {
                Element::Expression(e) => !calls_purely(e),
                Element::Spread { .. } => true,
                Element::Elision { .. } => false,
            },
    decreases elements_size(s), 2nat,
{
    if s.len() > 0 {
        lemma_pure_elements(s.drop_last(), env);
        match s.last() {
            Element::Expression(e) => {
                assert(s.last().size() == e.size() + 1);
                law_pure_call(e, env);
            },
            _ => {},
        }
    }
}

proof fn lemma_pure_substitutions(s: Seq<Expr<'_>>, env: Env)
    ensures
        none_calls_purely(kept_substitutions(s, env).exprs),
    decreases expressions_size(s), 2nat,
{
    if s.len() > 0 {
        lemma_pure_substitutions(s.drop_last(), env);
        law_pure_call(s.last(), env);
    }
}

proof fn lemma_pure_properties(s: Seq<Prop<'_>>, env: Env)
    ensures
        none_calls_purely(kept_properties(s, env).exprs),
    decreases properties_size(s), 2nat,
{
    if s.len() > 0 {
        lemma_pure_properties(s.drop_last(), env);
        match s.last() {
            Prop::Property { span, key, value, .. } => {
                assert(s.last().size() == key.size() + value.size() + 1);
                law_pure_call(value, env);
                let init = kept_properties(s.drop_last(), env);
                let before = with_object(span, init.exprs, init.pending);
                let k = kept_key(before, key, env);
                match key {
                    Key::Expression(e) => {
                        assert(key.size() == e.size() + 1);
                        law_pure_call(e, env);
                    },
                    _ => {},
                }
            },
            Prop::Spread { .. } => {},
        }
    }
}

proof fn lemma_pure_body<'a>(e: Expr<'a>, callee: Expr<'a>, env: Env)
    requires
        !calls_purely(e),
    ensures
        !calls_purely(unused_body(e, callee, env).expr),
    decreases callee.size(), 1nat,
{
    match callee {
        Expr::Arrow { is_async: false, body, .. } => match body {
            Body::Expression(x) => {
                assert(body.size() == x.size() + 1);
                law_pure_call(*x, env);
            },
            Body::Block { statements, .. } => {
                if statements.len() == 1 {
                    assert(body.size() > statements_size(statements) > statements.last().size());
                    match statements[0] {
                        Stmt::Expression { expression, .. } => {
                            law_pure_call(expression, env);
                        },
                        Stmt::Return { argument: Some(argument), .. } => {
                            law_pure_call(argument, env);
                        },
                        _ => {},
                    }
                }
            },
        },
        _ => {},
    }
}

/// A call that is marked as pure does not stay with its arguments.
pub proof fn law_pure_call(e: Expr<'_>, env: Env)
    ensures
        !calls_purely(unused(e, env).expr),
    decreases e.size(), 1nat,
{
    let o = unused(e, env);
    match e {
        Expr::Array { span, elements, trailing_comma } => {
            let a = unused_array(span, elements, trailing_comma, env);
            lemma_pure_elements(elements, env);
            let kept = kept_elements(elements, env).elements;
            if kept.len() == 1 && !has_spread(kept) {
                assert(element_expressions(kept)[0] == kept[0]->Expression_0);
            }
        },
        Expr::Unary { argument, .. } => {
            law_pure_call(*argument, env);
        },
        Expr::New { arguments, .. } => {
            lemma_pure_arguments(arguments, env);
        },
        Expr::Logical { span, left, operator, right } => {
            let l = unused_logical(span, *left, operator, *right, env);
            lemma_boolean_context_size(*left);
            law_pure_call(folded_left(*left, operator).expr, env);
        },
        Expr::Template { span, quasis, expressions } => {
            let t = unused_template(span, quasis, expressions, env);
            lemma_pure_substitutions(expressions, env);
        },
        Expr::Object { span, properties, trailing_comma } => {
            let p = unused_object(span, properties, trailing_comma, env);
            lemma_pure_properties(properties, env);
        },
        Expr::Conditional { span, test, consequent, alternate } => {
            let d = unused_conditional(span, *test, *consequent, *alternate, env);
            law_pure_call(*test, env);
            let c = unused(*consequent, env).expr;
            let a = unused(*alternate, env).expr;
            lemma_join_is_no_call(span, LogicalOperator::Or, *test, a);
            lemma_join_is_no_call(span, LogicalOperator::And, *test, c);
        },
        Expr::Binary { span, left, operator, right } => {
            let c = unused_comparison(span, *left, operator, *right, env);
            if is_comparison(operator) {
                law_pure_call(*left, env);
                law_pure_call(*right, env);
            } else if operator is Addition {
                law_sum_is_string(e, env);
                assert(is_string(o.expr, env) ==> o.expr !is Call);
            }
        },
        Expr::Call { callee, arguments, pure, .. } => {
            lemma_pure_arguments(arguments, env);
            if !pure {
                lemma_pure_body(e, *callee, env);
            }
        },
        _ => {},
    }
}

/// What is left of an unused expression does what the expression does. Where nothing is needed,
/// the expression does nothing.
pub open spec fn preserves<'a, V, W>(m: Machine<'a, V, W>, e: Expr<'a>, env: Env, w: W) -> bool {
    &&& exec(m, unused(e, env).expr, w).1 == exec(m, e, w).1
    &&& unused(e, env).removed ==> exec(m, e, w).1 == w
}

/// The world after a list with one more expression.
proof fn lemma_exec_push<'a, V, W>(m: Machine<'a, V, W>, s: Seq<Expr<'a>>, e: Expr<'a>, w: W)
    ensures
        exec_all(m, s.push(e), w) == exec(m, e, exec_all(m, s, w)).1,
{
    assert(s.push(e).drop_last() =~= s);
    let all = exec_all(m, s.push(e), w);
}

/// Expressions in order do what they do one after the other.
proof fn lemma_exec_in_order<'a, V, W>(m: Machine<'a, V, W>, span: Span, s: Seq<Expr<'a>>, w: W)
    ensures
        exec(m, in_order(span, s), w).1 == exec_all(m, s, w),
{
    let e = in_order(span, s);
    if s.len() == 1 {
        assert(s.drop_last() =~= seq![]);
        assert(exec_all(m, s.drop_last(), w) == w);
    }
}

/// What becomes of an expression of which `exprs` are left.
proof fn lemma_reduced<'a, V, W>(
    m: Machine<'a, V, W>,
    span: Span,
    exprs: Seq<Expr<'a>>,
    changed: bool,
    rest: Expr<'a>,
    w: W,
)
    requires
        exec(m, rest, w).1 == w,
    ensures
        exec(m, reduced(span, exprs, changed, rest).expr, w).1 == exec_all(m, exprs, w),
        reduced(span, exprs, changed, rest).removed ==> exec_all(m, exprs, w) == w,
{
    lemma_exec_in_order(m, span, exprs, w);
}

/// What is left of a list of expressions does what the list does.
proof fn lemma_kept<'a, V, W>(m: Machine<'a, V, W>, s: Seq<Expr<'a>>, env: Env, w: W)
    requires
        faithful(m, env),
        all_regular(m, s, env),
    ensures
        exec_all(m, kept(s, env).exprs, w) == exec_all(m, s, w),
    decreases expressions_size(s), 2nat,
{
    if s.len() > 0 {
        lemma_kept(m, s.drop_last(), env, w);
        let w0 = exec_all(m, s.drop_last(), w);
        law_preservation(m, s.last(), env, w0);
        lemma_exec_push(m, kept(s.drop_last(), env).exprs, unused(s.last(), env).expr, w);
    }
}

/// What is left of a list of arguments does what the arguments do.
proof fn lemma_kept_arguments<'a, V, W>(m: Machine<'a, V, W>, s: Seq<Arg<'a>>, env: Env, w: W)
    requires
        faithful(m, env),
        arguments_regular(m, s, env),
    ensures
        exec_all(m, kept_arguments(s, env).exprs, w) == exec_arguments(m, s, w),
    decreases arguments_size(s), 2nat,
{
    if s.len() > 0 {
        lemma_kept_arguments(m, s.drop_last(), env, w);
        let w0 = exec_arguments(m, s.drop_last(), w);
        let e = argument_expression(s.last());
        lemma_argument_size(s.last());
        law_preservation(m, e, env, w0);
        lemma_exec_argument(m, s.last(), w0);
        lemma_exec_push(m, kept_arguments(s.drop_last(), env).exprs, unused(e, env).expr, w);
    }
}

/// The expression of an argument does what evaluating the argument does.
proof fn lemma_exec_argument<'a, V, W>(m: Machine<'a, V, W>, a: Arg<'a>, w: W)
    ensures
        exec(m, argument_expression(a), w).1 == exec_argument(m, a, w),
{
    match a {
        Arg::Spread { span, argument } => {
            let element = Element::Spread { span, argument };
            let s = seq![element];
            assert(s.drop_last() =~= seq![]);
            assert(exec_elements(m, s.drop_last(), w) == w);
            assert(exec_elements(m, s, w) == exec_element(m, element, w));
        },
        Arg::Expression(_) => {},
    }
}

/// What is left of the elements of an array does what the elements do.
proof fn lemma_kept_elements<'a, V, W>(m: Machine<'a, V, W>, s: Seq<Element<'a>>, env: Env, w: W)
    requires
        faithful(m, env),
        elements_regular(m, s, env),
    ensures
        exec_elements(m, kept_elements(s, env).elements, w) == exec_elements(m, s, w),
        forall|i: int|
            0 <= i < kept_elements(s, env).elements.len() ==> !(#[trigger] kept_elements(
                s,
                env,
            ).elements[i] is Elision),
    decreases elements_size(s), 2nat,
{
    if s.len() > 0 {
        lemma_kept_elements(m, s.drop_last(), env, w);
        let w0 = exec_elements(m, s.drop_last(), w);
        let init = kept_elements(s.drop_last(), env).elements;
        let all = exec_element(m, s.last(), w0);
        match s.last() {
            Element::Spread { argument, .. } => {
                assert(init.push(s.last()).drop_last() =~= init);
                let pushed = exec_elements(m, init.push(s.last()), w);
                let a = exec(m, argument, w0);
            },
            Element::Elision { .. } => {},
            Element::Expression(e) => {
                assert(s.last().size() == e.size() + 1);
                law_preservation(m, e, env, w0);
                let x = Element::Expression(unused(e, env).expr);
                assert(init.push(x).drop_last() =~= init);
                let pushed = exec_elements(m, init.push(x), w);
                let last = exec_element(m, x, w0);
            },
        }
    }
}

/// Elements that are all expressions do what the expressions do.
proof fn lemma_element_expressions<'a, V, W>(m: Machine<'a, V, W>, s: Seq<Element<'a>>, w: W)
    requires
        forall|i: int| 0 <= i < s.len() ==> #[trigger] s[i] is Expression,
    ensures
        exec_all(m, element_expressions(s), w) == exec_elements(m, s, w),
    decreases s.len(),
{
    if s.len() > 0 {
        lemma_element_expressions(m, s.drop_last(), w);
        assert(element_expressions(s).drop_last() =~= element_expressions(s.drop_last()));
        assert(s[s.len() - 1] is Expression);
        let w0 = exec_elements(m, s.drop_last(), w);
        let last = exec_element(m, s.last(), w0);
    }
}

proof fn lemma_unused_array<'a, V, W>(
    m: Machine<'a, V, W>,
    span: Span,
    elements: Seq<Element<'a>>,
    trailing_comma: Option<Span>,
    env: Env,
    w: W,
)
    requires
        faithful(m, env),
        elements_regular(m, elements, env),
    ensures
        exec(m, unused_array(span, elements, trailing_comma, env).expr, w).1 == exec_elements(
            m,
            elements,
            w,
        ),
        unused_array(span, elements, trailing_comma, env).removed ==> exec_elements(
            m,
            elements,
            w,
        ) == w,
    decreases elements_size(elements) + 1, 0nat,
{
    lemma_kept_elements(m, elements, env, w);
    let kept = kept_elements(elements, env).elements;
    let rest = Expr::Array { span, elements: kept, trailing_comma };
    assert(exec(m, rest, w).1 == exec_elements(m, kept, w));
    if kept.len() > 0 && !has_spread(kept) {
        lemma_element_expressions(m, kept, w);
        lemma_exec_in_order(m, span, element_expressions(kept), w);
    }
}

/// Expressions, then substitutions in a template literal of their own.
proof fn lemma_with_template<'a, V, W>(
    m: Machine<'a, V, W>,
    span: Span,
    exprs: Seq<Expr<'a>>,
    pending: Seq<Expr<'a>>,
    w: W,
)
    ensures
        exec_all(m, with_template(span, exprs, pending), w) == exec_substitutions(
            m,
            pending,
            exec_all(m, exprs, w),
        ),
{
    if pending.len() > 0 {
        lemma_exec_push(m, exprs, bare_template(span, pending), w);
        let template = exec(m, bare_template(span, pending), exec_all(m, exprs, w));
    }
}

/// What is left of the substitutions of a template literal does what the substitutions do.
proof fn lemma_kept_substitutions<'a, V, W>(m: Machine<'a, V, W>, s: Seq<Expr<'a>>, env: Env, w: W)
    requires
        faithful(m, env),
        substitutions_regular(m, s, env),
    ensures
        exec_substitutions(
            m,
            kept_substitutions(s, env).pending,
            exec_all(m, kept_substitutions(s, env).exprs, w),
        ) == exec_substitutions(m, s, w),
    decreases expressions_size(s), 2nat,
{
    if s.len() == 0 {
        assert(exec_all(m, Seq::<Expr<'a>>::empty(), w) == w);
    } else {
        lemma_kept_substitutions(m, s.drop_last(), env, w);
        let init = kept_substitutions(s.drop_last(), env);
        let w0 = exec_substitutions(m, s.drop_last(), w);
        let last = exec(m, s.last(), w0);
        if !converts_to_string(s.last(), env) {
            let pending = init.pending.push(s.last());
            assert(pending.drop_last() =~= init.pending);
            let all = exec_substitutions(m, pending, exec_all(m, init.exprs, w));
        } else {
            law_preservation(m, s.last(), env, w0);
            let o = unused(s.last(), env);
            if !o.removed {
                let flushed = with_template(o.expr.span(), init.exprs, init.pending);
                lemma_with_template(m, o.expr.span(), init.exprs, init.pending, w);
                lemma_exec_push(m, flushed, o.expr, w);
                let done = exec_all(m, flushed.push(o.expr), w);
                assert(exec_substitutions(m, Seq::<Expr<'a>>::empty(), done) == done);
            }
        }
    }
}

proof fn lemma_unused_template<'a, V, W>(
    m: Machine<'a, V, W>,
    span: Span,
    quasis: Seq<Quasi>,
    expressions: Seq<Expr<'a>>,
    env: Env,
    w: W,
)
    requires
        faithful(m, env),
        substitutions_regular(m, expressions, env),
    ensures
        exec(m, unused_template(span, quasis, expressions, env).expr, w).1 == exec_substitutions(
            m,
            expressions,
            w,
        ),
        unused_template(span, quasis, expressions, env).removed ==> exec_substitutions(
            m,
            expressions,
            w,
        ) == w,
    decreases expressions_size(expressions) + 1, 0nat,
{
    let whole = Expr::Template { span, quasis, expressions };
    assert(exec(m, whole, w).1 == exec_substitutions(m, expressions, w));
    if expressions.len() > 0 && !is_bare_template(quasis, expressions, env) {
        lemma_kept_substitutions(m, expressions, env, w);
        let kept = kept_substitutions(expressions, env);
        let left = with_template(span, kept.exprs, kept.pending);
        lemma_with_template(m, span, kept.exprs, kept.pending, w);
        let rest = Expr::Template { span, quasis, expressions: Seq::<Expr<'a>>::empty() };
        assert(exec(m, rest, w).1 == exec_substitutions(m, Seq::<Expr<'a>>::empty(), w));
        lemma_reduced(m, span, left, kept.changed, rest, w);
    }
}

/// Expressions, then spread properties in an object literal of their own.
proof fn lemma_with_object<'a, V, W>(
    m: Machine<'a, V, W>,
    span: Span,
    exprs: Seq<Expr<'a>>,
    pending: Seq<Prop<'a>>,
    w: W,
)
    ensures
        exec_all(m, with_object(span, exprs, pending), w) == exec_properties(
            m,
            pending,
            exec_all(m, exprs, w),
        ),
{
    if pending.len() > 0 {
        let object = Expr::Object { span, properties: pending, trailing_comma: None };
        lemma_exec_push(m, exprs, object, w);
        let done = exec(m, object, exec_all(m, exprs, w));
    }
}

/// What is left of a key does what the key does.
proof fn lemma_kept_key<'a, V, W>(
    m: Machine<'a, V, W>,
    before: Seq<Expr<'a>>,
    key: Key<'a>,
    env: Env,
    w: W,
)
    requires
        faithful(m, env),
        key_regular(m, key, env),
    ensures
        exec_all(m, kept_key(before, key, env).exprs, w) == exec_key(
            m,
            key,
            exec_all(m, before, w),
        ),
    decreases key.size(), 2nat,
{
    match key {
        Key::Expression(e) => {
            law_preservation(m, e, env, exec_all(m, before, w));
            lemma_exec_push(m, before, unused(e, env).expr, w);
        },
        _ => {},
    }
}

/// What is left of the properties of an object does what the properties do.
proof fn lemma_kept_properties<'a, V, W>(m: Machine<'a, V, W>, s: Seq<Prop<'a>>, env: Env, w: W)
    requires
        faithful(m, env),
        properties_regular(m, s, env),
    ensures
        exec_properties(
            m,
            kept_properties(s, env).pending,
            exec_all(m, kept_properties(s, env).exprs, w),
        ) == exec_properties(m, s, w),
    decreases properties_size(s), 2nat,
{
    if s.len() == 0 {
        assert(exec_all(m, Seq::<Expr<'a>>::empty(), w) == w);
    } else {
        lemma_kept_properties(m, s.drop_last(), env, w);
        let init = kept_properties(s.drop_last(), env);
        let w0 = exec_properties(m, s.drop_last(), w);
        let last = exec_property(m, s.last(), w0);
        match s.last() {
            Prop::Spread { .. } => {
                let pending = init.pending.push(s.last());
                assert(pending.drop_last() =~= init.pending);
                let all = exec_properties(m, pending, exec_all(m, init.exprs, w));
            },
            Prop::Property { span, key, value, .. } => {
                assert(s.last().size() == key.size() + value.size() + 1);
                let before = with_object(span, init.exprs, init.pending);
                lemma_with_object(m, span, init.exprs, init.pending, w);
                lemma_kept_key(m, before, key, env, w);
                let k = kept_key(before, key, env);
                let w1 = exec_key(m, key, w0);
                law_preservation(m, value, env, w1);
                let v = unused(value, env);
                lemma_exec_push(m, k.exprs, v.expr, w);
                let done = exec_all(m, kept_properties(s, env).exprs, w);
                assert(exec_properties(m, Seq::<Prop<'a>>::empty(), done) == done);
            },
        }
    }
}

proof fn lemma_unused_object<'a, V, W>(
    m: Machine<'a, V, W>,
    span: Span,
    properties: Seq<Prop<'a>>,
    trailing_comma: Option<Span>,
    env: Env,
    w: W,
)
    requires
        faithful(m, env),
        properties_regular(m, properties, env),
    ensures
        exec(m, unused_object(span, properties, trailing_comma, env).expr, w).1
            == exec_properties(m, properties, w),
        unused_object(span, properties, trailing_comma, env).removed ==> exec_properties(
            m,
            properties,
            w,
        ) == w,
    decreases properties_size(properties) + 1, 0nat,
{
    let whole = Expr::Object { span, properties, trailing_comma };
    assert(exec(m, whole, w).1 == exec_properties(m, properties, w));
    if properties.len() > 0 {
        lemma_kept_properties(m, properties, env, w);
        let kept = kept_properties(properties, env);
        let left = with_object(span, kept.exprs, kept.pending);
        lemma_with_object(m, span, kept.exprs, kept.pending, w);
        let rest = Expr::Object { span, properties: Seq::<Prop<'a>>::empty(), trailing_comma };
        assert(exec(m, rest, w).1 == exec_properties(m, Seq::<Prop<'a>>::empty(), w));
        lemma_reduced(m, span, left, kept.changed, rest, w);
    }
}

/// The links of a chain that is made to start with `id?.`: skipped where `id` is null or undefined,
/// and elsewhere the links without the `?.`.
proof fn lemma_guarded_links<'a, V, W>(m: Machine<'a, V, W>, id: Ident, e: Expr<'a>, env: Env, w: W)
    requires
        faithful(m, env),
        !is_global(env.globals, id.reference_id),
        guarded_links(id.name, Expr::Identifier(id), e) is Some,
    ensures
        ({
            let links = guarded_links(id.name, Expr::Identifier(id), e)->Some_0;
            &&& links is Call || links is StaticMember || links is ComputedMember
            &&& e is Call || e is StaticMember || e is ComputedMember
            &&& if (m.nullish)(exec(m, Expr::Identifier(id), w).0) {
                exec_link(m, links, w) == skipped(m, w)
            } else {
                exec_link(m, links, w) == exec_link(m, e, w)
            }
        }),
    decreases e,
{
    let start = Expr::Identifier::<'a>(id);
    let links = guarded_links(id.name, start, e)->Some_0;
    let read = exec(m, start, w);
    assert(read.1 == w);
    let before = match e {
        Expr::StaticMember { object, .. } => *object,
        Expr::ComputedMember { object, .. } => *object,
        _ => *e->Call_callee,
    };
    let guarded_before = match links {
        Expr::StaticMember { object, .. } => *object,
        Expr::ComputedMember { object, .. } => *object,
        _ => *links->Call_callee,
    };
    let inner = guarded_links(id.name, start, before);
    assert(guarded_before == if is_specific_id(before, id.name) {
        start
    } else {
        inner->Some_0
    });
    let b = exec_reference(m, before, w);
    let g = exec_reference(m, guarded_before, w);
    match before {
        Expr::Identifier(i) => {
            if i.name == id.name {
                assert(exec(m, Expr::Identifier(i), w) == read);
            }
        },
        _ => {
            lemma_guarded_links(m, id, before, env, w);
        },
    }
    match e {
        Expr::Call { callee, .. } => {
            assert(exec_call(m, e, before, w) is None);
            assert(exec_call(m, links, guarded_before, w) is None);
        },
        _ => {},
    }
    let plain = exec_link(m, e, w);
    let done = exec_link(m, links, w);
}

/// An optional chain that starts at a declared variable does nothing where the variable is null
/// or undefined, and elsewhere what it does without the `?.`.
///
/// `e`, which the chain is made of, is no call that is marked as pure, unless it has no arguments:
/// the pass makes no chain of such a call, for it does not keep the call.
pub proof fn law_guarded<'a, V, W>(m: Machine<'a, V, W>, id: Ident, e: Expr<'a>, env: Env, w: W)
    requires
        faithful(m, env),
        !is_global(env.globals, id.reference_id),
        guarded(id.name, Expr::Identifier(id), e) is Some,
        !calls_purely(e),
    ensures
        exec(m, guarded(id.name, Expr::Identifier(id), e)->Some_0, w).1 == if (m.nullish)(
            exec(m, Expr::Identifier(id), w).0,
        ) {
            w
        } else {
            exec(m, e, w).1
        },
{
    let start = Expr::Identifier::<'a>(id);
    let chain = guarded(id.name, start, e)->Some_0;
    let inner = match e {
        Expr::Chain { expression, .. } => *expression,
        _ => e,
    };
    lemma_guarded_links(m, id, inner, env, w);
    let links = guarded_links(id.name, start, inner)->Some_0;
    let done = exec(m, chain, w);
    let skipping = exec_reference(m, links, w);
    let plain = exec_reference(m, inner, w);
    assert(done == settled(m, skipping));
    match e {
        Expr::Call { arguments, pure: true, .. } => {
            let link = exec_link(m, e, w);
            assert(exec_arguments(m, arguments, w) == w);
        },
        _ => {},
    }
}

/// `a?.b()` does what `a != null && a.b()` does, where the pass writes one for the other.
pub proof fn law_optional_chain<'a, V, W>(
    m: Machine<'a, V, W>,
    span: Span,
    test: Expr<'a>,
    op: LogicalOperator,
    e: Expr<'a>,
    env: Env,
    w: W,
)
    requires
        faithful(m, env),
        as_optional_chain(test, op, e, env) is Some,
        !calls_purely(e),
    ensures
        exec(m, as_optional_chain(test, op, e, env)->Some_0, w).1 == exec(
            m,
            (Expr::Logical { span, left: Box::new(test), operator: op, right: Box::new(e) }),
            w,
        ).1,
{
    let id = tested_variable(test, op, env)->Some_0;
    let i = id->Identifier_0;
    let read = exec(m, id, w);
    assert(id == Expr::Identifier::<'a>(i));
    law_guarded(m, i, e, env, w);
    let left = *test->Binary_left;
    let right = *test->Binary_right;
    let l = exec(m, left, w);
    let r = exec(m, right, l.1);
    let t = exec(m, test, w);
    let null = if left is Null {
        left->Null_span
    } else {
        right->Null_span
    };
    assert(is_told_from_null(m, read.0, (m.eval)(Expr::Null { span: null }, w).0));
}

proof fn lemma_unused_logical<'a, V, W>(
    m: Machine<'a, V, W>,
    span: Span,
    left: Expr<'a>,
    operator: LogicalOperator,
    right: Expr<'a>,
    env: Env,
    w: W,
)
    requires
        faithful(m, env),
        is_regular(m, right, env),
        unused(right, env).removed ==> is_regular(m, folded_left(left, operator).expr, env),
    ensures
        exec(m, unused_logical(span, left, operator, right, env).expr, w).1 == exec(
            m,
            (Expr::Logical { span, left: Box::new(left), operator, right: Box::new(right) }),
            w,
        ).1,
    decreases left.size() + right.size() + 1, 0nat,
{
    let whole = Expr::Logical { span, left: Box::new(left), operator, right: Box::new(right) };
    let folded = folded_left(left, operator).expr;
    law_boolean_context(m, left, w);
    lemma_boolean_context_size(left);
    let l = exec(m, left, w);
    let f = exec(m, folded, w);
    assert(f.1 == l.1);
    assert(decides(m, operator, f.0) == decides(m, operator, l.0));
    law_preservation(m, right, env, l.1);
    let r = unused(right, env);
    if r.removed {
        law_preservation(m, folded, env, w);
    } else {
        let rebuilt = Expr::Logical {
            span,
            left: Box::new(folded),
            operator,
            right: Box::new(r.expr),
        };
        assert(exec(m, rebuilt, w).1 == exec(m, whole, w).1);
        if as_optional_chain(folded, operator, r.expr, env) is Some {
            law_pure_call(right, env);
            law_optional_chain(m, span, folded, operator, r.expr, env, w);
        }
    }
}

proof fn lemma_unused_conditional<'a, V, W>(
    m: Machine<'a, V, W>,
    span: Span,
    test: Expr<'a>,
    consequent: Expr<'a>,
    alternate: Expr<'a>,
    env: Env,
    w: W,
)
    requires
        faithful(m, env),
        is_regular(
            m, (Expr::Conditional {
                span,
                test: Box::new(test),
                consequent: Box::new(consequent),
                alternate: Box::new(alternate),
            }),
            env,
        ),
    ensures
        ({
            let whole = Expr::Conditional {
                span,
                test: Box::new(test),
                consequent: Box::new(consequent),
                alternate: Box::new(alternate),
            };
            let o = unused_conditional(span, test, consequent, alternate, env);
            &&& exec(m, o.expr, w).1 == exec(m, whole, w).1
            &&& o.removed ==> exec(m, whole, w).1 == w
        }),
    decreases test.size() + consequent.size() + alternate.size() + 1, 0nat,
{
    let t = exec(m, test, w);
    law_preservation(m, consequent, env, t.1);
    law_preservation(m, alternate, env, t.1);
    let c = unused(consequent, env);
    let a = unused(alternate, env);
    if c.removed && a.removed {
        law_preservation(m, test, env, w);
        let u = unused(test, env);
        let rest = Expr::Conditional {
            span,
            test: Box::new(u.expr),
            consequent: Box::new(c.expr),
            alternate: Box::new(a.expr),
        };
        let v = exec(m, u.expr, w);
        assert(exec(m, rest, w).1 == v.1);
    } else if c.removed {
        law_join(m, span, LogicalOperator::Or, test, a.expr, w);
    } else if a.removed {
        law_join(m, span, LogicalOperator::And, test, c.expr, w);
    }
}

proof fn lemma_unused_comparison<'a, V, W>(
    m: Machine<'a, V, W>,
    span: Span,
    left: Expr<'a>,
    operator: BinaryOperator,
    right: Expr<'a>,
    env: Env,
    w: W,
)
    requires
        faithful(m, env),
        is_comparison(operator),
        is_regular(m, left, env),
        is_regular(m, right, env),
    ensures
        ({
            let both = exec(m, right, exec(m, left, w).1).1;
            let o = unused_comparison(span, left, operator, right, env);
            &&& exec(m, o.expr, w).1 == both
            &&& o.removed ==> both == w
        }),
    decreases left.size() + right.size() + 1, 0nat,
{
    let w1 = exec(m, left, w).1;
    law_preservation(m, left, env, w);
    law_preservation(m, right, env, w1);
    let l = unused(left, env);
    let r = unused(right, env);
    if l.removed && r.removed {
        let rest = Expr::Binary {
            span,
            left: Box::new(l.expr),
            operator,
            right: Box::new(r.expr),
        };
        assert(exec(m, rest, w).1 == exec(m, r.expr, w1).1);
    } else if !l.removed && !r.removed {
        let s = seq![l.expr, r.expr];
        lemma_exec_in_order(m, span, s, w);
        assert(s =~= Seq::<Expr<'a>>::empty().push(l.expr).push(r.expr));
        lemma_exec_push(m, Seq::<Expr<'a>>::empty(), l.expr, w);
        lemma_exec_push(m, Seq::<Expr<'a>>::empty().push(l.expr), r.expr, w);
        assert(exec_all(m, Seq::<Expr<'a>>::empty(), w) == w);
    }
}

/// What is left of the call of an arrow function does what the call does.
proof fn lemma_unused_body<'a, V, W>(
    m: Machine<'a, V, W>,
    e: Expr<'a>,
    callee: Expr<'a>,
    env: Env,
    w: W,
)
    requires
        faithful(m, env),
        is_regular_callee(m, callee, env),
        !is_empty_function(callee),
        exec_call(m, e, callee, w) is Some ==> exec_call(m, e, callee, w) == Some(exec(m, e, w)),
    ensures
        exec(m, unused_body(e, callee, env).expr, w).1 == exec(m, e, w).1,
        unused_body(e, callee, env).removed ==> exec(m, e, w).1 == w,
    decreases callee.size(), 1nat,
{
    match callee {
        Expr::Arrow { is_async: false, body, .. } => match body {
            Body::Expression(x) => {
                assert(body.size() == x.size() + 1);
                law_preservation(m, *x, env, w);
            },
            Body::Block { statements, .. } => {
                if statements.len() == 1 {
                    assert(body.size() > statements_size(statements) > statements.last().size());
                    match statements[0] {
                        Stmt::Expression { expression, .. } => {
                            law_preservation(m, expression, env, w);
                        },
                        Stmt::Return { argument: Some(argument), .. } => {
                            law_preservation(m, argument, env, w);
                        },
                        _ => {},
                    }
                }
            },
        },
        _ => {},
    }
}

/// The pass keeps what an expression does: on every machine that is faithful to the language, what
/// is left of an unused expression does what the expression does, and an expression that is removed
/// does nothing, provided that what the analyses tell the pass of the expression holds.
pub proof fn law_preservation<'a, V, W>(m: Machine<'a, V, W>, e: Expr<'a>, env: Env, w: W)
    requires
        faithful(m, env),
        is_regular(m, e, env),
    ensures
        preserves(m, e, env, w),
    decreases e.size(), 1nat,
{
    let o = unused(e, env);
    let done = exec(m, e, w);
    match e {
        Expr::Array { span, elements, trailing_comma } => {
            lemma_unused_array(m, span, elements, trailing_comma, env, w);
        },
        Expr::Unary { operator, argument, .. } => {
            if operator is Void || operator is LogicalNot || (operator is Typeof && *argument
                !is Identifier) {
                law_preservation(m, *argument, env, w);
            }
        },
        Expr::New { span, callee, arguments, pure } => {
            if pure {
                lemma_kept_arguments(m, arguments, env, w);
                let kept = kept_arguments(arguments, env);
                let none = Seq::<Arg<'a>>::empty();
                let rest = Expr::New { span, callee, arguments: none, pure };
                assert(exec(m, rest, w).1 == exec_arguments(m, none, w));
                lemma_reduced(m, span, kept.exprs, kept.changed, rest, w);
            }
        },
        Expr::Logical { span, left, operator, right } => {
            lemma_unused_logical(m, span, *left, operator, *right, env, w);
        },
        Expr::Sequence { span, expressions } => {
            lemma_kept(m, expressions, env, w);
            let kept = kept(expressions, env).exprs;
            let all = exec_all(m, expressions, w);
            let left = exec_all(m, kept, w);
        },
        Expr::Template { span, quasis, expressions } => {
            lemma_unused_template(m, span, quasis, expressions, env, w);
        },
        Expr::Object { span, properties, trailing_comma } => {
            lemma_unused_object(m, span, properties, trailing_comma, env, w);
        },
        Expr::Conditional { span, test, consequent, alternate } => {
            lemma_unused_conditional(m, span, *test, *consequent, *alternate, env, w);
        },
        Expr::Binary { span, left, operator, right } => {
            if is_comparison(operator) {
                lemma_unused_comparison(m, span, *left, operator, *right, env, w);
            } else if operator is Addition {
                law_sum(m, e, env, w);
            }
        },
        Expr::Call { span, callee, arguments, optional, pure } => {
            if pure {
                lemma_kept_arguments(m, arguments, env, w);
                let kept = kept_arguments(arguments, env);
                let none = Seq::<Arg<'a>>::empty();
                let rest = Expr::Call { span, callee, arguments: none, optional, pure };
                assert(exec(m, rest, w).1 == exec_arguments(m, none, w));
                lemma_reduced(m, span, kept.exprs, kept.changed, rest, w);
            } else if arguments.len() == 0 {
                let called = exec_call(m, e, *callee, w);
                let link = exec_link(m, e, w);
                assert(is_regular_callee(m, *callee, env));
                if !is_empty_function(*callee) {
                    lemma_unused_body(m, e, *callee, env, w);
                }
            }
        },
        _ => {},
    }
}

} // verus!
