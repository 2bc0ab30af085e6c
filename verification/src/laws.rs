//! What holds of the outcomes of the pass.
use crate::analysis::is_comparison;
use crate::ast::{Arg, Body, Element, Expr, Ident, Prop, Span, Stmt};
use crate::boolean_context::boolean_context;
use crate::ctx::is_global;
use crate::measure::{elements_size, expressions_size, statements_size};
use crate::rewrite::{
    element_expressions, has_spread, is_empty_function, kept, kept_arguments, kept_elements,
    kept_key, kept_properties, recorded, shortened_sum, spread_has_effects, untouched, unused,
    unused_array, unused_body, unused_comparison, unused_conditional, unused_logical,
    unused_object, unused_template, Env, Outcome,
};
use crate::shape::{shape_of, Shape};
use oxc_syntax::operator::{BinaryOperator, UnaryOperator};
use vstd::prelude::*;

verus! {

/// A variable that the program declares is removed. One that it does not declare stays, for
/// reading it may have side effects; `NaN`, `Infinity` and `undefined` are removed all the same.
pub proof fn law_variable(i: Ident, env: Env)
    ensures
        unused(Expr::Identifier(i), env).expr == Expr::Identifier(i),
        unused(Expr::Identifier(i), env).removed == (!is_global(env.globals, i.reference_id)
            || i.name == "NaN"@ || i.name == "Infinity"@ || i.name == "undefined"@),
        !unused(Expr::Identifier(i), env).changed,
{
}

/// `void x` and `!x` leave what `x` leaves, and so does `typeof x` unless `x` is a variable.
pub proof fn law_unary(span: Span, operator: UnaryOperator, x: Expr<'_>, env: Env)
    requires
        operator is Void || operator is LogicalNot || (operator is Typeof && x !is Identifier),
    ensures
        unused((Expr::Unary { span, operator, argument: Box::new(x) }), env) == recorded(
            unused(x, env),
        ),
{
    let e = Expr::Unary { span, operator, argument: Box::new(x) };
    let o = unused(e, env);
    let inner = unused(x, env);
}

/// Whether `e` is a literal that holds no expression, a function, `this`, `super` or a meta
/// property.
pub open spec fn is_plain_leaf(e: Expr<'_>) -> bool {
    match e {
        Expr::Null { .. } => true,
        Expr::Str { .. } => true,
        Expr::Function { .. } => true,
        Expr::Arrow { .. } => true,
        Expr::Other { node, .. } => match shape_of(node) {
            Shape::Number(_)
            | Shape::Boolean(_)
            | Shape::BigInt(_)
            | Shape::RegExp(_)
            | Shape::This
            | Shape::Super
            | Shape::Meta { .. } => true,
            _ => false,
        },
        _ => false,
    }
}

/// A literal that holds no expression, a function, `this`, `super` and a meta property are
/// removed.
pub proof fn law_plain_leaf(e: Expr<'_>, env: Env)
    requires
        is_plain_leaf(e),
    ensures
        unused(e, env) == (Outcome { expr: e, removed: true, changed: false }),
{
}

/// Whether `e` wraps `x` in what is not needed: `void x`, `!x`, `[x]`, `({ k: x })`, `x ? c : a`
/// and `x === c` (or `c === x`) where `c` and `a` are removed, and a pure call with `x` as its only
/// argument.
pub open spec fn wraps<'a>(e: Expr<'a>, x: Expr<'a>, env: Env) -> bool {
    match e {
        Expr::Unary { operator, argument, .. } => (operator is Void || operator is LogicalNot)
            && *argument == x,
        Expr::Array { elements, .. } => elements == seq![Element::Expression(x)],
        Expr::Object { properties, .. } => properties.len() == 1 && match properties[0] {
            Prop::Property { key, value, .. } => key !is Expression && value == x,
            Prop::Spread { .. } => false,
        },
        Expr::Conditional { test, consequent, alternate, .. } => *test == x && unused(
            *consequent,
            env,
        ).removed && unused(*alternate, env).removed,
        Expr::Binary { left, operator, right, .. } => is_comparison(operator) && ((*left == x
            && unused(*right, env).removed) || (*right == x && unused(*left, env).removed)),
        Expr::Call { arguments, pure, .. } => pure && arguments == seq![Arg::Expression(x)],
        Expr::New { arguments, pure, .. } => pure && arguments == seq![Arg::Expression(x)],
        _ => false,
    }
}

/// What is left of an expression that wraps `x` in what is not needed is what is left of `x`.
pub proof fn law_wrapper<'a>(e: Expr<'a>, x: Expr<'a>, env: Env)
    requires
        wraps(e, x, env),
    ensures
        unused(e, env).removed == unused(x, env).removed,
        !unused(x, env).removed ==> unused(e, env).expr == unused(x, env).expr,
{
    let o = unused(e, env);
    let inner = unused(x, env);
    match e {
        Expr::Array { span, elements, trailing_comma } => {
            let a = unused_array(span, elements, trailing_comma, env);
            let none = elements.drop_last();
            assert(none =~= seq![]);
            assert(kept_elements(none, env).elements =~= seq![]);
            let kept = kept_elements(elements, env).elements;
            if inner.removed {
                assert(kept =~= seq![]);
            } else {
                assert(kept =~= seq![Element::Expression(inner.expr)]);
                assert(kept[0] !is Spread);
                assert(element_expressions(kept) =~= seq![inner.expr]);
            }
        },
        Expr::Object { span, properties, trailing_comma } => {
            let p = unused_object(span, properties, trailing_comma, env);
            assert(properties[0] !is Spread);
            assert(properties.last() == properties[0]);
            let none = properties.drop_last();
            assert(none =~= seq![]);
            assert(kept_properties(none, env).exprs =~= seq![]);
            let kept = kept_properties(properties, env);
            match properties[0] {
                Prop::Property { key, .. } => {
                    let k = kept_key(seq![], key, env);
                },
                Prop::Spread { .. } => {},
            }
            assert(kept.pending =~= seq![]);
        },
        Expr::Conditional { span, test, consequent, alternate } => {
            let c = unused_conditional(span, *test, *consequent, *alternate, env);
        },
        Expr::Binary { span, left, operator, right } => {
            let c = unused_comparison(span, *left, operator, *right, env);
        },
        Expr::Call { arguments, .. } => {
            lemma_only_argument(arguments, x, env);
        },
        Expr::New { arguments, .. } => {
            lemma_only_argument(arguments, x, env);
        },
        _ => {},
    }
}

proof fn lemma_only_argument<'a>(arguments: Seq<Arg<'a>>, x: Expr<'a>, env: Env)
    requires
        arguments == seq![Arg::Expression(x)],
    ensures
        kept_arguments(arguments, env).exprs == if unused(x, env).removed {
            seq![]
        } else {
            seq![unused(x, env).expr]
        },
{
    let none = arguments.drop_last();
    assert(none =~= seq![]);
    assert(kept_arguments(none, env).exprs =~= seq![]);
    assert(arguments.last() == Arg::Expression(x));
}

/// The expression that an arrow function with that body evaluates and does nothing besides.
pub open spec fn sole_expression<'a>(body: Body<'a>) -> Option<Expr<'a>> {
    match body {
        Body::Expression(x) => Some(*x),
        Body::Block { statements, .. } => if statements.len() == 1 {
            match statements[0] {
                Stmt::Expression { expression, .. } => Some(expression),
                Stmt::Return { argument, .. } => argument,
                Stmt::Other(_) => None,
            }
        } else {
            None
        },
    }
}

/// `(() => x)()`, `(() => { x })()` and `(() => { return x })()` leave what `x` leaves.
pub proof fn law_called_arrow<'a>(e: Expr<'a>, callee: Expr<'a>, x: Expr<'a>, env: Env)
    requires
        e is Call && !e->Call_pure && e->Call_arguments.len() == 0 && *e->Call_callee == callee,
        callee is Arrow && !callee->Arrow_is_async,
        sole_expression(callee->Arrow_body) == Some(x),
    ensures
        unused(e, env) == unused(x, env),
{
    let o = unused(e, env);
    let body = unused_body(e, callee, env);
    let inner = unused(x, env);
}

/// A comma expression is removed if and only if each of its expressions is.
pub proof fn law_sequence_removed(span: Span, s: Seq<Expr<'_>>, env: Env)
    ensures
        unused((Expr::Sequence { span, expressions: s }), env).removed == (forall|i: int|
            0 <= i < s.len() ==> (#[trigger] unused(s[i], env)).removed),
{
    let o = unused(Expr::Sequence { span, expressions: s }, env);
    lemma_kept_length(s, env);
}

proof fn lemma_kept_length(s: Seq<Expr<'_>>, env: Env)
    ensures
        kept(s, env).exprs.len() <= s.len(),
        (kept(s, env).exprs.len() == 0) == (forall|i: int|
            0 <= i < s.len() ==> (#[trigger] unused(s[i], env)).removed),
        (kept(s, env).exprs.len() == s.len()) == (forall|i: int|
            0 <= i < s.len() ==> !(#[trigger] unused(s[i], env)).removed),
    decreases s.len(),
{
    if s.len() > 0 {
        let init = s.drop_last();
        lemma_kept_length(init, env);
        let last = unused(s[s.len() - 1], env);
        assert forall|i: int| 0 <= i < init.len() implies unused(init[i], env) == #[trigger] unused(
            s[i],
            env,
        ) by {
            assert(init[i] == s[i]);
        }
        if kept(s, env).exprs.len() == 0 {
            assert forall|i: int| 0 <= i < s.len() implies (#[trigger] unused(
                s[i],
                env,
            )).removed by {
                if i < init.len() {
                    assert(unused(init[i], env).removed);
                }
            }
        } else if forall|i: int| 0 <= i < s.len() ==> (#[trigger] unused(s[i], env)).removed {
            assert forall|i: int| 0 <= i < init.len() implies (#[trigger] unused(
                init[i],
                env,
            )).removed by {
                assert(unused(s[i], env).removed);
            }
        }
        if kept(s, env).exprs.len() == s.len() {
            assert forall|i: int| 0 <= i < s.len() implies !(#[trigger] unused(
                s[i],
                env,
            )).removed by {
                if i < init.len() {
                    assert(!unused(init[i], env).removed);
                }
            }
        } else if forall|i: int| 0 <= i < s.len() ==> !(#[trigger] unused(s[i], env)).removed {
            assert forall|i: int| 0 <= i < init.len() implies !(#[trigger] unused(
                init[i],
                env,
            )).removed by {
                assert(!unused(s[i], env).removed);
            }
        }
    }
}

/// Whether the pass, somewhere in `e`, takes the brackets off an array or the call off an arrow
/// function, which it does without recording it.
pub open spec fn unwraps(e: Expr<'_>, env: Env) -> bool
    decreases e.size(), 1nat,
{
    match e {
        Expr::Array { elements, .. } => {
            let kept = kept_elements(elements, env).elements;
            (kept.len() > 0 && !has_spread(kept)) || elements_unwrap(elements, env)
        },
        Expr::Logical { right, .. } => unwraps(*right, env),
        Expr::Sequence { expressions, .. } => any_unwraps(expressions, env),
        Expr::Conditional { consequent, alternate, .. } => unwraps(*consequent, env) || unwraps(
            *alternate,
            env,
        ),
        Expr::Call { callee, arguments, pure, .. } => !pure && arguments.len() == 0
            && *callee is Arrow && !callee->Arrow_is_async && sole_expression(
            callee->Arrow_body,
        ) is Some,
        _ => false,
    }
}

pub open spec fn any_unwraps(s: Seq<Expr<'_>>, env: Env) -> bool
    decreases expressions_size(s), 2nat,
{
    s.len() > 0 && (any_unwraps(s.drop_last(), env) || unwraps(s.last(), env))
}

pub open spec fn elements_unwrap(s: Seq<Element<'_>>, env: Env) -> bool
    decreases elements_size(s), 2nat,
{
    if s.len() == 0 {
        false
    } else {
        proof {
            assert(s.last() is Expression ==> s.last().size() == s.last()->Expression_0.size() + 1);
        }
        elements_unwrap(s.drop_last(), env) || match s.last() {
            Element::Expression(e) => unwraps(e, env),
            _ => false,
        }
    }
}

/// Where no rewriting is recorded, the expression is removed or stays as it is, unless brackets
/// of an array or the call of an arrow function were taken off.
pub proof fn law_unrecorded(e: Expr<'_>, env: Env)
    requires
        !unwraps(e, env),
        !unused(e, env).changed,
    ensures
        unused(e, env).removed || unused(e, env).expr == e,
    decreases e.size(), 1nat,
{
    match e {
        Expr::Array { span, elements, trailing_comma } => {
            let o = unused_array(span, elements, trailing_comma, env);
            lemma_unrecorded_elements(elements, env);
        },
        Expr::Logical { span, left, operator, right } => {
            let o = unused_logical(span, *left, operator, *right, env);
            lemma_unfolded(*left);
            let r = unused(*right, env);
            if !r.removed && !r.changed {
                law_unrecorded(*right, env);
            }
        },
        Expr::Sequence { span, expressions } => {
            lemma_unrecorded_list(expressions, env);
        },
        Expr::Template { span, quasis, expressions } => {
            let o = unused_template(span, quasis, expressions, env);
        },
        Expr::Object { span, properties, trailing_comma } => {
            let o = unused_object(span, properties, trailing_comma, env);
        },
        Expr::Conditional { span, test, consequent, alternate } => {
            let o = unused_conditional(span, *test, *consequent, *alternate, env);
            let c = unused(*consequent, env);
            let a = unused(*alternate, env);
            if !c.removed && !a.removed {
                law_unrecorded(*consequent, env);
                law_unrecorded(*alternate, env);
            }
        },
        Expr::Binary { span, left, operator, right } => {
            if is_comparison(operator) {
                let o = unused_comparison(span, *left, operator, *right, env);
            } else if operator is Addition {
                lemma_unrecorded_sum(e, env);
            }
        },
        Expr::Call { callee, .. } => {
            let o = unused_body(e, *callee, env);
        },
        _ => {},
    }
}

/// An expression without double negations to take out stays as it is.
proof fn lemma_unfolded(e: Expr<'_>)
    ensures
        !boolean_context(e).folded ==> boolean_context(e).expr == e,
    decreases e,
{
    match e {
        Expr::Logical { left, right, .. } => {
            lemma_unfolded(*left);
            lemma_unfolded(*right);
        },
        Expr::Conditional { consequent, alternate, .. } => {
            lemma_unfolded(*consequent);
            lemma_unfolded(*alternate);
        },
        _ => {},
    }
}

proof fn lemma_unrecorded_sum(e: Expr<'_>, env: Env)
    ensures
        !shortened_sum(e, env).changed ==> shortened_sum(e, env).expr == e,
    decreases e.size(),
{
    match e {
        Expr::Binary { left, operator: BinaryOperator::Addition, right, .. } => {
            lemma_unrecorded_sum(*left, env);
            let l = shortened_sum(*left, env);
        },
        _ => {},
    }
}

proof fn lemma_unrecorded_list(s: Seq<Expr<'_>>, env: Env)
    requires
        !any_unwraps(s, env),
    ensures
        kept(s, env).exprs.len() <= s.len(),
        !kept(s, env).changed && kept(s, env).exprs.len() == s.len() ==> kept(s, env).exprs == s,
    decreases expressions_size(s), 2nat,
{
    if s.len() > 0 {
        lemma_unrecorded_list(s.drop_last(), env);
        let last = unused(s.last(), env);
        if !last.changed {
            law_unrecorded(s.last(), env);
        }
        assert(s.drop_last().push(s.last()) =~= s);
    }
}

proof fn lemma_unrecorded_elements(s: Seq<Element<'_>>, env: Env)
    requires
        !elements_unwrap(s, env),
    ensures
        kept_elements(s, env).elements.len() <= s.len(),
        !kept_elements(s, env).changed && kept_elements(s, env).elements.len() == s.len()
            ==> kept_elements(s, env).elements == s,
    decreases elements_size(s), 2nat,
{
    if s.len() > 0 {
        lemma_unrecorded_elements(s.drop_last(), env);
        match s.last() {
            Element::Expression(e) => {
                assert(s.last().size() == e.size() + 1);
                let last = unused(e, env);
                if !last.changed {
                    law_unrecorded(e, env);
                }
            },
            _ => {},
        }
        assert(s.drop_last().push(s.last()) =~= s);
    }
}

/// Where no rewriting is recorded and the expression is not removed, the pass is done: another
/// run leaves the expression as it is.
pub proof fn law_settled(e: Expr<'_>, env: Env)
    requires
        !unused(e, env).changed,
        !unused(e, env).removed,
    ensures
        unused(unused(e, env).expr, env) == untouched(unused(e, env).expr),
    decreases e.size(), 1nat,
{
    let o = unused(e, env);
    match e {
        Expr::Array { span, elements, trailing_comma } => {
            let a = unused_array(span, elements, trailing_comma, env);
            let kept = kept_elements(elements, env).elements;
            lemma_settled_elements(elements, env);
            if has_spread(kept) {
                lemma_settled_elements_again(kept, env);
                let again = unused_array(span, kept, trailing_comma, env);
            } else {
                let exprs = element_expressions(kept);
                assert forall|i: int| 0 <= i < exprs.len() implies unused(
                    #[trigger] exprs[i],
                    env,
                ) == untouched(exprs[i]) by {
                    assert(is_settled_element(kept[i], env));
                }
                if exprs.len() != 1 {
                    lemma_settled_list_again(exprs, env);
                }
            }
        },
        Expr::Logical { span, left, operator, right } => {
            let l = unused_logical(span, *left, operator, *right, env);
            let r = unused(*right, env);
            law_settled(*right, env);
            lemma_unfolded(*left);
            let again = unused_logical(span, *left, operator, r.expr, env);
        },
        Expr::Sequence { span, expressions } => {
            lemma_settled_list(expressions, env);
            lemma_settled_list_again(kept(expressions, env).exprs, env);
        },
        Expr::Template { span, quasis, expressions } => {
            let t = unused_template(span, quasis, expressions, env);
        },
        Expr::Object { span, properties, trailing_comma } => {
            let p = unused_object(span, properties, trailing_comma, env);
        },
        Expr::Conditional { span, test, consequent, alternate } => {
            let d = unused_conditional(span, *test, *consequent, *alternate, env);
            let c = unused(*consequent, env);
            let a = unused(*alternate, env);
            law_settled(*consequent, env);
            law_settled(*alternate, env);
            let again = unused_conditional(span, *test, c.expr, a.expr, env);
        },
        Expr::Binary { span, left, operator, right } => {
            if is_comparison(operator) {
                let c = unused_comparison(span, *left, operator, *right, env);
            } else if operator is Addition {
                lemma_unrecorded_sum(e, env);
            }
        },
        Expr::Call { callee, arguments, pure, .. } => {
            let b = unused_body(e, *callee, env);
            if !pure && arguments.len() == 0 && !is_empty_function(*callee) {
                lemma_settled_body(e, *callee, env);
            }
        },
        _ => {},
    }
}

proof fn lemma_settled_body<'a>(e: Expr<'a>, callee: Expr<'a>, env: Env)
    requires
        !unused_body(e, callee, env).changed,
        !unused_body(e, callee, env).removed,
        unused(e, env) == unused_body(e, callee, env),
    ensures
        unused(unused_body(e, callee, env).expr, env) == untouched(
            unused_body(e, callee, env).expr,
        ),
    decreases callee.size(), 1nat,
{
    match callee {
        Expr::Arrow { is_async: false, body, .. } => match body {
            Body::Expression(x) => {
                assert(body.size() == x.size() + 1);
                law_settled(*x, env);
            },
            Body::Block { statements, .. } => {
                if statements.len() == 1 {
                    assert(body.size() > statements_size(statements) > statements.last().size());
                    match statements[0] {
                        Stmt::Expression { expression, .. } => {
                            law_settled(expression, env);
                        },
                        Stmt::Return { argument: Some(argument), .. } => {
                            law_settled(argument, env);
                        },
                        _ => {},
                    }
                }
            },
        },
        _ => {},
    }
}

/// Whether the pass keeps the element of an array as it is.
pub open spec fn is_settled_element(element: Element<'_>, env: Env) -> bool {
    match element {
        Element::Spread { argument, .. } => spread_has_effects(argument, env),
        Element::Elision { .. } => false,
        Element::Expression(e) => unused(e, env) == untouched(e),
    }
}

proof fn lemma_settled_list(s: Seq<Expr<'_>>, env: Env)
    requires
        !kept(s, env).changed,
    ensures
        forall|i: int|
            0 <= i < kept(s, env).exprs.len() ==> unused(#[trigger] kept(s, env).exprs[i], env)
                == untouched(kept(s, env).exprs[i]),
    decreases expressions_size(s), 2nat,
{
    if s.len() > 0 {
        lemma_settled_list(s.drop_last(), env);
        let last = unused(s.last(), env);
        if !last.removed {
            law_settled(s.last(), env);
        }
    }
}

proof fn lemma_settled_list_again(s: Seq<Expr<'_>>, env: Env)
    requires
        forall|i: int| 0 <= i < s.len() ==> unused(#[trigger] s[i], env) == untouched(s[i]),
    ensures
        kept(s, env).exprs == s,
        !kept(s, env).changed,
    decreases s.len(),
{
    if s.len() > 0 {
        assert forall|i: int| 0 <= i < s.drop_last().len() implies unused(
            #[trigger] s.drop_last()[i],
            env,
        ) == untouched(s.drop_last()[i]) by {
            assert(s.drop_last()[i] == s[i]);
        }
        lemma_settled_list_again(s.drop_last(), env);
        assert(s.last() == s[s.len() - 1]);
        assert(s.drop_last().push(s.last()) =~= s);
    } else {
        assert(kept(s, env).exprs =~= s);
    }
}

proof fn lemma_settled_elements(s: Seq<Element<'_>>, env: Env)
    requires
        !kept_elements(s, env).changed,
    ensures
        forall|i: int|
            0 <= i < kept_elements(s, env).elements.len() ==> is_settled_element(
                #[trigger] kept_elements(s, env).elements[i],
                env,
            ),
    decreases elements_size(s), 2nat,
{
    if s.len() > 0 {
        lemma_settled_elements(s.drop_last(), env);
        match s.last() {
            Element::Expression(e) => {
                assert(s.last().size() == e.size() + 1);
                let last = unused(e, env);
                if !last.removed {
                    law_settled(e, env);
                }
            },
            _ => {},
        }
    }
}

proof fn lemma_settled_elements_again(s: Seq<Element<'_>>, env: Env)
    requires
        forall|i: int| 0 <= i < s.len() ==> is_settled_element(#[trigger] s[i], env),
    ensures
        kept_elements(s, env).elements == s,
        !kept_elements(s, env).changed,
    decreases s.len(),
{
    if s.len() > 0 {
        assert forall|i: int| 0 <= i < s.drop_last().len() implies is_settled_element(
            #[trigger] s.drop_last()[i],
            env,
        ) by {
            assert(s.drop_last()[i] == s[i]);
        }
        lemma_settled_elements_again(s.drop_last(), env);
        assert(s.last() == s[s.len() - 1]);
        assert(s.drop_last().push(s.last()) =~= s);
    } else {
        assert(kept_elements(s, env).elements =~= s);
    }
}

} // verus!
