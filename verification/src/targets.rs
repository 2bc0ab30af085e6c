//! The pass writes no operator that the target lacks.
use crate::ast::{Arg, Body, Element, Expr, Key, Member, Prop, Span, Stmt};
use crate::boolean_context::{boolean_context, lemma_boolean_context_size};
use crate::join::join;
use crate::measure::{
    arguments_size, elements_size, expressions_size, properties_size, statements_size,
};
use crate::rewrite::{
    argument_expression, bare_template, blanked_string, element_expressions, folded_left,
    has_effects, has_optional_chaining, has_spread, in_order, kept, kept_arguments, kept_elements,
    kept_key, kept_properties, kept_substitutions, lemma_argument_size, shortened_sum, unused,
    unused_array, unused_body, unused_comparison, unused_conditional, unused_logical, unused_object,
    unused_template, with_object, with_template, Env,
};
use oxc_syntax::operator::{BinaryOperator, LogicalOperator, UnaryOperator};
use vstd::prelude::*;

verus! {

/// Whether the tree of `e` holds no optional chain.
pub open spec fn chain_free(e: Expr<'_>) -> bool
    decreases e,
{
    match e {
        Expr::Template { expressions, .. } => all_chain_free(expressions),
        Expr::Array { elements, .. } => elements_chain_free(elements),
        Expr::Object { properties, .. } => properties_chain_free(properties),
        Expr::Unary { argument, .. } => chain_free(*argument),
        Expr::Binary { left, right, .. } => chain_free(*left) && chain_free(*right),
        Expr::Logical { left, right, .. } => chain_free(*left) && chain_free(*right),
        Expr::Conditional { test, consequent, alternate, .. } => chain_free(*test) && chain_free(
            *consequent,
        ) && chain_free(*alternate),
        Expr::Sequence { expressions, .. } => all_chain_free(expressions),
        Expr::Call { callee, arguments, .. } => chain_free(*callee) && arguments_chain_free(
            arguments,
        ),
        Expr::New { callee, arguments, .. } => chain_free(*callee) && arguments_chain_free(
            arguments,
        ),
        Expr::StaticMember { object, .. } => chain_free(*object),
        Expr::ComputedMember { object, expression, .. } => chain_free(*object) && chain_free(
            *expression,
        ),
        Expr::Chain { .. } => false,
        Expr::Parenthesized { expression, .. } => chain_free(*expression),
        Expr::Class { super_class, elements, .. } => (super_class is Some ==> chain_free(
            *super_class->Some_0,
        )) && members_chain_free(elements),
        Expr::Arrow { body, .. } => match body {
            Body::Expression(x) => chain_free(*x),
            Body::Block { statements, .. } => statements_chain_free(statements),
        },
        _ => true,
    }
}

pub open spec fn all_chain_free(s: Seq<Expr<'_>>) -> bool
    decreases s,
{
    s.len() == 0 || (all_chain_free(s.drop_last()) && chain_free(s.last()))
}

pub open spec fn elements_chain_free(s: Seq<Element<'_>>) -> bool
    decreases s,
{
    s.len() == 0 || (elements_chain_free(s.drop_last()) && match s.last() {
        Element::Spread { argument, .. } => chain_free(argument),
        Element::Elision { .. } => true,
        Element::Expression(e) => chain_free(e),
    })
}

pub open spec fn arguments_chain_free(s: Seq<Arg<'_>>) -> bool
    decreases s,
{
    s.len() == 0 || (arguments_chain_free(s.drop_last()) && match s.last() {
        Arg::Spread { argument, .. } => chain_free(argument),
        Arg::Expression(e) => chain_free(e),
    })
}

pub open spec fn properties_chain_free(s: Seq<Prop<'_>>) -> bool
    decreases s,
{
    s.len() == 0 || (properties_chain_free(s.drop_last()) && match s.last() {
        Prop::Property { key, value, .. } => key_chain_free(key) && chain_free(value),
        Prop::Spread { argument, .. } => chain_free(argument),
    })
}

pub open spec fn statements_chain_free(s: Seq<Stmt<'_>>) -> bool
    decreases s,
{
    s.len() == 0 || (statements_chain_free(s.drop_last()) && match s.last() {
        Stmt::Expression { expression, .. } => chain_free(expression),
        Stmt::Return { argument: Some(argument), .. } => chain_free(argument),
        _ => true,
    })
}

pub open spec fn members_chain_free(s: Seq<Member<'_>>) -> bool
    decreases s,
{
    s.len() == 0 || (members_chain_free(s.drop_last()) && match s.last() {
        Member::Method { key, .. } => key_chain_free(key),
        Member::Property { key, value, .. } => key_chain_free(key) && (value is Some
            ==> chain_free(value->Some_0)),
        Member::Accessor { key, .. } => key_chain_free(key),
        _ => true,
    })
}

pub open spec fn key_chain_free(key: Key<'_>) -> bool
    decreases key,
{
    match key {
        Key::Expression(e) => chain_free(e),
        _ => true,
    }
}

proof fn lemma_push<'a>(s: Seq<Expr<'a>>, e: Expr<'a>)
    ensures
        all_chain_free(s.push(e)) == (all_chain_free(s) && chain_free(e)),
{
    assert(s.push(e).drop_last() =~= s);
}

proof fn lemma_in_order<'a>(span: Span, s: Seq<Expr<'a>>)
    requires
        all_chain_free(s),
    ensures
        chain_free(in_order(span, s)),
{
    let e = in_order(span, s);
    if s.len() == 1 {
        assert(s.last() == s[0]);
    }
}

proof fn lemma_boolean_context<'a>(e: Expr<'a>)
    requires
        chain_free(e),
    ensures
        chain_free(boolean_context(e).expr),
    decreases e,
{
    match e {
        Expr::Unary { operator: UnaryOperator::LogicalNot, argument, .. } => match *argument {
            Expr::Unary { operator: UnaryOperator::LogicalNot, argument: inner, .. } => {
                assert(chain_free(*argument));
                lemma_boolean_context(*inner);
            },
            _ => {},
        },
        Expr::Logical { left, right, .. } => {
            lemma_boolean_context(*left);
            lemma_boolean_context(*right);
        },
        Expr::Conditional { consequent, alternate, .. } => {
            lemma_boolean_context(*consequent);
            lemma_boolean_context(*alternate);
        },
        _ => {},
    }
}

proof fn lemma_join<'a>(span: Span, op: LogicalOperator, a: Expr<'a>, b: Expr<'a>)
    requires
        chain_free(a),
        chain_free(b),
    ensures
        chain_free(join(span, op, a, b)),
    decreases b.size(), a.size(),
{
    if a is Sequence && a->Sequence_expressions.len() > 0 {
        let s = a->Sequence_expressions;
        assert(s.last().size() < expressions_size(s));
        assert(all_chain_free(s));
        lemma_join(span, op, s.last(), b);
        lemma_push(s.drop_last(), join(span, op, s.last(), b));
    } else if b is Logical && b->Logical_operator == op {
        lemma_join(span, op, a, *b->Logical_left);
        lemma_join(span, op, join(span, op, a, *b->Logical_left), *b->Logical_right);
    }
}

proof fn lemma_sum<'a>(e: Expr<'a>, env: Env)
    requires
        chain_free(e),
    ensures
        chain_free(shortened_sum(e, env).expr),
    decreases e.size(),
{
    match e {
        Expr::Binary { left, operator: BinaryOperator::Addition, right, .. } => {
            lemma_sum(*left, env);
            let l = shortened_sum(*left, env);
            assert(chain_free(blanked_string(l.expr, has_effects(l.expr, env)).0));
            assert(chain_free(blanked_string(*right, has_effects(*right, env)).0));
        },
        _ => {},
    }
}

proof fn lemma_kept<'a>(s: Seq<Expr<'a>>, env: Env)
    requires
        !has_optional_chaining(env.target),
        all_chain_free(s),
    ensures
        all_chain_free(kept(s, env).exprs),
    decreases expressions_size(s), 2nat,
{
    if s.len() > 0 {
        lemma_kept(s.drop_last(), env);
        law_target(s.last(), env);
        lemma_push(kept(s.drop_last(), env).exprs, unused(s.last(), env).expr);
    }
}

proof fn lemma_kept_arguments<'a>(s: Seq<Arg<'a>>, env: Env)
    requires
        !has_optional_chaining(env.target),
        arguments_chain_free(s),
    ensures
        all_chain_free(kept_arguments(s, env).exprs),
    decreases arguments_size(s), 2nat,
{
    if s.len() > 0 {
        lemma_kept_arguments(s.drop_last(), env);
        let e = argument_expression(s.last());
        lemma_argument_size(s.last());
        match s.last() {
            Arg::Spread { span, argument } => {
                let elements = seq![Element::Spread { span, argument }];
                assert(elements.drop_last() =~= seq![]);
                assert(elements_chain_free(elements.drop_last()));
                assert(elements_chain_free(elements));
            },
            Arg::Expression(_) => {},
        }
        law_target(e, env);
        lemma_push(kept_arguments(s.drop_last(), env).exprs, unused(e, env).expr);
    }
}

proof fn lemma_kept_elements<'a>(s: Seq<Element<'a>>, env: Env)
    requires
        !has_optional_chaining(env.target),
        elements_chain_free(s),
    ensures
        elements_chain_free(kept_elements(s, env).elements),
        !has_spread(kept_elements(s, env).elements) ==> all_chain_free(
            element_expressions(kept_elements(s, env).elements),
        ),
    decreases elements_size(s), 2nat,
{
    let all = kept_elements(s, env).elements;
    if s.len() == 0 {
        assert(element_expressions(all) =~= seq![]);
    } else {
        lemma_kept_elements(s.drop_last(), env);
        let init = kept_elements(s.drop_last(), env).elements;
        match s.last() {
            Element::Spread { .. } => {
                assert(init.push(s.last()).drop_last() =~= init);
                if all == init.push(s.last()) {
                    assert(all[init.len() as int] is Spread);
                }
            },
            Element::Elision { .. } => {},
            Element::Expression(e) => {
                assert(s.last().size() == e.size() + 1);
                law_target(e, env);
                let x = unused(e, env).expr;
                let pushed = init.push(Element::Expression(x));
                assert(pushed.drop_last() =~= init);
                if all == pushed {
                    assert(element_expressions(pushed) =~= element_expressions(init).push(x));
                    lemma_push(element_expressions(init), x);
                    if has_spread(init) {
                        let i = choose|i: int| 0 <= i < init.len() && #[trigger] init[i] is Spread;
                        assert(pushed[i] is Spread);
                    }
                }
            },
        }
    }
}

proof fn lemma_kept_substitutions<'a>(s: Seq<Expr<'a>>, env: Env)
    requires
        !has_optional_chaining(env.target),
        all_chain_free(s),
    ensures
        all_chain_free(kept_substitutions(s, env).exprs),
        all_chain_free(kept_substitutions(s, env).pending),
    decreases expressions_size(s), 2nat,
{
    if s.len() > 0 {
        lemma_kept_substitutions(s.drop_last(), env);
        law_target(s.last(), env);
        let init = kept_substitutions(s.drop_last(), env);
        let x = unused(s.last(), env).expr;
        let flushed = with_template(x.span(), init.exprs, init.pending);
        lemma_push(init.pending, s.last());
        lemma_push(init.exprs, bare_template(x.span(), init.pending));
        lemma_push(flushed, x);
    }
}

proof fn lemma_kept_properties<'a>(s: Seq<Prop<'a>>, env: Env)
    requires
        !has_optional_chaining(env.target),
        properties_chain_free(s),
    ensures
        all_chain_free(kept_properties(s, env).exprs),
        properties_chain_free(kept_properties(s, env).pending),
    decreases properties_size(s), 2nat,
{
    if s.len() > 0 {
        lemma_kept_properties(s.drop_last(), env);
        let init = kept_properties(s.drop_last(), env);
        match s.last() {
            Prop::Spread { .. } => {
                assert(init.pending.push(s.last()).drop_last() =~= init.pending);
            },
            Prop::Property { span, key, value, .. } => {
                assert(s.last().size() == key.size() + value.size() + 1);
                let object = Expr::Object {
                    span,
                    properties: init.pending,
                    trailing_comma: None,
                };
                lemma_push(init.exprs, object);
                let before = with_object(span, init.exprs, init.pending);
                match key {
                    Key::Expression(e) => {
                        assert(key.size() == e.size() + 1);
                        assert(key_chain_free(key));
                        law_target(e, env);
                        lemma_push(before, unused(e, env).expr);
                    },
                    _ => {},
                }
                let k = kept_key(before, key, env);
                law_target(value, env);
                lemma_push(k.exprs, unused(value, env).expr);
            },
        }
    }
}

proof fn lemma_body<'a>(e: Expr<'a>, callee: Expr<'a>, env: Env)
    requires
        !has_optional_chaining(env.target),
        chain_free(e),
        chain_free(callee),
    ensures
        chain_free(unused_body(e, callee, env).expr),
    decreases callee.size(), 1nat,
{
    match callee {
        Expr::Arrow { is_async: false, body, .. } => match body {
            Body::Expression(x) => {
                assert(body.size() == x.size() + 1);
                law_target(*x, env);
            },
            Body::Block { statements, .. } => {
                if statements.len() == 1 {
                    assert(body.size() > statements_size(statements) > statements.last().size());
                    assert(statements_chain_free(statements));
                    match statements[0] {
                        Stmt::Expression { expression, .. } => {
                            law_target(expression, env);
                        },
                        Stmt::Return { argument: Some(argument), .. } => {
                            law_target(argument, env);
                        },
                        _ => {},
                    }
                }
            },
        },
        _ => {},
    }
}

/// For a target that lacks `?.`, what is left of an expression without optional chains has none.
pub proof fn law_target<'a>(e: Expr<'a>, env: Env)
    requires
        !has_optional_chaining(env.target),
        chain_free(e),
    ensures
        chain_free(unused(e, env).expr),
    decreases e.size(), 1nat,
{
    let o = unused(e, env);
    match e {
        Expr::Array { span, elements, trailing_comma } => {
            let a = unused_array(span, elements, trailing_comma, env);
            lemma_kept_elements(elements, env);
            let kept = kept_elements(elements, env).elements;
            if kept.len() > 0 && !has_spread(kept) {
                lemma_in_order(span, element_expressions(kept));
            }
        },
        Expr::Unary { argument, .. } => {
            law_target(*argument, env);
        },
        Expr::New { span, arguments, .. } => {
            lemma_kept_arguments(arguments, env);
            lemma_in_order(span, kept_arguments(arguments, env).exprs);
            assert(arguments_chain_free(Seq::<Arg<'a>>::empty()));
        },
        Expr::Logical { span, left, operator, right } => {
            let l = unused_logical(span, *left, operator, *right, env);
            lemma_boolean_context(*left);
            lemma_boolean_context_size(*left);
            law_target(*right, env);
            law_target(folded_left(*left, operator).expr, env);
        },
        Expr::Sequence { expressions, .. } => {
            lemma_kept(expressions, env);
        },
        Expr::Template { span, quasis, expressions } => {
            let t = unused_template(span, quasis, expressions, env);
            lemma_kept_substitutions(expressions, env);
            let kept = kept_substitutions(expressions, env);
            lemma_push(kept.exprs, bare_template(span, kept.pending));
            lemma_in_order(span, with_template(span, kept.exprs, kept.pending));
            assert(all_chain_free(Seq::<Expr<'a>>::empty()));
        },
        Expr::Object { span, properties, trailing_comma } => {
            let p = unused_object(span, properties, trailing_comma, env);
            lemma_kept_properties(properties, env);
            let kept = kept_properties(properties, env);
            let object = Expr::Object { span, properties: kept.pending, trailing_comma: None };
            lemma_push(kept.exprs, object);
            lemma_in_order(span, with_object(span, kept.exprs, kept.pending));
            assert(properties_chain_free(Seq::<Prop<'a>>::empty()));
        },
        Expr::Conditional { span, test, consequent, alternate } => {
            let d = unused_conditional(span, *test, *consequent, *alternate, env);
            law_target(*test, env);
            law_target(*consequent, env);
            law_target(*alternate, env);
            lemma_join(span, LogicalOperator::Or, *test, unused(*alternate, env).expr);
            lemma_join(span, LogicalOperator::And, *test, unused(*consequent, env).expr);
        },
        Expr::Binary { span, left, operator, right } => {
            let c = unused_comparison(span, *left, operator, *right, env);
            law_target(*left, env);
            law_target(*right, env);
            let l = unused(*left, env).expr;
            let r = unused(*right, env).expr;
            assert(seq![l, r] =~= Seq::<Expr<'a>>::empty().push(l).push(r));
            lemma_push(Seq::<Expr<'a>>::empty(), l);
            lemma_push(Seq::<Expr<'a>>::empty().push(l), r);
            lemma_sum(e, env);
        },
        Expr::Call { span, callee, arguments, .. } => {
            lemma_kept_arguments(arguments, env);
            lemma_in_order(span, kept_arguments(arguments, env).exprs);
            assert(arguments_chain_free(Seq::<Arg<'a>>::empty()));
            lemma_body(e, *callee, env);
        },
        _ => {},
    }
}

} // verus!
