//! What an expression surely does is neither lost nor forgotten.
use crate::analysis::{is_comparison, key_text, read_may_have_side_effects};
use crate::ast::{Arg, Body, Element, Expr, Key, Member, Prop, Span, Stmt};
use crate::boolean_context::{boolean_context, lemma_boolean_context_size};
use crate::ctx::is_global;
use crate::effects::{
    is_valid, law_effects_of_branches, law_effects_of_calls, law_effects_of_classes,
    law_effects_of_literals, law_effects_of_unary_operators, law_spread, lemma_chain_shape,
};
use crate::join::join;
use crate::measure::{
    arguments_size, elements_size, expressions_size, properties_size, statements_size,
};
use crate::rewrite::{
    argument_expression, bare_template, element_expressions, folded_left, has_effects, has_spread,
    in_order, kept, kept_arguments, kept_elements, kept_key, kept_properties, kept_substitutions,
    lemma_argument_size, shortened_sum, spread_has_effects, tested_variable, unused, unused_array,
    unused_body, unused_comparison, unused_conditional, unused_logical, unused_object,
    unused_template, with_object, with_template, Env,
};
use crate::shape::shape_of;
use oxc_syntax::operator::{BinaryOperator, LogicalOperator, UnaryOperator};
use vstd::prelude::*;

verus! {

/// Whether evaluating `e` surely does something that can be noticed, wherever it is evaluated: it
/// calls what is not marked as pure, makes an object by what is no known constructor, reads a
/// property other than the `length`, or a global variable, deletes, or does what the tree does not
/// look into. A function that is called on the spot does what its body does.
///
/// Of `instanceof` nothing is claimed, and nothing of converting values.
pub open spec fn acts(e: Expr<'_>, env: Env) -> bool
    decreases e,
{
    match e {
        Expr::Null { .. } => false,
        Expr::Str { .. } => false,
        Expr::Function { .. } => false,
        Expr::Arrow { .. } => false,
        Expr::Identifier(i) => is_global(env.globals, i.reference_id) && i.name != "NaN"@ && i.name
            != "Infinity"@ && i.name != "undefined"@,
        Expr::Template { expressions, .. } => any_acts(expressions, env),
        Expr::Array { elements, .. } => any_element_acts(elements, env),
        Expr::Object { properties, .. } => any_property_acts(properties, env),
        Expr::Unary { operator, argument, .. } => match operator {
            UnaryOperator::Delete => true,
            UnaryOperator::Typeof => *argument !is Identifier && is_valid(*argument) && acts(
                *argument,
                env,
            ),
            _ => acts(*argument, env),
        },
        Expr::Binary { left, operator, right, .. } => match operator {
            BinaryOperator::In => true,
            BinaryOperator::Instanceof => false,
            _ => acts(*left, env) || acts(*right, env),
        },
        Expr::Logical { left, .. } => acts(*left, env),
        Expr::Conditional { test, consequent, alternate, .. } => acts(*test, env) || (acts(
            *consequent,
            env,
        ) && acts(*alternate, env)),
        Expr::Sequence { expressions, .. } => any_acts(expressions, env),
        Expr::Call { callee, arguments, pure, .. } => if pure {
            any_argument_acts(arguments, env)
        } else {
            arguments.len() > 0 || acts_when_called(*callee, env)
        },
        Expr::New { callee, arguments, pure, .. } => if pure {
            any_argument_acts(arguments, env)
        } else {
            arguments.len() > 1 || match *callee {
                Expr::Identifier(i) => !(is_global(env.globals, i.reference_id) && (i.name
                    == "Set"@ || i.name == "Map"@ || i.name == "WeakSet"@ || i.name == "WeakMap"@
                    || i.name == "Date"@)),
                _ => true,
            }
        },
        Expr::StaticMember { object, property, .. } => property != "length"@ || acts(*object, env),
        Expr::ComputedMember { object, expression, .. } => is_valid(*expression) && *expression
            !is Other && (acts(*object, env) || !(*expression is Str || *expression is Template)),
        Expr::Chain { expression, .. } => acts(*expression, env),
        Expr::Parenthesized { expression, .. } => acts(*expression, env),
        Expr::Class { decorators, super_class, elements, .. } => {
            ||| decorators.len() > 0
            ||| super_class is Some && acts(*super_class->Some_0, env)
            ||| exists|i: int| 0 <= i < elements.len() && member_acts(#[trigger] elements[i], env)
        },
        Expr::Other { node, .. } => shape_of(node) is Other,
    }
}

/// Whether calling `callee` without arguments surely does something.
pub open spec fn acts_when_called(callee: Expr<'_>, env: Env) -> bool
    decreases callee,
{
    match callee {
        Expr::Function { params, body, .. } => params.items > 0 || body is None
            || body->Some_0.directives > 0 || body->Some_0.statements > 0,
        Expr::Arrow { is_async, params, body, .. } => match body {
            Body::Expression(x) => is_async || acts(*x, env),
            Body::Block { directives, statements } => if statements.len() == 0 {
                params.items > 0 || directives.len() > 0
            } else {
                is_async || statements.len() > 1 || match statements[0] {
                    Stmt::Expression { expression, .. } => acts(expression, env),
                    Stmt::Return { argument, .. } => argument is Some && acts(
                        argument->Some_0,
                        env,
                    ),
                    Stmt::Other(_) => true,
                }
            },
        },
        _ => true,
    }
}

pub open spec fn any_acts(s: Seq<Expr<'_>>, env: Env) -> bool
    decreases s,
{
    exists|i: int| 0 <= i < s.len() && acts(#[trigger] s[i], env)
}

pub open spec fn element_acts(element: Element<'_>, env: Env) -> bool
    decreases element,
{
    match element {
        Element::Spread { argument, .. } => acts(argument, env) || (is_valid(argument) && !(argument
            is Array || argument is Template || argument is Str)),
        Element::Elision { .. } => false,
        Element::Expression(e) => acts(e, env),
    }
}

pub open spec fn any_element_acts(s: Seq<Element<'_>>, env: Env) -> bool
    decreases s,
{
    exists|i: int| 0 <= i < s.len() && element_acts(#[trigger] s[i], env)
}

pub open spec fn argument_acts(argument: Arg<'_>, env: Env) -> bool
    decreases argument,
{
    match argument {
        Arg::Spread { argument, .. } => acts(argument, env) || (is_valid(argument) && !(argument
            is Array || argument is Template || argument is Str)),
        Arg::Expression(e) => acts(e, env),
    }
}

pub open spec fn any_argument_acts(s: Seq<Arg<'_>>, env: Env) -> bool
    decreases s,
{
    exists|i: int| 0 <= i < s.len() && argument_acts(#[trigger] s[i], env)
}

pub open spec fn key_acts(key: Key<'_>, env: Env) -> bool
    decreases key,
{
    match key {
        Key::Expression(e) => acts(e, env),
        _ => false,
    }
}

pub open spec fn property_acts(property: Prop<'_>, env: Env) -> bool
    decreases property,
{
    match property {
        Prop::Property { key, value, .. } => key_acts(key, env) || acts(value, env),
        Prop::Spread { argument, .. } => acts(argument, env),
    }
}

pub open spec fn any_property_acts(s: Seq<Prop<'_>>, env: Env) -> bool
    decreases s,
{
    exists|i: int| 0 <= i < s.len() && property_acts(#[trigger] s[i], env)
}

pub open spec fn member_acts(member: Member<'_>, env: Env) -> bool
    decreases member,
{
    match member {
        Member::StaticBlock { statements, .. } => statements.len() > 0,
        Member::Method { decorators, key, .. } => decorators.len() > 0 || key_acts(key, env),
        Member::Property { decorators, key, value, is_static, .. } => decorators.len() > 0
            || key_acts(key, env) || (is_static && value is Some && acts(value->Some_0, env)),
        Member::Accessor { decorators, key, .. } => decorators.len() > 0 || key_acts(key, env),
        Member::IndexSignature { .. } => false,
    }
}

/// An expression that surely does something is found to have side effects.
pub proof fn law_acts_have_effects(e: Expr<'_>, env: Env)
    requires
        acts(e, env),
    ensures
        has_effects(e, env),
    decreases e, 0nat, 0nat,
{
    let shape = e.shape();
    match e {
        Expr::Template { expressions, .. } => {
            assert(any_acts(expressions, env));
            let i = choose|i: int|
                0 <= i < expressions.len() && acts(#[trigger] expressions[i], env);
            law_acts_have_effects(expressions[i], env);
            law_effects_of_literals(e, env);
        },
        Expr::Array { elements, .. } => {
            assert(any_element_acts(elements, env));
            let i = choose|i: int|
                0 <= i < elements.len() && element_acts(#[trigger] elements[i], env);
            assert(element_acts(elements[i], env));
            match elements[i] {
                Element::Spread { argument, .. } => {
                    lemma_spread_acts(argument, env);
                },
                Element::Elision { .. } => {},
                Element::Expression(x) => {
                    law_acts_have_effects(x, env);
                },
            }
            law_effects_of_literals(e, env);
        },
        Expr::Object { properties, .. } => {
            assert(any_property_acts(properties, env));
            let i = choose|i: int|
                0 <= i < properties.len() && property_acts(#[trigger] properties[i], env);
            assert(property_acts(properties[i], env));
            match properties[i] {
                Prop::Property { key, value, .. } => {
                    if acts(value, env) {
                        law_acts_have_effects(value, env);
                    } else {
                        assert(key_acts(key, env));
                        law_acts_have_effects(key->Expression_0, env);
                    }
                },
                Prop::Spread { argument, .. } => {
                    lemma_spread_acts(argument, env);
                },
            }
            law_effects_of_literals(e, env);
        },
        Expr::Unary { operator, argument, .. } => {
            if operator !is Delete {
                law_acts_have_effects(*argument, env);
                if operator is Typeof {
                    law_effects_of_unary_operators(e, env);
                }
            }
        },
        Expr::Binary { left, operator, right, .. } => {
            if operator !is In && operator !is Instanceof {
                if acts(*left, env) {
                    law_acts_have_effects(*left, env);
                } else {
                    law_acts_have_effects(*right, env);
                }
            }
        },
        Expr::Logical { left, .. } => {
            law_acts_have_effects(*left, env);
        },
        Expr::Conditional { test, consequent, .. } => {
            if acts(*test, env) {
                law_acts_have_effects(*test, env);
            } else {
                law_acts_have_effects(*consequent, env);
            }
        },
        Expr::Sequence { expressions, .. } => {
            assert(any_acts(expressions, env));
            let i = choose|i: int|
                0 <= i < expressions.len() && acts(#[trigger] expressions[i], env);
            law_acts_have_effects(expressions[i], env);
            law_effects_of_branches(e, env);
        },
        Expr::Call { arguments, pure, .. } => {
            if pure {
                assert(any_argument_acts(arguments, env));
                lemma_arguments_act(arguments, env);
                law_effects_of_calls(e, env);
            }
        },
        Expr::New { arguments, pure, .. } => {
            if pure {
                assert(any_argument_acts(arguments, env));
                lemma_arguments_act(arguments, env);
                law_effects_of_calls(e, env);
            }
        },
        Expr::StaticMember { object, property, .. } => {
            if property == "length"@ {
                law_acts_have_effects(*object, env);
            }
            let read = read_may_have_side_effects(object.shape(), property, env.globals);
        },
        Expr::ComputedMember { object, expression, .. } => {
            if acts(*object, env) {
                law_acts_have_effects(*object, env);
            }
            lemma_chain_shape(*expression);
            let key = expression.shape();
            match key_text(key) {
                Some(text) => {
                    let read = read_may_have_side_effects(object.shape(), text, env.globals);
                },
                None => {},
            }
        },
        Expr::Chain { expression, .. } => {
            law_acts_have_effects(*expression, env);
        },
        Expr::Parenthesized { expression, .. } => {
            law_acts_have_effects(*expression, env);
        },
        Expr::Class { decorators, super_class, elements, .. } => {
            if decorators.len() > 0 {
            } else if super_class is Some && acts(*super_class->Some_0, env) {
                law_acts_have_effects(*super_class->Some_0, env);
            } else {
                let i = choose|i: int|
                    0 <= i < elements.len() && member_acts(#[trigger] elements[i], env);
                assert(member_acts(elements[i], env));
                match elements[i] {
                    Member::Method { key, .. } => {
                        lemma_key_acts(key, env);
                    },
                    Member::Property { key, value, is_static, .. } => {
                        lemma_key_acts(key, env);
                        if is_static && value is Some && acts(value->Some_0, env) {
                            law_acts_have_effects(value->Some_0, env);
                        }
                    },
                    Member::Accessor { key, .. } => {
                        lemma_key_acts(key, env);
                    },
                    _ => {},
                }
            }
            law_effects_of_classes(e, env);
        },
        _ => {},
    }
}

proof fn lemma_key_acts(key: Key<'_>, env: Env)
    ensures
        key_acts(key, env) ==> key is Expression && has_effects(key->Expression_0, env),
    decreases key, 0nat,
{
    match key {
        Key::Expression(e) => {
            if acts(e, env) {
                law_acts_have_effects(e, env);
            }
        },
        _ => {},
    }
}

proof fn lemma_spread_acts(argument: Expr<'_>, env: Env)
    requires
        acts(argument, env) || (is_valid(argument) && !(argument is Array || argument is Template
            || argument is Str)),
    ensures
        spread_has_effects(argument, env),
    decreases argument, 1nat,
{
    if acts(argument, env) {
        law_acts_have_effects(argument, env);
        let shape = argument.shape();
    } else {
        law_spread(argument, env);
    }
}

proof fn lemma_arguments_act(s: Seq<Arg<'_>>, env: Env)
    requires
        any_argument_acts(s, env),
    ensures
        exists|i: int|
            0 <= i < s.len() && match #[trigger] s[i] {
                Arg::Spread { argument, .. } => spread_has_effects(argument, env),
                Arg::Expression(x) => has_effects(x, env),
            },
    decreases s, 0nat,
{
    let i = choose|i: int| 0 <= i < s.len() && argument_acts(#[trigger] s[i], env);
    match s[i] {
        Arg::Spread { argument, .. } => {
            lemma_spread_acts(argument, env);
        },
        Arg::Expression(x) => {
            law_acts_have_effects(x, env);
        },
    }
}

proof fn lemma_push<'a>(s: Seq<Expr<'a>>, x: Expr<'a>, env: Env)
    ensures
        any_acts(s.push(x), env) == (any_acts(s, env) || acts(x, env)),
{
    let all = s.push(x);
    if any_acts(s, env) {
        let i = choose|i: int| 0 <= i < s.len() && acts(#[trigger] s[i], env);
        assert(all[i] == s[i]);
    }
    if acts(x, env) {
        assert(all[s.len() as int] == x);
    }
    if any_acts(all, env) {
        let i = choose|i: int| 0 <= i < all.len() && acts(#[trigger] all[i], env);
        if i < s.len() {
            assert(s[i] == all[i]);
        }
    }
}

proof fn lemma_split<'a>(s: Seq<Expr<'a>>, env: Env)
    requires
        s.len() > 0,
    ensures
        any_acts(s, env) == (any_acts(s.drop_last(), env) || acts(s.last(), env)),
{
    lemma_push(s.drop_last(), s.last(), env);
    assert(s.drop_last().push(s.last()) =~= s);
}

proof fn lemma_split_elements<'a>(s: Seq<Element<'a>>, env: Env)
    requires
        s.len() > 0,
    ensures
        any_element_acts(s, env) == (any_element_acts(s.drop_last(), env) || element_acts(
            s.last(),
            env,
        )),
{
    let init = s.drop_last();
    assert(s[s.len() - 1] == s.last());
    if any_element_acts(init, env) {
        let i = choose|i: int| 0 <= i < init.len() && element_acts(#[trigger] init[i], env);
        assert(s[i] == init[i]);
    }
    if any_element_acts(s, env) {
        let i = choose|i: int| 0 <= i < s.len() && element_acts(#[trigger] s[i], env);
        if i < init.len() {
            assert(init[i] == s[i]);
        }
    }
}

proof fn lemma_split_arguments<'a>(s: Seq<Arg<'a>>, env: Env)
    requires
        s.len() > 0,
    ensures
        any_argument_acts(s, env) ==> any_argument_acts(s.drop_last(), env) || argument_acts(
            s.last(),
            env,
        ),
{
    let init = s.drop_last();
    if any_argument_acts(s, env) {
        let i = choose|i: int| 0 <= i < s.len() && argument_acts(#[trigger] s[i], env);
        if i < init.len() {
            assert(init[i] == s[i]);
        }
    }
}

proof fn lemma_split_properties<'a>(s: Seq<Prop<'a>>, env: Env)
    requires
        s.len() > 0,
    ensures
        any_property_acts(s, env) == (any_property_acts(s.drop_last(), env) || property_acts(
            s.last(),
            env,
        )),
{
    let init = s.drop_last();
    assert(s[s.len() - 1] == s.last());
    if any_property_acts(init, env) {
        let i = choose|i: int| 0 <= i < init.len() && property_acts(#[trigger] init[i], env);
        assert(s[i] == init[i]);
    }
    if any_property_acts(s, env) {
        let i = choose|i: int| 0 <= i < s.len() && property_acts(#[trigger] s[i], env);
        if i < init.len() {
            assert(init[i] == s[i]);
        }
    }
}

proof fn lemma_in_order<'a>(span: Span, s: Seq<Expr<'a>>, env: Env)
    requires
        any_acts(s, env),
    ensures
        s.len() > 0,
        acts(in_order(span, s), env),
{
    let e = in_order(span, s);
}

proof fn lemma_kept<'a>(s: Seq<Expr<'a>>, env: Env)
    requires
        any_acts(s, env),
    ensures
        any_acts(kept(s, env).exprs, env),
    decreases expressions_size(s), 2nat,
{
    lemma_split(s, env);
    let init = kept(s.drop_last(), env).exprs;
    let last = unused(s.last(), env).expr;
    lemma_push(init, last, env);
    if any_acts(s.drop_last(), env) {
        lemma_kept(s.drop_last(), env);
    } else {
        law_acts_stay(s.last(), env);
    }
}

proof fn lemma_kept_arguments<'a>(s: Seq<Arg<'a>>, env: Env)
    requires
        any_argument_acts(s, env),
    ensures
        any_acts(kept_arguments(s, env).exprs, env),
    decreases arguments_size(s), 2nat,
{
    lemma_split_arguments(s, env);
    let init = kept_arguments(s.drop_last(), env).exprs;
    let x = argument_expression(s.last());
    lemma_argument_size(s.last());
    lemma_push(init, unused(x, env).expr, env);
    if any_argument_acts(s.drop_last(), env) {
        lemma_kept_arguments(s.drop_last(), env);
    } else {
        match s.last() {
            Arg::Spread { span, argument } => {
                let elements = seq![Element::Spread { span, argument }];
                assert(element_acts(elements[0], env));
                assert(any_element_acts(elements, env));
            },
            Arg::Expression(_) => {},
        }
        law_acts_stay(x, env);
    }
}

proof fn lemma_kept_elements<'a>(s: Seq<Element<'a>>, env: Env)
    requires
        any_element_acts(s, env),
    ensures
        any_element_acts(kept_elements(s, env).elements, env),
    decreases elements_size(s), 2nat,
{
    lemma_split_elements(s, env);
    let init = kept_elements(s.drop_last(), env).elements;
    let all = kept_elements(s, env).elements;
    if any_element_acts(s.drop_last(), env) {
        lemma_kept_elements(s.drop_last(), env);
        if all.len() > init.len() {
            assert(all.drop_last() =~= init);
            lemma_split_elements(all, env);
        }
    } else {
        assert(element_acts(s.last(), env));
        match s.last() {
            Element::Spread { argument, .. } => {
                lemma_spread_acts(argument, env);
                assert(all == init.push(s.last()));
            },
            Element::Elision { .. } => {},
            Element::Expression(x) => {
                assert(s.last().size() == x.size() + 1);
                law_acts_stay(x, env);
                assert(all == init.push(Element::Expression(unused(x, env).expr)));
                assert(element_acts(all.last(), env));
            },
        }
        lemma_split_elements(all, env);
    }
}

proof fn lemma_element_expressions<'a>(s: Seq<Element<'a>>, env: Env)
    requires
        any_element_acts(s, env),
        !has_spread(s),
    ensures
        any_acts(element_expressions(s), env),
{
    let i = choose|i: int| 0 <= i < s.len() && element_acts(#[trigger] s[i], env);
    assert(s[i] !is Spread);
    assert(s[i] is Expression);
    assert(element_expressions(s)[i] == s[i]->Expression_0);
}

proof fn lemma_kept_substitutions<'a>(s: Seq<Expr<'a>>, env: Env)
    requires
        any_acts(s, env),
    ensures
        any_acts(kept_substitutions(s, env).exprs, env) || any_acts(
            kept_substitutions(s, env).pending,
            env,
        ),
    decreases expressions_size(s), 2nat,
{
    lemma_split(s, env);
    let init = kept_substitutions(s.drop_last(), env);
    let x = unused(s.last(), env).expr;
    if any_acts(s.drop_last(), env) {
        lemma_kept_substitutions(s.drop_last(), env);
    } else {
        law_acts_stay(s.last(), env);
    }
    lemma_push(init.pending, s.last(), env);
    lemma_with_template(x.span(), init.exprs, init.pending, env);
    lemma_push(with_template(x.span(), init.exprs, init.pending), x, env);
}

proof fn lemma_with_template<'a>(
    span: Span,
    exprs: Seq<Expr<'a>>,
    pending: Seq<Expr<'a>>,
    env: Env,
)
    ensures
        any_acts(exprs, env) || any_acts(pending, env) ==> any_acts(
            with_template(span, exprs, pending),
            env,
        ),
{
    lemma_push(exprs, bare_template(span, pending), env);
    let t = bare_template(span, pending);
    assert(acts(t, env) == any_acts(pending, env));
}

proof fn lemma_with_object<'a>(span: Span, exprs: Seq<Expr<'a>>, pending: Seq<Prop<'a>>, env: Env)
    ensures
        any_acts(exprs, env) || any_property_acts(pending, env) ==> any_acts(
            with_object(span, exprs, pending),
            env,
        ),
{
    let object = Expr::Object { span, properties: pending, trailing_comma: None };
    lemma_push(exprs, object, env);
    assert(acts(object, env) == any_property_acts(pending, env));
}

proof fn lemma_kept_properties<'a>(s: Seq<Prop<'a>>, env: Env)
    requires
        any_property_acts(s, env),
    ensures
        any_acts(kept_properties(s, env).exprs, env) || any_property_acts(
            kept_properties(s, env).pending,
            env,
        ),
    decreases properties_size(s), 2nat,
{
    lemma_split_properties(s, env);
    let init = kept_properties(s.drop_last(), env);
    if any_property_acts(s.drop_last(), env) {
        lemma_kept_properties(s.drop_last(), env);
    }
    match s.last() {
        Prop::Spread { .. } => {
            let pending = init.pending.push(s.last());
            lemma_split_properties(pending, env);
            assert(pending.drop_last() =~= init.pending);
        },
        Prop::Property { span, key, value, .. } => {
            assert(s.last().size() == key.size() + value.size() + 1);
            lemma_with_object(span, init.exprs, init.pending, env);
            let before = with_object(span, init.exprs, init.pending);
            let k = kept_key(before, key, env);
            match key {
                Key::Expression(e) => {
                    assert(key.size() == e.size() + 1);
                    lemma_push(before, unused(e, env).expr, env);
                    if acts(e, env) {
                        law_acts_stay(e, env);
                    }
                },
                _ => {},
            }
            lemma_push(k.exprs, unused(value, env).expr, env);
            if acts(value, env) {
                law_acts_stay(value, env);
            }
            assert(property_acts(s.last(), env) == (key_acts(key, env) || acts(value, env)));
        },
    }
}

proof fn lemma_join<'a>(span: Span, op: LogicalOperator, a: Expr<'a>, b: Expr<'a>, env: Env)
    requires
        acts(a, env),
    ensures
        acts(join(span, op, a, b), env),
    decreases b.size(), a.size(),
{
    let j = join(span, op, a, b);
    if a is Sequence && a->Sequence_expressions.len() > 0 {
        let s = a->Sequence_expressions;
        assert(any_acts(s, env));
        assert(s.last().size() < expressions_size(s));
        lemma_split(s, env);
        if acts(s.last(), env) {
            lemma_join(span, op, s.last(), b, env);
        }
        lemma_push(s.drop_last(), join(span, op, s.last(), b), env);
    } else if b is Logical && b->Logical_operator == op {
        lemma_join(span, op, a, *b->Logical_left, env);
        lemma_join(span, op, join(span, op, a, *b->Logical_left), *b->Logical_right, env);
    }
}

proof fn lemma_boolean_context<'a>(e: Expr<'a>, env: Env)
    requires
        acts(e, env),
    ensures
        acts(boolean_context(e).expr, env),
    decreases e,
{
    let f = boolean_context(e);
    match e {
        Expr::Unary { operator, argument, .. } => {
            if operator is LogicalNot {
                match *argument {
                    Expr::Unary { operator: UnaryOperator::LogicalNot, argument: inner, .. } => {
                        assert(acts(*argument, env));
                        lemma_boolean_context(*inner, env);
                    },
                    _ => {},
                }
            }
        },
        Expr::Logical { left, operator, right, .. } => {
            lemma_boolean_context(*left, env);
        },
        Expr::Conditional { test, consequent, alternate, .. } => {
            if !acts(*test, env) {
                lemma_boolean_context(*consequent, env);
                lemma_boolean_context(*alternate, env);
            }
        },
        _ => {},
    }
}

proof fn lemma_sum<'a>(e: Expr<'a>, env: Env)
    requires
        acts(e, env),
    ensures
        acts(shortened_sum(e, env).expr, env),
    decreases e.size(),
{
    let sum = shortened_sum(e, env);
    match e {
        Expr::Binary { left, operator: BinaryOperator::Addition, right, .. } => {
            let l = shortened_sum(*left, env);
            if acts(*left, env) {
                lemma_sum(*left, env);
                law_acts_have_effects(l.expr, env);
            } else {
                law_acts_have_effects(*right, env);
            }
        },
        _ => {},
    }
}

proof fn lemma_body<'a>(e: Expr<'a>, callee: Expr<'a>, env: Env)
    requires
        acts(e, env),
        acts_when_called(callee, env),
    ensures
        acts(unused_body(e, callee, env).expr, env),
        !unused_body(e, callee, env).removed,
    decreases callee.size(), 1nat,
{
    match callee {
        Expr::Arrow { is_async: false, body, .. } => match body {
            Body::Expression(x) => {
                assert(body.size() == x.size() + 1);
                law_acts_stay(*x, env);
            },
            Body::Block { statements, .. } => {
                if statements.len() == 1 {
                    assert(body.size() > statements_size(statements) > statements.last().size());
                    match statements[0] {
                        Stmt::Expression { expression, .. } => {
                            law_acts_stay(expression, env);
                        },
                        Stmt::Return { argument: Some(argument), .. } => {
                            law_acts_stay(argument, env);
                        },
                        _ => {},
                    }
                }
            },
        },
        _ => {},
    }
}

/// An expression that surely does something is not removed, and what is left of it surely does
/// something.
pub proof fn law_acts_stay<'a>(e: Expr<'a>, env: Env)
    requires
        acts(e, env),
    ensures
        !unused(e, env).removed,
        acts(unused(e, env).expr, env),
    decreases e.size(), 1nat,
{
    let o = unused(e, env);
    match e {
        Expr::Array { span, elements, trailing_comma } => {
            let a = unused_array(span, elements, trailing_comma, env);
            assert(any_element_acts(elements, env));
            lemma_kept_elements(elements, env);
            let left = kept_elements(elements, env).elements;
            if !has_spread(left) {
                lemma_element_expressions(left, env);
                lemma_in_order(span, element_expressions(left), env);
            }
        },
        Expr::Unary { operator, argument, .. } => {
            if operator is Void || operator is LogicalNot || operator is Typeof {
                law_acts_stay(*argument, env);
            }
        },
        Expr::New { span, arguments, pure, .. } => {
            if pure {
                assert(any_argument_acts(arguments, env));
                lemma_kept_arguments(arguments, env);
                lemma_in_order(span, kept_arguments(arguments, env).exprs, env);
            }
        },
        Expr::Logical { span, left, operator, right } => {
            let l = unused_logical(span, *left, operator, *right, env);
            let folded = folded_left(*left, operator).expr;
            lemma_boolean_context(*left, env);
            lemma_boolean_context_size(*left);
            assert(acts(folded, env));
            law_acts_stay(folded, env);
            let r = unused(*right, env);
            match tested_variable(folded, operator, env) {
                Some(id) => {
                    let x = *folded->Binary_left;
                    let y = *folded->Binary_right;
                    assert(acts(x, env) || acts(y, env));
                },
                None => {},
            }
        },
        Expr::Sequence { expressions, .. } => {
            assert(any_acts(expressions, env));
            lemma_kept(expressions, env);
        },
        Expr::Template { span, quasis, expressions } => {
            let t = unused_template(span, quasis, expressions, env);
            assert(any_acts(expressions, env));
            lemma_kept_substitutions(expressions, env);
            let k = kept_substitutions(expressions, env);
            lemma_with_template(span, k.exprs, k.pending, env);
            lemma_in_order(span, with_template(span, k.exprs, k.pending), env);
        },
        Expr::Object { span, properties, trailing_comma } => {
            let p = unused_object(span, properties, trailing_comma, env);
            assert(any_property_acts(properties, env));
            lemma_kept_properties(properties, env);
            let k = kept_properties(properties, env);
            lemma_with_object(span, k.exprs, k.pending, env);
            lemma_in_order(span, with_object(span, k.exprs, k.pending), env);
        },
        Expr::Conditional { span, test, consequent, alternate } => {
            let d = unused_conditional(span, *test, *consequent, *alternate, env);
            let c = unused(*consequent, env);
            let a = unused(*alternate, env);
            if acts(*test, env) {
                law_acts_stay(*test, env);
                lemma_join(span, LogicalOperator::Or, *test, a.expr, env);
                lemma_join(span, LogicalOperator::And, *test, c.expr, env);
            } else {
                law_acts_stay(*consequent, env);
                law_acts_stay(*alternate, env);
            }
        },
        Expr::Binary { span, left, operator, right } => {
            if is_comparison(operator) {
                let c = unused_comparison(span, *left, operator, *right, env);
                let l = unused(*left, env).expr;
                let r = unused(*right, env).expr;
                let both = seq![l, r];
                assert(both[0] == l && both[1] == r);
                if acts(*left, env) {
                    law_acts_stay(*left, env);
                    assert(acts(both[0], env));
                } else {
                    law_acts_stay(*right, env);
                    assert(acts(both[1], env));
                }
                assert(any_acts(both, env));
            } else if operator is Addition {
                lemma_sum(e, env);
            } else {
                law_acts_have_effects(e, env);
            }
        },
        Expr::Call { span, callee, arguments, pure, .. } => {
            if pure {
                assert(any_argument_acts(arguments, env));
                lemma_kept_arguments(arguments, env);
                lemma_in_order(span, kept_arguments(arguments, env).exprs, env);
            } else if arguments.len() == 0 {
                assert(acts_when_called(*callee, env));
                lemma_body(e, *callee, env);
            }
        },
        _ => {
            law_acts_have_effects(e, env);
        },
    }
}

} // verus!
