//! What becomes of an unused expression, told by what becomes of its parts.
use crate::ast::{Arg, Body, Element, Expr, Key, Prop, Quasi, Span, Stmt};
use crate::boolean_context::boolean_context;
use crate::ctx::{is_global, is_undefined, Ctx};
use crate::effects::type_of;
use crate::join::join;
use crate::optional_chain::{guarded, guarded_links};
use crate::peephole::PeepholeOptimizations;
use crate::rewrite::{
    argument_expression, bare_template, converts_to_string, element_expressions, has_effects,
    is_string, kept, kept_arguments, kept_elements, kept_key, kept_properties, kept_substitutions,
    shortened_sum, spread_has_effects, unused, unused_array, unused_body, unused_comparison,
    unused_conditional, unused_logical, unused_object, unused_template, with_object,
    with_template, Env, Outcome,
};
use crate::shape::shape_of;
use oxc_ecmascript::constant_evaluation::ValueType;
use oxc_syntax::operator::{BinaryOperator, LogicalOperator, UnaryOperator};
use vstd::prelude::*;

verus! {

/// What is left of a comma expression is what is left of its expressions, in their order.
pub proof fn law_sequence(span: Span, s: Seq<Expr<'_>>, env: Env)
    ensures
        ({
            let left = s.filter_map(
                |x: Expr<'_>|
                    if unused(x, env).removed {
                        None
                    } else {
                        Some(unused(x, env).expr)
                    },
            );
            unused((Expr::Sequence { span, expressions: s }), env) == Outcome {
                expr: Expr::Sequence { span, expressions: left },
                removed: left.len() == 0,
                changed: left.len() != s.len() || exists|i: int|
                    0 <= i < s.len() && (#[trigger] unused(s[i], env)).changed,
            }
        }),
{
    let o = unused(Expr::Sequence { span, expressions: s }, env);
    lemma_kept(s, env);
}

proof fn lemma_kept(s: Seq<Expr<'_>>, env: Env)
    ensures
        kept(s, env).exprs == s.filter_map(
            |x: Expr<'_>|
                if unused(x, env).removed {
                    None
                } else {
                    Some(unused(x, env).expr)
                },
        ),
        kept(s, env).changed == exists|i: int|
            0 <= i < s.len() && (#[trigger] unused(s[i], env)).changed,
    decreases s.len(),
{
    let f = |x: Expr<'_>|
        if unused(x, env).removed {
            None
        } else {
            Some(unused(x, env).expr)
        };
    if s.len() == 0 {
        assert(kept(s, env).exprs =~= s.filter_map(f));
    } else {
        let init = s.drop_last();
        lemma_kept(init, env);
        assert(kept(s, env).exprs =~= s.filter_map(f));
        if kept(init, env).changed {
            let i = choose|i: int|
                0 <= i < init.len() && (#[trigger] unused(init[i], env)).changed;
            assert(s[i] == init[i]);
            assert(unused(s[i], env).changed);
        }
        assert(s[s.len() - 1] == s.last());
        assert forall|i: int|
            0 <= i < s.len() && (#[trigger] unused(s[i], env)).changed implies kept(
            s,
            env,
        ).changed by {
            if i < init.len() {
                assert(init[i] == s[i]);
                assert(unused(init[i], env).changed);
            }
        }
    }
}

/// An expression that has no part that could be left without it stays as it is. It is removed if
/// and only if it has no side effects.
pub proof fn law_indivisible(e: Expr<'_>, env: Env)
    requires
        match e {
            Expr::Null { .. }
            | Expr::Str { .. }
            | Expr::Identifier(_)
            | Expr::StaticMember { .. }
            | Expr::ComputedMember { .. }
            | Expr::Chain { .. }
            | Expr::Function { .. }
            | Expr::Arrow { .. }
            | Expr::Parenthesized { .. }
            | Expr::Class { .. }
            | Expr::Other { .. } => true,
            Expr::Binary { operator, .. } => match operator {
                BinaryOperator::Subtraction
                | BinaryOperator::Multiplication
                | BinaryOperator::Division
                | BinaryOperator::Remainder
                | BinaryOperator::Exponential
                | BinaryOperator::ShiftLeft
                | BinaryOperator::ShiftRight
                | BinaryOperator::ShiftRightZeroFill
                | BinaryOperator::BitwiseOR
                | BinaryOperator::BitwiseXOR
                | BinaryOperator::BitwiseAnd
                | BinaryOperator::In
                | BinaryOperator::Instanceof => true,
                _ => false,
            },
            _ => false,
        },
    ensures
        unused(e, env) == (Outcome { expr: e, removed: !has_effects(e, env), changed: false }),
{
}

/// `void x` and `!x` leave what `x` leaves, and so does `typeof x` unless `x` is a variable: then
/// it is removed. The other unary operators stay as they are.
pub proof fn law_unary_operator(span: Span, operator: UnaryOperator, x: Expr<'_>, env: Env)
    ensures
        ({
            let e = Expr::Unary { span, operator, argument: Box::new(x) };
            unused(e, env) == match operator {
                UnaryOperator::Delete
                | UnaryOperator::UnaryPlus
                | UnaryOperator::UnaryNegation
                | UnaryOperator::BitwiseNot => Outcome { expr: e, removed: false, changed: false },
                _ => if operator is Typeof && x is Identifier {
                    Outcome { expr: e, removed: true, changed: false }
                } else {
                    Outcome {
                        expr: unused(x, env).expr,
                        removed: unused(x, env).removed,
                        changed: true,
                    }
                },
            }
        }),
{
    let e = Expr::Unary { span, operator, argument: Box::new(x) };
    let o = unused(e, env);
    let inner = unused(x, env);
}

/// Of the elements of an array, holes go, and so do the spreads that are free of side effects and
/// the expressions that are removed. The rest stays in its order, in an array if a spread is among
/// it.
pub proof fn law_array<'a>(
    span: Span,
    elements: Seq<Element<'a>>,
    trailing_comma: Option<Span>,
    env: Env,
)
    ensures
        ({
            let left = elements.filter_map(
                |element: Element<'a>|
                    match element {
                        Element::Spread { argument, .. } => if spread_has_effects(argument, env) {
                            Some(element)
                        } else {
                            None
                        },
                        Element::Elision { .. } => None,
                        Element::Expression(x) => if unused(x, env).removed {
                            None
                        } else {
                            Some(Element::Expression(unused(x, env).expr))
                        },
                    },
            );
            unused((Expr::Array { span, elements, trailing_comma }), env) == Outcome {
                expr: if left.len() == 0 || exists|i: int|
                    0 <= i < left.len() && #[trigger] left[i] is Spread {
                    Expr::Array { span, elements: left, trailing_comma }
                } else if left.len() == 1 {
                    left[0]->Expression_0
                } else {
                    Expr::Sequence {
                        span,
                        expressions: Seq::new(left.len(), |i: int| left[i]->Expression_0),
                    }
                },
                removed: left.len() == 0,
                changed: left.len() != elements.len() || exists|i: int|
                    0 <= i < elements.len() && #[trigger] elements[i] is Expression && unused(
                        elements[i]->Expression_0,
                        env,
                    ).changed,
            }
        }),
{
    let o = unused(Expr::Array { span, elements, trailing_comma }, env);
    let a = unused_array(span, elements, trailing_comma, env);
    lemma_kept_elements(elements, env);
    let left = kept_elements(elements, env).elements;
    if left.len() == 1 {
        assert(element_expressions(left)[0] == left[0]->Expression_0);
    }
    assert(element_expressions(left) =~= Seq::new(left.len(), |i: int| left[i]->Expression_0));
}

proof fn lemma_kept_elements<'a>(s: Seq<Element<'a>>, env: Env)
    ensures
        kept_elements(s, env).elements == s.filter_map(
            |element: Element<'a>|
                match element {
                    Element::Spread { argument, .. } => if spread_has_effects(argument, env) {
                        Some(element)
                    } else {
                        None
                    },
                    Element::Elision { .. } => None,
                    Element::Expression(x) => if unused(x, env).removed {
                        None
                    } else {
                        Some(Element::Expression(unused(x, env).expr))
                    },
                },
        ),
        kept_elements(s, env).changed == exists|i: int|
            0 <= i < s.len() && #[trigger] s[i] is Expression && unused(
                s[i]->Expression_0,
                env,
            ).changed,
    decreases s.len(),
{
    let f = |element: Element<'a>|
        match element {
            Element::Spread { argument, .. } => if spread_has_effects(argument, env) {
                Some(element)
            } else {
                None
            },
            Element::Elision { .. } => None,
            Element::Expression(x) => if unused(x, env).removed {
                None
            } else {
                Some(Element::Expression(unused(x, env).expr))
            },
        };
    let all = kept_elements(s, env);
    if s.len() == 0 {
        assert(all.elements =~= s.filter_map(f));
    } else {
        let init = s.drop_last();
        lemma_kept_elements(init, env);
        assert(all.elements =~= s.filter_map(f));
        assert(s[s.len() - 1] == s.last());
        assert forall|i: int| 0 <= i < init.len() implies s[i] == #[trigger] init[i] by {}
        if kept_elements(init, env).changed {
            let i = choose|i: int|
                0 <= i < init.len() && #[trigger] init[i] is Expression && unused(
                    init[i]->Expression_0,
                    env,
                ).changed;
            assert(s[i] is Expression);
        }
        assert forall|i: int|
            0 <= i < s.len() && #[trigger] s[i] is Expression && unused(
                s[i]->Expression_0,
                env,
            ).changed implies all.changed by {
            if i < init.len() {
                assert(init[i] is Expression);
            }
        }
    }
}

/// Of a call that is marked as pure, the arguments stay that are not removed, in their order.
/// `...x` is evaluated as `[...x]`.
pub proof fn law_pure_call_arguments<'a>(
    span: Span,
    callee: Box<Expr<'a>>,
    arguments: Seq<Arg<'a>>,
    optional: bool,
    env: Env,
)
    ensures
        ({
            let evaluated = |argument: Arg<'a>|
                match argument {
                    Arg::Spread { span, argument } => Expr::Array {
                        span,
                        elements: seq![Element::Spread { span, argument }],
                        trailing_comma: None,
                    },
                    Arg::Expression(x) => x,
                };
            let left = arguments.filter_map(
                |argument: Arg<'a>|
                    if unused(evaluated(argument), env).removed {
                        None
                    } else {
                        Some(unused(evaluated(argument), env).expr)
                    },
            );
            let e = Expr::Call { span, callee, arguments, optional, pure: true };
            unused(e, env) == Outcome {
                expr: if left.len() == 0 {
                    Expr::Call { span, callee, arguments: seq![], optional, pure: true }
                } else if left.len() == 1 {
                    left[0]
                } else {
                    Expr::Sequence { span, expressions: left }
                },
                removed: left.len() == 0,
                changed: left.len() > 0 || exists|i: int|
                    0 <= i < arguments.len() && unused(
                        evaluated(#[trigger] arguments[i]),
                        env,
                    ).changed,
            }
        }),
{
    let o = unused(Expr::Call { span, callee, arguments, optional, pure: true }, env);
    lemma_kept_arguments(arguments, env);
}

/// Of a `new` that is marked as pure, the arguments stay that are not removed, in their order.
/// `...x` is evaluated as `[...x]`.
pub proof fn law_pure_new_arguments<'a>(
    span: Span,
    callee: Box<Expr<'a>>,
    arguments: Seq<Arg<'a>>,
    env: Env,
)
    ensures
        ({
            let evaluated = |argument: Arg<'a>|
                match argument {
                    Arg::Spread { span, argument } => Expr::Array {
                        span,
                        elements: seq![Element::Spread { span, argument }],
                        trailing_comma: None,
                    },
                    Arg::Expression(x) => x,
                };
            let left = arguments.filter_map(
                |argument: Arg<'a>|
                    if unused(evaluated(argument), env).removed {
                        None
                    } else {
                        Some(unused(evaluated(argument), env).expr)
                    },
            );
            let e = Expr::New { span, callee, arguments, pure: true };
            unused(e, env) == Outcome {
                expr: if left.len() == 0 {
                    Expr::New { span, callee, arguments: seq![], pure: true }
                } else if left.len() == 1 {
                    left[0]
                } else {
                    Expr::Sequence { span, expressions: left }
                },
                removed: left.len() == 0,
                changed: left.len() > 0 || exists|i: int|
                    0 <= i < arguments.len() && unused(
                        evaluated(#[trigger] arguments[i]),
                        env,
                    ).changed,
            }
        }),
{
    let o = unused(Expr::New { span, callee, arguments, pure: true }, env);
    lemma_kept_arguments(arguments, env);
}

proof fn lemma_kept_arguments<'a>(s: Seq<Arg<'a>>, env: Env)
    ensures
        ({
            let evaluated = |argument: Arg<'a>|
                match argument {
                    Arg::Spread { span, argument } => Expr::Array {
                        span,
                        elements: seq![Element::Spread { span, argument }],
                        trailing_comma: None,
                    },
                    Arg::Expression(x) => x,
                };
            &&& kept_arguments(s, env).exprs == s.filter_map(
                |argument: Arg<'a>|
                    if unused(evaluated(argument), env).removed {
                        None
                    } else {
                        Some(unused(evaluated(argument), env).expr)
                    },
            )
            &&& kept_arguments(s, env).changed == exists|i: int|
                0 <= i < s.len() && unused(evaluated(#[trigger] s[i]), env).changed
        }),
    decreases s.len(),
{
    let evaluated = |argument: Arg<'a>|
        match argument {
            Arg::Spread { span, argument } => Expr::Array {
                span,
                elements: seq![Element::Spread { span, argument }],
                trailing_comma: None,
            },
            Arg::Expression(x) => x,
        };
    let f = |argument: Arg<'a>|
        if unused(evaluated(argument), env).removed {
            None
        } else {
            Some(unused(evaluated(argument), env).expr)
        };
    let all = kept_arguments(s, env);
    if s.len() == 0 {
        assert(all.exprs =~= s.filter_map(f));
    } else {
        let init = s.drop_last();
        lemma_kept_arguments(init, env);
        assert(evaluated(s.last()) == argument_expression(s.last()));
        assert(all.exprs =~= s.filter_map(f));
        assert(s[s.len() - 1] == s.last());
        if kept_arguments(init, env).changed {
            let i = choose|i: int|
                0 <= i < init.len() && unused(evaluated(#[trigger] init[i]), env).changed;
            assert(unused(evaluated(s[i]), env).changed);
        }
        assert forall|i: int|
            0 <= i < s.len() && unused(
                evaluated(#[trigger] s[i]),
                env,
            ).changed implies all.changed by {
            if i < init.len() {
                assert(init[i] == s[i]);
            }
        }
    }
}

/// A call that is not marked as pure stays as it is, unless a function is called on the spot
/// without arguments. It is removed if the function declares no parameter but for a rest parameter,
/// and has neither directives nor statements. Of a synchronous arrow function whose body is an
/// expression, or one statement that evaluates or returns one, it leaves what the expression
/// leaves.
pub proof fn law_call(e: Expr<'_>, env: Env)
    requires
        e is Call,
        !e->Call_pure,
    ensures
        ({
            let stays = Outcome { expr: e, removed: false, changed: false };
            let goes = Outcome { expr: e, removed: true, changed: false };
            unused(e, env) == if e->Call_arguments.len() > 0 {
                stays
            } else {
                match *e->Call_callee {
                    Expr::Function { params, body, .. } => match body {
                        Some(body) => if params.items == 0 && body.directives + body.statements
                            == 0 {
                            goes
                        } else {
                            stays
                        },
                        None => stays,
                    },
                    Expr::Arrow { is_async, params, body, .. } => match body {
                        Body::Expression(x) => if is_async {
                            stays
                        } else {
                            unused(*x, env)
                        },
                        Body::Block { directives, statements } => if statements.len() == 0 {
                            if params.items == 0 && directives.len() == 0 {
                                goes
                            } else {
                                stays
                            }
                        } else if is_async || statements.len() > 1 {
                            stays
                        } else {
                            match statements[0] {
                                Stmt::Expression { expression, .. } => unused(expression, env),
                                Stmt::Return { argument, .. } => match argument {
                                    Some(x) => unused(x, env),
                                    None => goes,
                                },
                                Stmt::Other(_) => stays,
                            }
                        },
                    },
                    _ => stays,
                }
            }
        }),
{
    let o = unused(e, env);
    let body = unused_body(e, *e->Call_callee, env);
}

/// A `new` that is not marked as pure stays as it is. It is removed if and only if it calls the
/// global `WeakSet`, `WeakMap`, `Date`, `Set` or `Map` without arguments, or with one that makes it
/// do nothing but make an object: null or undefined, for the weak ones an empty array too, for
/// `Date` anything but an object or a bigint, computed without side effects.
pub proof fn law_new(e: Expr<'_>, env: Env)
    requires
        e is New,
        !e->New_pure,
    ensures
        unused(e, env).expr == e,
        !unused(e, env).changed,
        unused(e, env).removed <==> {
            &&& *e->New_callee is Identifier
            &&& is_global(env.globals, e->New_callee->Identifier_0.reference_id)
            &&& {
                let name = e->New_callee->Identifier_0.name;
                let is_weak = name == "WeakSet"@ || name == "WeakMap"@;
                let is_collection = name == "Set"@ || name == "Map"@;
                if e->New_arguments.len() == 0 {
                    is_weak || is_collection || name == "Date"@
                } else {
                    e->New_arguments.len() == 1 && match e->New_arguments[0] {
                        Arg::Spread { .. } => false,
                        Arg::Expression(x) => {
                            ||| (is_weak || is_collection) && (x is Null || is_undefined(
                                x,
                                env.globals,
                            ))
                            ||| is_weak && x is Array && x->Array_elements.len() == 0
                            ||| name == "Date"@ && !has_effects(x, env) && match type_of(x, env) {
                                ValueType::Object
                                | ValueType::BigInt
                                | ValueType::Undetermined => false,
                                _ => true,
                            }
                        },
                    }
                }
            }
        },
{
    let o = unused(e, env);
}

/// What is surely undefined is the global of that name, or `void` of a number: it has that type,
/// and evaluating it does nothing.
pub proof fn law_undefined(e: Expr<'_>, env: Env)
    ensures
        is_undefined(e, env.globals) <==> match e {
            Expr::Identifier(i) => i.name == "undefined"@ && is_global(env.globals, i.reference_id),
            Expr::Unary { operator, argument, .. } => operator is Void && *argument is Other
                && shape_of(argument->Other_node) is Number,
            _ => false,
        },
        is_undefined(e, env.globals) ==> type_of(e, env) is Undefined && !has_effects(e, env),
{
    let shape = e.shape();
    match e {
        Expr::Unary { argument, .. } => {
            let inner = argument.shape();
            if is_undefined(e, env.globals) {
                assert(!has_effects(*argument, env));
            }
        },
        _ => {},
    }
}

/// A comparison leaves what its sides leave, one after the other.
pub proof fn law_comparison<'a>(
    span: Span,
    left: Expr<'a>,
    operator: BinaryOperator,
    right: Expr<'a>,
    env: Env,
)
    requires
        ({
            ||| operator is Equality
            ||| operator is Inequality
            ||| operator is StrictEquality
            ||| operator is StrictInequality
            ||| operator is LessThan
            ||| operator is LessEqualThan
            ||| operator is GreaterThan
            ||| operator is GreaterEqualThan
        }),
    ensures
        ({
            let e = Expr::Binary { span, left: Box::new(left), operator, right: Box::new(right) };
            let l = unused(left, env);
            let r = unused(right, env);
            unused(e, env) == match (l.removed, r.removed) {
                (true, true) => Outcome {
                    expr: Expr::Binary {
                        span,
                        left: Box::new(l.expr),
                        operator,
                        right: Box::new(r.expr),
                    },
                    removed: true,
                    changed: l.changed || r.changed,
                },
                (true, false) => Outcome { expr: r.expr, removed: false, changed: true },
                (false, true) => Outcome { expr: l.expr, removed: false, changed: true },
                (false, false) => Outcome {
                    expr: Expr::Sequence { span, expressions: seq![l.expr, r.expr] },
                    removed: false,
                    changed: true,
                },
            }
        }),
{
    let e = Expr::Binary { span, left: Box::new(left), operator, right: Box::new(right) };
    let o = unused(e, env);
    let c = unused_comparison(span, left, operator, right, env);
}

/// Of a chain of `+` that begins with a string, what is added to it goes where it is added and
/// evaluated without side effects, and the string itself is blanked where it is evaluated without.
/// So is a string that is added to something else.
pub proof fn law_sum_by_parts<'a>(span: Span, left: Expr<'a>, right: Expr<'a>, env: Env)
    ensures
        ({
            let plus = |l: Expr<'a>, r: Expr<'a>|
                Expr::Binary {
                    span,
                    left: Box::new(l),
                    operator: BinaryOperator::Addition,
                    right: Box::new(r),
                };
            let is_blank = |x: Expr<'a>| x is Str && x->Str_value.len() == 0;
            let blank = |x: Expr<'a>|
                Expr::Str { span: x.span(), value: seq![], raw: None, lossy: false };
            let is_sum = left is Binary && left->Binary_operator is Addition;
            let l = if is_sum {
                unused(left, env)
            } else {
                Outcome { expr: left, removed: false, changed: false }
            };
            let keeps_left = is_blank(l.expr) || has_effects(l.expr, env);
            let first = if keeps_left {
                l.expr
            } else {
                blank(l.expr)
            };
            let keeps_right = is_blank(right) || has_effects(right, env);
            unused(plus(left, right), env) == if is_string(left, env) {
                if converts_to_string(right, env) && !has_effects(right, env) {
                    Outcome { expr: first, removed: first is Str, changed: true }
                } else {
                    Outcome {
                        expr: plus(first, right),
                        removed: false,
                        changed: l.changed || !keeps_left,
                    }
                }
            } else if is_string(right, env) && !keeps_right {
                Outcome { expr: plus(left, blank(right)), removed: false, changed: true }
            } else {
                Outcome { expr: plus(left, right), removed: false, changed: false }
            }
        }),
{
    let e = Expr::Binary {
        span,
        left: Box::new(left),
        operator: BinaryOperator::Addition,
        right: Box::new(right),
    };
    let o = unused(e, env);
    let sum = shortened_sum(e, env);
    let l = shortened_sum(left, env);
    let inner = unused(left, env);
}

/// `a ? b : c` leaves what is left of `b` and `c`, chosen by `a`: `a || c` where nothing is left of
/// `b`, `a && b` where nothing is left of `c`, and what is left of `a` where nothing is left of
/// both.
pub proof fn law_conditional<'a>(
    span: Span,
    test: Expr<'a>,
    consequent: Expr<'a>,
    alternate: Expr<'a>,
    env: Env,
)
    ensures
        ({
            let of = |t: Expr<'a>, c: Expr<'a>, a: Expr<'a>|
                Expr::Conditional {
                    span,
                    test: Box::new(t),
                    consequent: Box::new(c),
                    alternate: Box::new(a),
                };
            let t = unused(test, env);
            let c = unused(consequent, env);
            let a = unused(alternate, env);
            unused(of(test, consequent, alternate), env) == match (c.removed, a.removed) {
                (true, true) => if t.removed {
                    Outcome {
                        expr: of(t.expr, c.expr, a.expr),
                        removed: true,
                        changed: t.changed || c.changed || a.changed,
                    }
                } else {
                    Outcome { expr: t.expr, removed: false, changed: true }
                },
                (true, false) => Outcome {
                    expr: join(span, LogicalOperator::Or, test, a.expr),
                    removed: false,
                    changed: true,
                },
                (false, true) => Outcome {
                    expr: join(span, LogicalOperator::And, test, c.expr),
                    removed: false,
                    changed: true,
                },
                (false, false) => Outcome {
                    expr: of(test, c.expr, a.expr),
                    removed: false,
                    changed: c.changed || a.changed,
                },
            }
        }),
{
    let e = Expr::Conditional {
        span,
        test: Box::new(test),
        consequent: Box::new(consequent),
        alternate: Box::new(alternate),
    };
    let o = unused(e, env);
    let d = unused_conditional(span, test, consequent, alternate, env);
}

/// Joining by an operator that both sides use makes one chain that is associated to the left. Into
/// a comma expression it joins at the end.
pub proof fn law_join_by_parts<'a>(span: Span, op: LogicalOperator, a: Expr<'a>, b: Expr<'a>)
    ensures
        join(span, op, a, b) == match (a, b) {
            (Expr::Sequence { span: at, expressions: s }, _) if s.len() > 0 => Expr::Sequence {
                span: at,
                expressions: s.update(s.len() - 1, join(span, op, s[s.len() - 1], b)),
            },
            (_, Expr::Logical { left, operator, right, .. }) if operator == op => join(
                span,
                op,
                join(span, op, a, *left),
                *right,
            ),
            _ => Expr::Logical { span, left: Box::new(a), operator: op, right: Box::new(b) },
        },
{
    let j = join(span, op, a, b);
    match a {
        Expr::Sequence { expressions: s, .. } => {
            if s.len() > 0 {
                let last = join(span, op, s[s.len() - 1], b);
                assert(s.drop_last().push(last) =~= s.update(s.len() - 1, last));
            }
        },
        _ => {},
    }
}

/// Where only the truth of a value is used, `!!x` is `x`, and `&&`, `||` and `?:` use only the
/// truth of what they may give. Nothing else changes.
pub proof fn law_boolean_context_by_parts(e: Expr<'_>)
    ensures
        ({
            let f = boolean_context(e);
            match e {
                Expr::Unary { operator, argument, .. } => if operator is LogicalNot && *argument
                    is Unary && argument->Unary_operator is LogicalNot {
                    f.folded && f.expr == boolean_context(*argument->Unary_argument).expr
                } else {
                    !f.folded && f.expr == e
                },
                Expr::Logical { span, left, operator, right } => if operator is And || operator
                    is Or {
                    let l = boolean_context(*left);
                    let r = boolean_context(*right);
                    f.folded == (l.folded || r.folded) && f.expr == (Expr::Logical {
                        span,
                        left: Box::new(l.expr),
                        operator,
                        right: Box::new(r.expr),
                    })
                } else {
                    !f.folded && f.expr == e
                },
                Expr::Conditional { span, test, consequent, alternate } => {
                    let c = boolean_context(*consequent);
                    let a = boolean_context(*alternate);
                    f.folded == (c.folded || a.folded) && f.expr == (Expr::Conditional {
                        span,
                        test,
                        consequent: Box::new(c.expr),
                        alternate: Box::new(a.expr),
                    })
                },
                _ => !f.folded && f.expr == e,
            }
        }),
{
    let f = boolean_context(e);
}

/// A logical operation leaves what its left side leaves where nothing is left of the right side.
/// Elsewhere it stays, with what is left of the right side; but `a != null && a.b` and `a == null
/// || a.b`, also with `null` on the left, become `a?.b` where the program declares `a` and the
/// target has `?.`. Of the left side of `&&` and `||` only the truth is used.
pub proof fn law_logical<'a>(
    span: Span,
    left: Expr<'a>,
    operator: LogicalOperator,
    right: Expr<'a>,
    env: Env,
)
    ensures
        ({
            let e = Expr::Logical { span, left: Box::new(left), operator, right: Box::new(right) };
            let r = unused(right, env);
            let l = if operator is Coalesce {
                left
            } else {
                boolean_context(left).expr
            };
            let has_chains = !(env.target is ES5 || env.target is ES2015 || env.target is ES2016
                || env.target is ES2017 || env.target is ES2018 || env.target is ES2019);
            let variable = match l {
                Expr::Binary { left: x, operator: test, right: y, .. } => if (operator is And
                    && test is Inequality) || (operator is Or && test is Equality) {
                    if *x is Identifier && *y is Null {
                        Some(*x)
                    } else if *x is Null && *y is Identifier {
                        Some(*y)
                    } else {
                        None
                    }
                } else {
                    None
                },
                _ => None,
            };
            let chain = if has_chains && variable is Some && !is_global(
                env.globals,
                variable->Some_0->Identifier_0.reference_id,
            ) {
                guarded(variable->Some_0->Identifier_0.name, variable->Some_0, r.expr)
            } else {
                None
            };
            unused(e, env) == if r.removed {
                Outcome { expr: unused(l, env).expr, removed: false, changed: true }
            } else if chain is Some {
                Outcome { expr: chain->Some_0, removed: false, changed: true }
            } else {
                Outcome {
                    expr: Expr::Logical {
                        span,
                        left: Box::new(l),
                        operator,
                        right: Box::new(r.expr),
                    },
                    removed: false,
                    changed: r.changed || (operator !is Coalesce && boolean_context(left).folded),
                }
            }
        }),
{
    let e = Expr::Logical { span, left: Box::new(left), operator, right: Box::new(right) };
    let o = unused(e, env);
    let d = unused_logical(span, left, operator, right, env);
}

/// Guarding a chain by a variable makes the link optional that stands right behind the variable of
/// that name, which the variable itself takes the place of. The links behind it stay as they are.
pub proof fn law_guarded_by_parts<'a>(name: Seq<char>, id: Expr<'a>, e: Expr<'a>)
    ensures
        ({
            let starts = |x: Expr<'a>| x is Identifier && x->Identifier_0.name == name;
            guarded_links(name, id, e) == match e {
                Expr::StaticMember { span, object, property_span, property, optional } => {
                    let inner = if starts(*object) {
                        Some(id)
                    } else {
                        guarded_links(name, id, *object)
                    };
                    match inner {
                        Some(x) => Some(
                            Expr::StaticMember {
                                span,
                                object: Box::new(x),
                                property_span,
                                property,
                                optional: optional || starts(*object),
                            },
                        ),
                        None => None,
                    }
                },
                Expr::ComputedMember { span, object, expression, optional } => {
                    let inner = if starts(*object) {
                        Some(id)
                    } else {
                        guarded_links(name, id, *object)
                    };
                    match inner {
                        Some(x) => Some(
                            Expr::ComputedMember {
                                span,
                                object: Box::new(x),
                                expression,
                                optional: optional || starts(*object),
                            },
                        ),
                        None => None,
                    }
                },
                Expr::Call { span, callee, arguments, optional, pure } => {
                    let inner = if starts(*callee) {
                        Some(id)
                    } else {
                        guarded_links(name, id, *callee)
                    };
                    match inner {
                        Some(x) => Some(
                            Expr::Call {
                                span,
                                callee: Box::new(x),
                                arguments,
                                optional: optional || starts(*callee),
                                pure,
                            },
                        ),
                        None => None,
                    }
                },
                _ => None,
            }
        }),
        ({
            let links = if e is Chain {
                *e->Chain_expression
            } else {
                e
            };
            guarded(name, id, e) == match guarded_links(name, id, links) {
                Some(x) => Some(Expr::Chain { span: e.span(), expression: Box::new(x) }),
                None => None,
            }
        }),
{
    let g = guarded_links(name, id, e);
}

/// The expressions that are left of the substitutions `s` of a template literal at `span`.
pub open spec fn left_of_substitutions<'a>(span: Span, s: Seq<Expr<'a>>, env: Env) -> Seq<
    Expr<'a>,
> {
    let kept = kept_substitutions(s, env);
    with_template(span, kept.exprs, kept.pending)
}

/// Whether a substitution of a template literal is left as an expression of its own: its value need
/// not be converted to a string, but something of it has to be evaluated.
pub open spec fn stands_alone(x: Expr<'_>, env: Env) -> bool {
    converts_to_string(x, env) && !unused(x, env).removed
}

/// A template literal leaves what its substitutions leave. It stays as it is where each of them has
/// to be converted to a string and no text is in it.
pub proof fn law_template<'a>(span: Span, quasis: Seq<Quasi>, s: Seq<Expr<'a>>, env: Env)
    ensures
        ({
            let e = Expr::Template { span, quasis, expressions: s };
            let left = left_of_substitutions(span, s, env);
            unused(e, env) == if s.len() == 0 {
                Outcome { expr: e, removed: true, changed: false }
            } else if (forall|i: int|
                0 <= i < s.len() ==> !converts_to_string(#[trigger] s[i], env)) && (forall|i: int|
                0 <= i < quasis.len() ==> (#[trigger] quasis[i]).raw.len() == 0) {
                Outcome { expr: e, removed: false, changed: false }
            } else {
                Outcome {
                    expr: if left.len() == 0 {
                        Expr::Template { span, quasis, expressions: seq![] }
                    } else if left.len() == 1 {
                        left[0]
                    } else {
                        Expr::Sequence { span, expressions: left }
                    },
                    removed: left.len() == 0,
                    changed: left.len() > 0 || exists|i: int|
                        0 <= i < s.len() && converts_to_string(#[trigger] s[i], env) && unused(
                            s[i],
                            env,
                        ).changed,
                }
            }
        }),
{
    let e = Expr::Template { span, quasis, expressions: s };
    let o = unused(e, env);
    let t = unused_template(span, quasis, s, env);
    lemma_substitutions_changed(s, env);
}

proof fn lemma_substitutions_changed(s: Seq<Expr<'_>>, env: Env)
    ensures
        kept_substitutions(s, env).changed == exists|i: int|
            0 <= i < s.len() && converts_to_string(#[trigger] s[i], env) && unused(
                s[i],
                env,
            ).changed,
    decreases s.len(),
{
    if s.len() > 0 {
        let init = s.drop_last();
        lemma_substitutions_changed(init, env);
        let all = kept_substitutions(s, env);
        assert(s[s.len() - 1] == s.last());
        if kept_substitutions(init, env).changed {
            let i = choose|i: int|
                0 <= i < init.len() && converts_to_string(#[trigger] init[i], env) && unused(
                    init[i],
                    env,
                ).changed;
            assert(s[i] == init[i]);
        }
        assert forall|i: int|
            0 <= i < s.len() && converts_to_string(#[trigger] s[i], env) && unused(
                s[i],
                env,
            ).changed implies all.changed by {
            if i < init.len() {
                assert(init[i] == s[i]);
            }
        }
    }
}

/// Of substitutions none of which stands alone, those that have to be converted to a string are
/// left, in one template literal without text. Where there are none, nothing is left.
pub proof fn law_converted_substitutions<'a>(span: Span, s: Seq<Expr<'a>>, env: Env)
    requires
        forall|i: int| 0 <= i < s.len() ==> !stands_alone(#[trigger] s[i], env),
    ensures
        ({
            let converted = s.filter_map(
                |x: Expr<'a>|
                    if converts_to_string(x, env) {
                        None
                    } else {
                        Some(x)
                    },
            );
            let n = converted.len();
            left_of_substitutions(span, s, env) == if n == 0 {
                seq![]
            } else {
                seq![
                    Expr::Template {
                        span,
                        quasis: Seq::new(
                            n + 1,
                            |i: int|
                                Quasi { span, raw: seq![], cooked: Some(seq![]), tail: i == n },
                        ),
                        expressions: converted,
                    },
                ]
            }
        }),
{
    let f = |x: Expr<'a>|
        if converts_to_string(x, env) {
            None
        } else {
            Some(x)
        };
    let converted = s.filter_map(f);
    let n = converted.len();
    lemma_converted_substitutions(s, env);
    let kept = kept_substitutions(s, env);
    assert(bare_template(span, converted)->Template_quasis =~= Seq::new(
        n + 1,
        |i: int| Quasi { span, raw: seq![], cooked: Some(seq![]), tail: i == n },
    ));
    assert(left_of_substitutions(span, s, env) =~= if n == 0 {
        seq![]
    } else {
        seq![bare_template(span, converted)]
    });
}

proof fn lemma_converted_substitutions<'a>(s: Seq<Expr<'a>>, env: Env)
    requires
        forall|i: int| 0 <= i < s.len() ==> !stands_alone(#[trigger] s[i], env),
    ensures
        kept_substitutions(s, env).exprs.len() == 0,
        kept_substitutions(s, env).pending == s.filter_map(
            |x: Expr<'a>|
                if converts_to_string(x, env) {
                    None
                } else {
                    Some(x)
                },
        ),
    decreases s.len(),
{
    let f = |x: Expr<'a>|
        if converts_to_string(x, env) {
            None
        } else {
            Some(x)
        };
    if s.len() == 0 {
        assert(kept_substitutions(s, env).pending =~= s.filter_map(f));
    } else {
        let init = s.drop_last();
        assert forall|i: int| 0 <= i < init.len() implies !stands_alone(
            #[trigger] init[i],
            env,
        ) by {
            assert(init[i] == s[i]);
        }
        lemma_converted_substitutions(init, env);
        assert(s[s.len() - 1] == s.last());
        assert(!stands_alone(s.last(), env));
        assert(kept_substitutions(s, env).pending =~= s.filter_map(f));
    }
}

/// A substitution that stands alone is left between what is left of those before it and of those
/// behind it. A template literal before it has its position.
pub proof fn law_split_substitutions<'a>(span: Span, s: Seq<Expr<'a>>, i: int, env: Env)
    requires
        0 <= i < s.len(),
        stands_alone(s[i], env),
    ensures
        ({
            let x = unused(s[i], env).expr;
            left_of_substitutions(span, s, env) == left_of_substitutions(
                x.span(),
                s.take(i),
                env,
            ).push(x) + left_of_substitutions(span, s.skip(i + 1), env)
        }),
{
    let x = unused(s[i], env).expr;
    let before = left_of_substitutions(x.span(), s.take(i), env).push(x);
    lemma_split_substitutions(s, i, env);
    let behind = kept_substitutions(s.skip(i + 1), env);
    assert(with_template(span, before + behind.exprs, behind.pending) =~= before + with_template(
        span,
        behind.exprs,
        behind.pending,
    ));
}

proof fn lemma_split_substitutions<'a>(s: Seq<Expr<'a>>, i: int, env: Env)
    requires
        0 <= i < s.len(),
        stands_alone(s[i], env),
    ensures
        ({
            let x = unused(s[i], env).expr;
            let behind = kept_substitutions(s.skip(i + 1), env);
            &&& kept_substitutions(s, env).exprs == left_of_substitutions(
                x.span(),
                s.take(i),
                env,
            ).push(x) + behind.exprs
            &&& kept_substitutions(s, env).pending == behind.pending
        }),
    decreases s.len(),
{
    let x = unused(s[i], env).expr;
    let before = left_of_substitutions(x.span(), s.take(i), env).push(x);
    let all = kept_substitutions(s, env);
    let init = s.drop_last();
    if i == s.len() - 1 {
        assert(s.take(i) =~= init);
        assert(s.skip(i + 1) =~= seq![]);
        let none = kept_substitutions(Seq::<Expr<'a>>::empty(), env);
        assert(before + none.exprs =~= before);
        assert(s.last() == s[i]);
    } else {
        lemma_split_substitutions(init, i, env);
        assert(init.take(i) =~= s.take(i));
        let rest = s.skip(i + 1);
        assert(init.skip(i + 1) =~= rest.drop_last());
        assert(rest.last() == s.last());
        let behind = kept_substitutions(rest, env);
        let b = kept_substitutions(rest.drop_last(), env);
        let y = unused(s.last(), env).expr;
        assert(with_template(y.span(), before + b.exprs, b.pending) =~= before + with_template(
            y.span(),
            b.exprs,
            b.pending,
        ));
        assert(all.exprs =~= before + behind.exprs);
    }
}

/// A substitution that has to be converted to a string is left in a template literal, as it is.
pub proof fn law_conversions_stay<'a>(span: Span, s: Seq<Expr<'a>>, k: int, env: Env)
    requires
        0 <= k < s.len(),
        !converts_to_string(s[k], env),
    ensures
        exists|j: int|
            0 <= j < left_of_substitutions(span, s, env).len() && (
            #[trigger] left_of_substitutions(span, s, env)[j] is Template) && left_of_substitutions(
                span,
                s,
                env,
            )[j]->Template_expressions.contains(s[k]),
{
    lemma_conversions_stay(s, k, env);
    let kept = kept_substitutions(s, env);
    let left = left_of_substitutions(span, s, env);
    if kept.pending.contains(s[k]) {
        assert(left[left.len() - 1] == bare_template(span, kept.pending));
    } else {
        let j = choose|j: int|
            0 <= j < kept.exprs.len() && (#[trigger] kept.exprs[j] is Template)
                && kept.exprs[j]->Template_expressions.contains(s[k]);
        assert(left[j] == kept.exprs[j]);
    }
}

proof fn lemma_conversions_stay<'a>(s: Seq<Expr<'a>>, k: int, env: Env)
    requires
        0 <= k < s.len(),
        !converts_to_string(s[k], env),
    ensures
        kept_substitutions(s, env).pending.contains(s[k]) || exists|j: int|
            0 <= j < kept_substitutions(s, env).exprs.len() && (#[trigger] kept_substitutions(
                s,
                env,
            ).exprs[j] is Template) && kept_substitutions(
                s,
                env,
            ).exprs[j]->Template_expressions.contains(s[k]),
    decreases s.len(),
{
    let all = kept_substitutions(s, env);
    let init = kept_substitutions(s.drop_last(), env);
    if k == s.len() - 1 {
        assert(all.pending[init.pending.len() as int] == s[k]);
    } else {
        lemma_conversions_stay(s.drop_last(), k, env);
        assert(s.drop_last()[k] == s[k]);
        if init.pending.contains(s[k]) {
            let i = choose|i: int| 0 <= i < init.pending.len() && init.pending[i] == s[k];
            if all.pending.len() >= init.pending.len() && all.pending.len() > 0 {
                assert(all.pending[i] == s[k]);
            } else {
                let at = unused(s.last(), env).expr.span();
                let template = bare_template(at, init.pending);
                assert(all.exprs[init.exprs.len() as int] == template);
                assert(template->Template_expressions.contains(s[k]));
            }
        } else {
            let j = choose|j: int|
                0 <= j < init.exprs.len() && (#[trigger] init.exprs[j] is Template)
                    && init.exprs[j]->Template_expressions.contains(s[k]);
            assert(all.exprs[j] == init.exprs[j]);
        }
    }
}

/// The expressions that are left of the properties `s` of an object literal at `span`.
pub open spec fn left_of_properties<'a>(span: Span, s: Seq<Prop<'a>>, env: Env) -> Seq<Expr<'a>> {
    let kept = kept_properties(s, env);
    with_object(span, kept.exprs, kept.pending)
}

/// An object literal leaves what its properties leave. It stays as it is where it only spreads.
pub proof fn law_object<'a>(span: Span, s: Seq<Prop<'a>>, trailing_comma: Option<Span>, env: Env)
    ensures
        ({
            let e = Expr::Object { span, properties: s, trailing_comma };
            let left = left_of_properties(span, s, env);
            unused(e, env) == if s.len() == 0 {
                Outcome { expr: e, removed: true, changed: false }
            } else if forall|i: int| 0 <= i < s.len() ==> #[trigger] s[i] is Spread {
                Outcome { expr: e, removed: false, changed: false }
            } else {
                Outcome {
                    expr: if left.len() == 0 {
                        Expr::Object { span, properties: seq![], trailing_comma }
                    } else if left.len() == 1 {
                        left[0]
                    } else {
                        Expr::Sequence { span, expressions: left }
                    },
                    removed: left.len() == 0,
                    changed: left.len() > 0 || exists|i: int|
                        0 <= i < s.len() && match #[trigger] s[i] {
                            Prop::Property { key: Key::Expression(x), value, .. } => unused(
                                x,
                                env,
                            ).changed || unused(value, env).changed,
                            Prop::Property { value, .. } => unused(value, env).changed,
                            Prop::Spread { .. } => false,
                        },
                }
            }
        }),
{
    let e = Expr::Object { span, properties: s, trailing_comma };
    let o = unused(e, env);
    let t = unused_object(span, s, trailing_comma, env);
    lemma_properties_changed(s, env);
}

proof fn lemma_properties_changed(s: Seq<Prop<'_>>, env: Env)
    ensures
        kept_properties(s, env).changed == exists|i: int|
            0 <= i < s.len() && match #[trigger] s[i] {
                Prop::Property { key: Key::Expression(x), value, .. } => unused(x, env).changed
                    || unused(value, env).changed,
                Prop::Property { value, .. } => unused(value, env).changed,
                Prop::Spread { .. } => false,
            },
    decreases s.len(),
{
    if s.len() > 0 {
        let init = s.drop_last();
        lemma_properties_changed(init, env);
        let all = kept_properties(s, env);
        let i0 = kept_properties(init, env);
        assert(s[s.len() - 1] == s.last());
        match s.last() {
            Prop::Property { span, key, value, .. } => {
                let k = kept_key(with_object(span, i0.exprs, i0.pending), key, env);
            },
            _ => {},
        }
        if i0.changed {
            let i = choose|i: int|
                0 <= i < init.len() && match #[trigger] init[i] {
                    Prop::Property { key: Key::Expression(x), value, .. } => unused(x, env).changed
                        || unused(value, env).changed,
                    Prop::Property { value, .. } => unused(value, env).changed,
                    Prop::Spread { .. } => false,
                };
            assert(s[i] == init[i]);
        }
        assert forall|i: int|
            0 <= i < s.len() && match #[trigger] s[i] {
                Prop::Property { key: Key::Expression(x), value, .. } => unused(x, env).changed
                    || unused(value, env).changed,
                Prop::Property { value, .. } => unused(value, env).changed,
                Prop::Spread { .. } => false,
            } implies all.changed by {
            if i < init.len() {
                assert(init[i] == s[i]);
            }
        }
    }
}

/// Spreads alone are left in one object literal.
pub proof fn law_spread_properties<'a>(span: Span, s: Seq<Prop<'a>>, env: Env)
    requires
        forall|i: int| 0 <= i < s.len() ==> #[trigger] s[i] is Spread,
    ensures
        left_of_properties(span, s, env) == if s.len() == 0 {
            seq![]
        } else {
            seq![Expr::Object { span, properties: s, trailing_comma: None }]
        },
{
    lemma_spread_properties(s, env);
    assert(left_of_properties(span, s, env) =~= if s.len() == 0 {
        seq![]
    } else {
        seq![Expr::Object { span, properties: s, trailing_comma: None }]
    });
}

proof fn lemma_spread_properties<'a>(s: Seq<Prop<'a>>, env: Env)
    requires
        forall|i: int| 0 <= i < s.len() ==> #[trigger] s[i] is Spread,
    ensures
        kept_properties(s, env).exprs.len() == 0,
        kept_properties(s, env).pending == s,
    decreases s.len(),
{
    if s.len() == 0 {
        assert(kept_properties(s, env).pending =~= s);
    } else {
        let init = s.drop_last();
        assert forall|i: int| 0 <= i < init.len() implies #[trigger] init[i] is Spread by {
            assert(init[i] == s[i]);
        }
        lemma_spread_properties(init, env);
        assert(s[s.len() - 1] is Spread);
        assert(kept_properties(s, env).pending =~= s);
    }
}

/// A property that is no spread leaves what is left of its key, where that is an expression, and
/// then of its value: between what is left of the properties before it and of those behind it. An
/// object literal before it has its position.
pub proof fn law_split_properties<'a>(span: Span, s: Seq<Prop<'a>>, i: int, env: Env)
    requires
        0 <= i < s.len(),
        s[i] is Property,
    ensures
        ({
            let left = |x: Expr<'a>|
                if unused(x, env).removed {
                    Seq::<Expr<'a>>::empty()
                } else {
                    seq![unused(x, env).expr]
                };
            let key = match s[i]->Property_key {
                Key::Expression(x) => left(x),
                _ => Seq::<Expr<'a>>::empty(),
            };
            left_of_properties(span, s, env) == left_of_properties(
                s[i]->Property_span,
                s.take(i),
                env,
            ) + key + left(s[i]->Property_value) + left_of_properties(span, s.skip(i + 1), env)
        }),
{
    let before = left_through(s, i, env);
    lemma_split_properties(s, i, env);
    let behind = kept_properties(s.skip(i + 1), env);
    assert(with_object(span, before + behind.exprs, behind.pending) =~= before + with_object(
        span,
        behind.exprs,
        behind.pending,
    ));
}

/// What is left of the properties up to the one at `i`, which is no spread.
spec fn left_through<'a>(s: Seq<Prop<'a>>, i: int, env: Env) -> Seq<Expr<'a>> {
    let left = |x: Expr<'a>|
        if unused(x, env).removed {
            Seq::<Expr<'a>>::empty()
        } else {
            seq![unused(x, env).expr]
        };
    let key = match s[i]->Property_key {
        Key::Expression(x) => left(x),
        _ => Seq::<Expr<'a>>::empty(),
    };
    left_of_properties(s[i]->Property_span, s.take(i), env) + key + left(s[i]->Property_value)
}

proof fn lemma_split_properties<'a>(s: Seq<Prop<'a>>, i: int, env: Env)
    requires
        0 <= i < s.len(),
        s[i] is Property,
    ensures
        ({
            let behind = kept_properties(s.skip(i + 1), env);
            &&& kept_properties(s, env).exprs == left_through(s, i, env) + behind.exprs
            &&& kept_properties(s, env).pending == behind.pending
        }),
    decreases s.len(),
{
    let before = left_through(s, i, env);
    let all = kept_properties(s, env);
    let init = s.drop_last();
    if i == s.len() - 1 {
        assert(s.take(i) =~= init);
        assert(s.skip(i + 1) =~= seq![]);
        let none = kept_properties(Seq::<Prop<'a>>::empty(), env);
        assert(s.last() == s[i]);
        let i0 = kept_properties(init, env);
        let k = kept_key(
            with_object(s[i]->Property_span, i0.exprs, i0.pending),
            s[i]->Property_key,
            env,
        );
        assert(all.exprs =~= before + none.exprs);
    } else {
        lemma_split_properties(init, i, env);
        assert(init.take(i) =~= s.take(i));
        assert(left_through(init, i, env) == before);
        let rest = s.skip(i + 1);
        assert(init.skip(i + 1) =~= rest.drop_last());
        assert(rest.last() == s.last());
        let behind = kept_properties(rest, env);
        let b = kept_properties(rest.drop_last(), env);
        match s.last() {
            Prop::Property { span, key, value, .. } => {
                let w = with_object(span, b.exprs, b.pending);
                assert(with_object(span, before + b.exprs, b.pending) =~= before + w);
                let k = kept_key(w, key, env);
                let k2 = kept_key(before + w, key, env);
                assert(k2.exprs =~= before + k.exprs);
            },
            Prop::Spread { .. } => {},
        }
        assert(all.exprs =~= before + behind.exprs);
    }
}

/// The position of an expression is the one that it was made with.
pub proof fn law_span(e: Expr<'_>)
    ensures
        e.span() == match e {
            Expr::Identifier(i) => i.span,
            Expr::Null { span, .. } => span,
            Expr::Str { span, .. } => span,
            Expr::Template { span, .. } => span,
            Expr::Array { span, .. } => span,
            Expr::Object { span, .. } => span,
            Expr::Unary { span, .. } => span,
            Expr::Binary { span, .. } => span,
            Expr::Logical { span, .. } => span,
            Expr::Conditional { span, .. } => span,
            Expr::Sequence { span, .. } => span,
            Expr::Call { span, .. } => span,
            Expr::New { span, .. } => span,
            Expr::StaticMember { span, .. } => span,
            Expr::ComputedMember { span, .. } => span,
            Expr::Chain { span, .. } => span,
            Expr::Function { span, .. } => span,
            Expr::Arrow { span, .. } => span,
            Expr::Parenthesized { span, .. } => span,
            Expr::Class { span, .. } => span,
            Expr::Other { span, .. } => span,
        },
{
}

/// The outcome depends on the references that the context holds and on the target of the pass, and
/// a rewriting once recorded stays recorded.
pub proof fn law_pass(pass: PeepholeOptimizations, ctx: Ctx, o: Outcome<'_>)
    ensures
        pass.env(ctx).globals == ctx.globals@,
        pass.env(ctx).target == pass.target,
        pass.after(o).target == pass.target,
        pass.after(o).changed == (pass.changed || o.changed),
{
}

} // verus!
