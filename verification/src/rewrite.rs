//! What becomes of an expression of which the value is not used.
use crate::analysis::{
    is_comparison, may_have_side_effects, primitive_is_string, primitive_is_symbol,
    spread_may_have_side_effects, value_type,
};
use crate::ast::{Arg, Body, Element, Expr, Key, Prop, Quasi, Span, Stmt};
use crate::boolean_context::{boolean_context, lemma_boolean_context_size, Folded};
use crate::ctx::{is_global, is_undefined};
use crate::join::join;
use crate::measure::{
    arguments_size, elements_size, expressions_size, properties_size, statements_size,
};
use crate::optional_chain::guarded;
use oxc_ecmascript::constant_evaluation::ValueType;
use oxc_syntax::es_target::ESTarget;
use oxc_syntax::operator::{BinaryOperator, LogicalOperator, UnaryOperator};
use oxc_syntax::reference::ReferenceId;
use vstd::prelude::*;

verus! {

#[verifier::external_type_specification]
pub struct ExESTarget(ESTarget);

/// What the outcome depends on besides the expression.
pub struct Env {
    /// The references that resolve to no declaration of the program.
    pub globals: Seq<ReferenceId>,
    /// The version of the language that the result is written in.
    pub target: ESTarget,
}

/// What becomes of an unused expression.
pub struct Outcome<'a> {
    /// The expression in its place.
    pub expr: Expr<'a>,
    /// Whether nothing of it is needed, not even `expr`.
    pub removed: bool,
    /// Whether the rewriting is recorded.
    pub changed: bool,
}

/// The expressions that are left of a list, and whether the rewriting is recorded.
pub struct Kept<'a> {
    pub exprs: Seq<Expr<'a>>,
    pub changed: bool,
}

/// The array elements that are left of a list, and whether the rewriting is recorded.
pub struct KeptElements<'a> {
    pub elements: Seq<Element<'a>>,
    pub changed: bool,
}

/// Expressions that are left of a list, with substitutions of a template literal that are still
/// to follow them in a template literal of their own.
pub struct KeptSubstitutions<'a> {
    pub exprs: Seq<Expr<'a>>,
    pub pending: Seq<Expr<'a>>,
    pub changed: bool,
}

/// Expressions that are left of a list, with spread properties that are still to follow them in
/// an object literal of their own.
pub struct KeptProperties<'a> {
    pub exprs: Seq<Expr<'a>>,
    pub pending: Seq<Prop<'a>>,
    pub changed: bool,
}

/// The result of shortening a chain of `+`.
pub struct Sum<'a> {
    pub expr: Expr<'a>,
    pub changed: bool,
}

pub open spec fn has_effects(e: Expr<'_>, env: Env) -> bool {
    may_have_side_effects(e.shape(), env.globals)
}

pub open spec fn spread_has_effects(e: Expr<'_>, env: Env) -> bool {
    spread_may_have_side_effects(e.shape(), env.globals)
}

/// Whether converting the value of `e` to a string surely throws no error.
pub open spec fn converts_to_string(e: Expr<'_>, env: Env) -> bool {
    primitive_is_symbol(e.shape(), env.globals) == Some(false)
}

/// Whether the primitive of the value of `e` is surely a string.
pub open spec fn is_string(e: Expr<'_>, env: Env) -> bool {
    primitive_is_string(e.shape(), env.globals) == Some(true)
}

pub open spec fn untouched(e: Expr<'_>) -> Outcome<'_> {
    Outcome { expr: e, removed: false, changed: false }
}

pub open spec fn recorded(o: Outcome<'_>) -> Outcome<'_> {
    Outcome { expr: o.expr, removed: o.removed, changed: true }
}

/// The expressions one after the other: a comma expression unless there is only one.
pub open spec fn in_order<'a>(span: Span, exprs: Seq<Expr<'a>>) -> Expr<'a> {
    if exprs.len() == 1 {
        exprs[0]
    } else {
        Expr::Sequence { span, expressions: exprs }
    }
}

/// What becomes of `whole` when `exprs` are what is left of it: `whole` is replaced by them, or,
/// where there are none, by `rest`, which is not needed.
pub open spec fn reduced<'a>(
    span: Span,
    exprs: Seq<Expr<'a>>,
    changed: bool,
    rest: Expr<'a>,
) -> Outcome<'a> {
    if exprs.len() == 0 {
        Outcome { expr: rest, removed: true, changed }
    } else {
        Outcome { expr: in_order(span, exprs), removed: false, changed: true }
    }
}

/// An empty string of a template literal.
pub open spec fn empty_quasi(span: Span, tail: bool) -> Quasi {
    Quasi { span, raw: seq![], cooked: Some(seq![]), tail }
}

/// A template literal of `exprs` alone, with empty strings between them.
pub open spec fn bare_template<'a>(span: Span, exprs: Seq<Expr<'a>>) -> Expr<'a> {
    Expr::Template {
        span,
        quasis: Seq::new(exprs.len() + 1, |i: int| empty_quasi(span, i == exprs.len())),
        expressions: exprs,
    }
}

/// An empty string literal.
pub open spec fn empty_string<'a>(span: Span) -> Expr<'a> {
    Expr::Str { span, value: seq![], raw: None, lossy: false }
}

pub open spec fn is_empty_string(e: Expr<'_>) -> bool {
    match e {
        Expr::Str { value, .. } => value.len() == 0,
        _ => false,
    }
}

pub open spec fn has_spread(elements: Seq<Element<'_>>) -> bool {
    exists|i: int| 0 <= i < elements.len() && #[trigger] elements[i] is Spread
}

pub open spec fn all_spread(properties: Seq<Prop<'_>>) -> bool {
    forall|i: int| 0 <= i < properties.len() ==> #[trigger] properties[i] is Spread
}

/// The expressions of elements that are all expressions.
pub open spec fn element_expressions<'a>(elements: Seq<Element<'a>>) -> Seq<Expr<'a>> {
    Seq::new(elements.len(), |i: int| elements[i]->Expression_0)
}

/// Whether a template literal is already as short as it gets: every substitution has to be
/// converted to a string, and no text stands between them.
pub open spec fn is_bare_template(quasis: Seq<Quasi>, exprs: Seq<Expr<'_>>, env: Env) -> bool {
    &&& forall|i: int| 0 <= i < exprs.len() ==> !converts_to_string(#[trigger] exprs[i], env)
    &&& forall|i: int| 0 <= i < quasis.len() ==> (#[trigger] quasis[i]).raw.len() == 0
}

/// Whether `e` is the literal `null` or surely `undefined`.
pub open spec fn is_nullish(e: Expr<'_>, env: Env) -> bool {
    e is Null || is_undefined(e, env.globals)
}

/// Whether `new callee(arguments)` is a call of a built-in constructor that does nothing but make
/// an object.
pub open spec fn constructs_only(callee: Expr<'_>, arguments: Seq<Arg<'_>>, env: Env) -> bool {
    match callee {
        Expr::Identifier(i) => is_global(env.globals, i.reference_id) && {
            ||| arguments.len() == 0 && (i.name == "WeakSet"@ || i.name == "WeakMap"@ || i.name
                == "Date"@ || i.name == "Set"@ || i.name == "Map"@)
            ||| arguments.len() == 1 && match arguments[0] {
                Arg::Expression(e) => {
                    ||| (i.name == "WeakSet"@ || i.name == "WeakMap"@) && (is_nullish(e, env) || (
                    e is Array && e->Array_elements.len() == 0))
                    ||| i.name == "Date"@ && is_plain_value(e, env)
                    ||| (i.name == "Set"@ || i.name == "Map"@) && is_nullish(e, env)
                },
                Arg::Spread { .. } => false,
            }
        },
        _ => false,
    }
}

/// Whether `e` is a null, undefined, boolean, number or string, computed without side effects.
pub open spec fn is_plain_value(e: Expr<'_>, env: Env) -> bool {
    is_plain(value_type(e.shape(), env.globals), has_effects(e, env))
}

/// Whether a value of that type, computed with or without side effects, is a null, undefined,
/// boolean, number or string that is computed without.
pub open spec fn is_plain(ty: ValueType, effects: bool) -> bool {
    !effects && match ty {
        ValueType::Null
        | ValueType::Undefined
        | ValueType::Boolean
        | ValueType::Number
        | ValueType::String => true,
        _ => false,
    }
}

/// Whether `callee` is a function without parameters, but for a rest parameter, and with an empty
/// body.
pub open spec fn is_empty_function(callee: Expr<'_>) -> bool {
    match callee {
        Expr::Function { params, body: Some(body), .. } => params.items == 0 && body.directives
            == 0 && body.statements == 0,
        Expr::Arrow { params, body: Body::Block { directives, statements }, .. } => params.items
            == 0 && directives.len() == 0 && statements.len() == 0,
        _ => false,
    }
}

/// Whether the language has the operator `?.`.
pub open spec fn has_optional_chaining(target: ESTarget) -> bool {
    match target {
        ESTarget::ES5
        | ESTarget::ES2015
        | ESTarget::ES2016
        | ESTarget::ES2017
        | ESTarget::ES2018
        | ESTarget::ES2019 => false,
        _ => true,
    }
}

/// The declared variable that `test op ..` lets through only where it is not nullish: `a` of
/// `a != null && ..`, `null != a && ..`, `a == null || ..` and `null == a || ..`.
pub open spec fn tested_variable<'a>(test: Expr<'a>, op: LogicalOperator, env: Env) -> Option<
    Expr<'a>,
> {
    match test {
        Expr::Binary { left, operator, right, .. } => if (op is And && operator is Inequality) || (
        op is Or && operator is Equality) {
            match (*left, *right) {
                (Expr::Identifier(i), r) => if !is_global(env.globals, i.reference_id)
                    && r is Null {
                    Some(*left)
                } else {
                    None
                },
                (l, Expr::Identifier(i)) => if !is_global(env.globals, i.reference_id)
                    && l is Null {
                    Some(*right)
                } else {
                    None
                },
                _ => None,
            }
        } else {
            None
        },
        _ => None,
    }
}

/// `test op e` as an optional chain: `a?.b()` for `a != null && a.b()`.
pub open spec fn as_optional_chain<'a>(
    test: Expr<'a>,
    op: LogicalOperator,
    e: Expr<'a>,
    env: Env,
) -> Option<Expr<'a>> {
    match tested_variable(test, op, env) {
        Some(id) => if has_optional_chaining(env.target) {
            guarded(id->Identifier_0.name, id, e)
        } else {
            None
        },
        None => None,
    }
}

/// What becomes of the unused expression `e` where `applies`; elsewhere it stays as it is.
pub open spec fn unused_if<'a>(applies: bool, e: Expr<'a>, env: Env) -> Outcome<'a> {
    if applies {
        unused(e, env)
    } else {
        untouched(e)
    }
}

/// What becomes of the unused expression `e`.
pub open spec fn unused<'a>(e: Expr<'a>, env: Env) -> Outcome<'a>
    decreases e.size(), 1nat,
{
    match e {
        Expr::Array { span, elements, trailing_comma } => unused_array(
            span,
            elements,
            trailing_comma,
            env,
        ),
        Expr::Unary { operator, argument, .. } => match operator {
            UnaryOperator::Void | UnaryOperator::LogicalNot => recorded(unused(*argument, env)),
            UnaryOperator::Typeof => if *argument is Identifier {
                Outcome { expr: e, removed: true, changed: false }
            } else {
                recorded(unused(*argument, env))
            },
            _ => untouched(e),
        },
        Expr::New { span, callee, arguments, pure } => if pure {
            let kept = kept_arguments(arguments, env);
            reduced(
                span,
                kept.exprs,
                kept.changed,
                Expr::New { span, callee, arguments: seq![], pure },
            )
        } else {
            Outcome { expr: e, removed: constructs_only(*callee, arguments, env), changed: false }
        },
        Expr::Logical { span, left, operator, right } => unused_logical(
            span,
            *left,
            operator,
            *right,
            env,
        ),
        Expr::Sequence { span, expressions } => {
            let kept = kept(expressions, env);
            Outcome {
                expr: Expr::Sequence { span, expressions: kept.exprs },
                removed: kept.exprs.len() == 0,
                changed: kept.changed || kept.exprs.len() != expressions.len(),
            }
        },
        Expr::Template { span, quasis, expressions } => unused_template(
            span,
            quasis,
            expressions,
            env,
        ),
        Expr::Object { span, properties, trailing_comma } => unused_object(
            span,
            properties,
            trailing_comma,
            env,
        ),
        Expr::Conditional { span, test, consequent, alternate } => unused_conditional(
            span,
            *test,
            *consequent,
            *alternate,
            env,
        ),
        Expr::Binary { span, left, operator, right } => if is_comparison(operator) {
            unused_comparison(span, *left, operator, *right, env)
        } else if operator is Addition {
            let sum = shortened_sum(e, env);
            Outcome { expr: sum.expr, removed: sum.expr is Str, changed: sum.changed }
        } else {
            Outcome { expr: e, removed: !has_effects(e, env), changed: false }
        },
        Expr::Call { span, callee, arguments, optional, pure } => if pure {
            let kept = kept_arguments(arguments, env);
            reduced(
                span,
                kept.exprs,
                kept.changed,
                Expr::Call { span, callee, arguments: seq![], optional, pure },
            )
        } else if arguments.len() != 0 {
            untouched(e)
        } else if is_empty_function(*callee) {
            Outcome { expr: e, removed: true, changed: false }
        } else {
            unused_body(e, *callee, env)
        },
        _ => Outcome { expr: e, removed: !has_effects(e, env), changed: false },
    }
}

/// What becomes of the unused call `e` of the arrow function `callee` without arguments.
pub open spec fn unused_body<'a>(e: Expr<'a>, callee: Expr<'a>, env: Env) -> Outcome<'a>
    decreases callee.size(), 1nat,
{
    match callee {
        Expr::Arrow { is_async: false, body, .. } => match body {
            Body::Expression(x) => {
                proof {
                    assert(body.size() == x.size() + 1);
                }
                unused(*x, env)
            },
            Body::Block { statements, .. } => if statements.len() == 1 {
                proof {
                    assert(body.size() > statements_size(statements) > statements.last().size());
                }
                match statements[0] {
                    Stmt::Expression { expression, .. } => unused(expression, env),
                    Stmt::Return { argument: Some(argument), .. } => unused(argument, env),
                    Stmt::Return { argument: None, .. } => Outcome {
                        expr: e,
                        removed: true,
                        changed: false,
                    },
                    Stmt::Other(_) => untouched(e),
                }
            } else {
                untouched(e)
            },
        },
        _ => untouched(e),
    }
}

pub open spec fn unused_array<'a>(
    span: Span,
    elements: Seq<Element<'a>>,
    trailing_comma: Option<Span>,
    env: Env,
) -> Outcome<'a>
    decreases elements_size(elements) + 1, 0nat,
{
    let kept = kept_elements(elements, env);
    let changed = kept.changed || kept.elements.len() != elements.len();
    let rest = Expr::Array { span, elements: kept.elements, trailing_comma };
    if kept.elements.len() == 0 {
        Outcome { expr: rest, removed: true, changed }
    } else if has_spread(kept.elements) {
        Outcome { expr: rest, removed: false, changed }
    } else {
        Outcome {
            expr: in_order(span, element_expressions(kept.elements)),
            removed: false,
            changed,
        }
    }
}

/// The left side of a logical operation: where only its truth is used, that is all that it keeps.
pub open spec fn folded_left<'a>(left: Expr<'a>, operator: LogicalOperator) -> Folded<'a> {
    if operator is Coalesce {
        Folded { expr: left, folded: false }
    } else {
        boolean_context(left)
    }
}

pub open spec fn unused_logical<'a>(
    span: Span,
    left: Expr<'a>,
    operator: LogicalOperator,
    right: Expr<'a>,
    env: Env,
) -> Outcome<'a>
    decreases left.size() + right.size() + 1, 0nat,
{
    let l = folded_left(left, operator);
    let r = unused(right, env);
    proof {
        lemma_boolean_context_size(left);
    }
    if r.removed {
        Outcome { expr: unused(l.expr, env).expr, removed: false, changed: true }
    } else {
        match as_optional_chain(l.expr, operator, r.expr, env) {
            Some(chain) => Outcome { expr: chain, removed: false, changed: true },
            None => Outcome {
                expr: Expr::Logical {
                    span,
                    left: Box::new(l.expr),
                    operator,
                    right: Box::new(r.expr),
                },
                removed: false,
                changed: l.folded || r.changed,
            },
        }
    }
}

pub open spec fn unused_template<'a>(
    span: Span,
    quasis: Seq<Quasi>,
    expressions: Seq<Expr<'a>>,
    env: Env,
) -> Outcome<'a>
    decreases expressions_size(expressions) + 1, 0nat,
{
    let whole = Expr::Template { span, quasis, expressions };
    if expressions.len() == 0 {
        Outcome { expr: whole, removed: true, changed: false }
    } else if is_bare_template(quasis, expressions, env) {
        untouched(whole)
    } else {
        let kept = kept_substitutions(expressions, env);
        reduced(
            span,
            with_template(span, kept.exprs, kept.pending),
            kept.changed,
            Expr::Template { span, quasis, expressions: seq![] },
        )
    }
}

/// `exprs`, followed by a template literal of `pending` unless that is empty.
pub open spec fn with_template<'a>(
    span: Span,
    exprs: Seq<Expr<'a>>,
    pending: Seq<Expr<'a>>,
) -> Seq<Expr<'a>> {
    if pending.len() > 0 {
        exprs.push(bare_template(span, pending))
    } else {
        exprs
    }
}

pub open spec fn unused_object<'a>(
    span: Span,
    properties: Seq<Prop<'a>>,
    trailing_comma: Option<Span>,
    env: Env,
) -> Outcome<'a>
    decreases properties_size(properties) + 1, 0nat,
{
    let whole = Expr::Object { span, properties, trailing_comma };
    if properties.len() == 0 {
        Outcome { expr: whole, removed: true, changed: false }
    } else if all_spread(properties) {
        untouched(whole)
    } else {
        let kept = kept_properties(properties, env);
        reduced(
            span,
            with_object(span, kept.exprs, kept.pending),
            kept.changed,
            Expr::Object { span, properties: seq![], trailing_comma },
        )
    }
}

/// `exprs`, followed by an object literal of `pending` unless that is empty.
pub open spec fn with_object<'a>(
    span: Span,
    exprs: Seq<Expr<'a>>,
    pending: Seq<Prop<'a>>,
) -> Seq<Expr<'a>> {
    if pending.len() > 0 {
        exprs.push(Expr::Object { span, properties: pending, trailing_comma: None })
    } else {
        exprs
    }
}

pub open spec fn unused_conditional<'a>(
    span: Span,
    test: Expr<'a>,
    consequent: Expr<'a>,
    alternate: Expr<'a>,
    env: Env,
) -> Outcome<'a>
    decreases test.size() + consequent.size() + alternate.size() + 1, 0nat,
{
    let c = unused(consequent, env);
    let a = unused(alternate, env);
    if c.removed && a.removed {
        let t = unused(test, env);
        if t.removed {
            Outcome {
                expr: Expr::Conditional {
                    span,
                    test: Box::new(t.expr),
                    consequent: Box::new(c.expr),
                    alternate: Box::new(a.expr),
                },
                removed: true,
                changed: t.changed || c.changed || a.changed,
            }
        } else {
            recorded(t)
        }
    } else if c.removed {
        Outcome {
            expr: join(span, LogicalOperator::Or, test, a.expr),
            removed: false,
            changed: true,
        }
    } else if a.removed {
        Outcome {
            expr: join(span, LogicalOperator::And, test, c.expr),
            removed: false,
            changed: true,
        }
    } else {
        Outcome {
            expr: Expr::Conditional {
                span,
                test: Box::new(test),
                consequent: Box::new(c.expr),
                alternate: Box::new(a.expr),
            },
            removed: false,
            changed: c.changed || a.changed,
        }
    }
}

pub open spec fn unused_comparison<'a>(
    span: Span,
    left: Expr<'a>,
    operator: BinaryOperator,
    right: Expr<'a>,
    env: Env,
) -> Outcome<'a>
    decreases left.size() + right.size() + 1, 0nat,
{
    let l = unused(left, env);
    let r = unused(right, env);
    if l.removed && r.removed {
        Outcome {
            expr: Expr::Binary { span, left: Box::new(l.expr), operator, right: Box::new(r.expr) },
            removed: true,
            changed: l.changed || r.changed,
        }
    } else if l.removed {
        recorded(r)
    } else if r.removed {
        recorded(l)
    } else {
        Outcome {
            expr: Expr::Sequence { span, expressions: seq![l.expr, r.expr] },
            removed: false,
            changed: true,
        }
    }
}

/// A chain of `+` of which the value is not used, with the strings in it blanked. What is added
/// to a string goes where neither adding it nor evaluating it does anything.
pub open spec fn shortened_sum<'a>(e: Expr<'a>, env: Env) -> Sum<'a>
    decreases e.size(), 0nat,
{
    match e {
        Expr::Binary { span, left, operator: BinaryOperator::Addition, right } => if is_string(
            *left,
            env,
        ) {
            let l = shortened_sum(*left, env);
            let (first, blanked) = blanked_string(l.expr, has_effects(l.expr, env));
            if converts_to_string(*right, env) && !has_effects(*right, env) {
                Sum { expr: first, changed: true }
            } else {
                Sum {
                    expr: Expr::Binary {
                        span,
                        left: Box::new(first),
                        operator: BinaryOperator::Addition,
                        right,
                    },
                    changed: l.changed || blanked,
                }
            }
        } else if is_string(*right, env) {
            let (second, blanked) = blanked_string(*right, has_effects(*right, env));
            Sum {
                expr: Expr::Binary {
                    span,
                    left,
                    operator: BinaryOperator::Addition,
                    right: Box::new(second),
                },
                changed: blanked,
            }
        } else {
            Sum { expr: e, changed: false }
        },
        _ => Sum { expr: e, changed: false },
    }
}

/// `e`, a string, as an empty string literal unless it has side effects; and whether that
/// differs from `e`.
pub open spec fn blanked_string<'a>(e: Expr<'a>, effects: bool) -> (Expr<'a>, bool) {
    if !effects && !is_empty_string(e) {
        (empty_string(e.span()), true)
    } else {
        (e, false)
    }
}

/// What is left of the unused expressions `s`.
pub open spec fn kept<'a>(s: Seq<Expr<'a>>, env: Env) -> Kept<'a>
    decreases expressions_size(s), 2nat,
{
    if s.len() == 0 {
        Kept { exprs: seq![], changed: false }
    } else {
        let init = kept(s.drop_last(), env);
        let last = unused(s.last(), env);
        Kept {
            exprs: if last.removed {
                init.exprs
            } else {
                init.exprs.push(last.expr)
            },
            changed: init.changed || last.changed,
        }
    }
}

/// What is left of the arguments `s` of a call that is not made.
pub open spec fn kept_arguments<'a>(s: Seq<Arg<'a>>, env: Env) -> Kept<'a>
    decreases arguments_size(s), 2nat,
{
    if s.len() == 0 {
        Kept { exprs: seq![], changed: false }
    } else {
        let init = kept_arguments(s.drop_last(), env);
        proof {
            lemma_argument_size(s.last());
        }
        let last = unused(argument_expression(s.last()), env);
        Kept {
            exprs: if last.removed {
                init.exprs
            } else {
                init.exprs.push(last.expr)
            },
            changed: init.changed || last.changed,
        }
    }
}

/// An expression that evaluates an argument: `[...e]` for `...e`.
pub open spec fn argument_expression<'a>(a: Arg<'a>) -> Expr<'a> {
    match a {
        Arg::Spread { span, argument } => Expr::Array {
            span,
            elements: seq![Element::Spread { span, argument }],
            trailing_comma: None,
        },
        Arg::Expression(e) => e,
    }
}

/// The expression that evaluates an argument is smaller than the argument.
pub proof fn lemma_argument_size(a: Arg<'_>)
    ensures
        argument_expression(a).size() < a.size(),
{
    match a {
        Arg::Spread { span, argument } => {
            let element = Element::Spread { span, argument };
            let s = seq![element];
            assert(s.drop_last() =~= seq![]);
            assert(elements_size(seq![]) == 0);
            assert(elements_size(s) == element.size() + 1);
        },
        Arg::Expression(_) => {},
    }
}

/// What is left of the elements `s` of an unused array.
pub open spec fn kept_elements<'a>(s: Seq<Element<'a>>, env: Env) -> KeptElements<'a>
    decreases elements_size(s), 2nat,
{
    if s.len() == 0 {
        KeptElements { elements: seq![], changed: false }
    } else {
        let init = kept_elements(s.drop_last(), env);
        match s.last() {
            Element::Spread { span, argument } => if spread_has_effects(argument, env) {
                KeptElements { elements: init.elements.push(s.last()), changed: init.changed }
            } else {
                init
            },
            Element::Elision { .. } => init,
            Element::Expression(e) => {
                proof {
                    assert(s.last().size() == e.size() + 1);
                }
                let last = unused(e, env);
                KeptElements {
                    elements: if last.removed {
                        init.elements
                    } else {
                        init.elements.push(Element::Expression(last.expr))
                    },
                    changed: init.changed || last.changed,
                }
            },
        }
    }
}

/// What is left of the substitutions `s` of an unused template literal.
pub open spec fn kept_substitutions<'a>(s: Seq<Expr<'a>>, env: Env) -> KeptSubstitutions<'a>
    decreases expressions_size(s), 2nat,
{
    if s.len() == 0 {
        KeptSubstitutions { exprs: seq![], pending: seq![], changed: false }
    } else {
        let init = kept_substitutions(s.drop_last(), env);
        if !converts_to_string(s.last(), env) {
            KeptSubstitutions {
                exprs: init.exprs,
                pending: init.pending.push(s.last()),
                changed: init.changed,
            }
        } else {
            let last = unused(s.last(), env);
            if last.removed {
                KeptSubstitutions {
                    exprs: init.exprs,
                    pending: init.pending,
                    changed: init.changed || last.changed,
                }
            } else {
                KeptSubstitutions {
                    exprs: with_template(last.expr.span(), init.exprs, init.pending).push(
                        last.expr,
                    ),
                    pending: seq![],
                    changed: init.changed || last.changed,
                }
            }
        }
    }
}

/// What is left of the properties `s` of an unused object.
pub open spec fn kept_properties<'a>(s: Seq<Prop<'a>>, env: Env) -> KeptProperties<'a>
    decreases properties_size(s), 2nat,
{
    if s.len() == 0 {
        KeptProperties { exprs: seq![], pending: seq![], changed: false }
    } else {
        let init = kept_properties(s.drop_last(), env);
        match s.last() {
            Prop::Spread { .. } => KeptProperties {
                exprs: init.exprs,
                pending: init.pending.push(s.last()),
                changed: init.changed,
            },
            Prop::Property { span, key, value, .. } => {
                proof {
                    assert(s.last().size() == key.size() + value.size() + 1);
                }
                let before = with_object(span, init.exprs, init.pending);
                let k = kept_key(before, key, env);
                let v = unused(value, env);
                KeptProperties {
                    exprs: if v.removed {
                        k.exprs
                    } else {
                        k.exprs.push(v.expr)
                    },
                    pending: seq![],
                    changed: init.changed || k.changed || v.changed,
                }
            },
        }
    }
}

/// `before`, followed by what is left of a property key.
pub open spec fn kept_key<'a>(before: Seq<Expr<'a>>, key: Key<'a>, env: Env) -> Kept<'a>
    decreases key.size(), 2nat,
{
    match key {
        Key::Expression(e) => {
            let k = unused(e, env);
            Kept {
                exprs: if k.removed {
                    before
                } else {
                    before.push(k.expr)
                },
                changed: k.changed,
            }
        },
        _ => Kept { exprs: before, changed: false },
    }
}

} // verus!
