//! What evaluating an expression does.
//!
//! A [`Machine`] is any way of evaluating the parts of the language that the pass leaves alone.
//! [`exec`] evaluates an expression on it: the order of evaluation, the operators that the pass
//! rewrites and the links of optional chains are fixed here, the rest is up to the machine. A
//! thrown error is a world like any other, in which the machine does nothing more.
use crate::analysis::{is_comparison, value_type};
use crate::ast::{
    Arg, Body, Element, Expr, FormalParameters, FunctionBody, Ident, Key, Prop, Span, Stmt,
};
use crate::boolean_context::lemma_boolean_context_size;
use crate::ctx::{is_global, is_undefined};
use crate::measure::{
    arguments_size, elements_size, expressions_size, properties_size, statements_size,
};
use crate::rewrite::{
    argument_expression, converts_to_string, folded_left, has_effects, is_string,
    lemma_argument_size, shortened_sum, spread_has_effects, unused, Env,
};
use oxc_ecmascript::constant_evaluation::ValueType;
use oxc_syntax::operator::{BinaryOperator, LogicalOperator, UnaryOperator};
use vstd::prelude::*;

verus! {

/// What an argument hands to the function that is called.
pub enum Passed<V, W> {
    Value(V),
    /// What iterating over a value in some world yields.
    Spread(V, W),
}

/// What evaluating the start or a link of a chain comes to.
pub struct Reference<V, W> {
    pub value: V,
    /// The value that the property was read of: `this` of a call.
    pub this: Option<V>,
    /// Whether an optional link found a null or undefined value. The rest of the chain is skipped.
    pub skipped: bool,
    pub world: W,
}

/// A way of evaluating expressions, with values `V` in worlds `W`. A world holds all that can be
/// observed: two worlds that nothing can tell apart are one.
#[verifier::reject_recursive_types(V)]
#[verifier::reject_recursive_types(W)]
pub struct Machine<'a, V, W> {
    /// Evaluates an expression that is not evaluated part by part.
    pub eval: spec_fn(Expr<'a>, W) -> (V, W),
    /// The value of an expression that is evaluated part by part from some world on.
    pub value: spec_fn(Expr<'a>, W) -> V,
    /// Evaluates an expression of a kind that the tree does not look into, such as a private field.
    pub refer: spec_fn(Expr<'a>, W) -> Reference<V, W>,
    /// Reads a property of that name.
    pub get: spec_fn(V, Seq<char>, W) -> (V, W),
    /// Reads the property that a value names.
    pub get_computed: spec_fn(V, V, W) -> (V, W),
    /// Calls a function with that `this` and those arguments.
    pub call: spec_fn(V, Option<V>, Seq<Passed<V, W>>, W) -> (V, W),
    /// The value of a chain that is skipped.
    pub undefined: V,
    /// Whether a value counts as true.
    pub truthy: spec_fn(V) -> bool,
    /// Whether a value is null or undefined.
    pub nullish: spec_fn(V) -> bool,
    /// Whether the primitive of a value is a string. What stands for the value of an operation that
    /// threw an error counts as one.
    pub stringy: spec_fn(V) -> bool,
    /// The value of `void`, `!` and `typeof`.
    pub unary: spec_fn(UnaryOperator, V) -> V,
    /// The value of a comparison, which converts its sides without side effects.
    pub compare: spec_fn(BinaryOperator, V, V) -> V,
    /// `+`, which may throw.
    pub plus: spec_fn(V, V, W) -> (V, W),
    /// Converts a value to a string, which may throw.
    pub to_string: spec_fn(V, W) -> W,
    /// Iterates over a value.
    pub iterate: spec_fn(V, W) -> W,
    /// Copies the properties of a value.
    pub copy: spec_fn(V, W) -> W,
}

/// Whether a function declares no parameters.
pub open spec fn no_parameters(params: FormalParameters) -> bool {
    params.items == 0 && !params.rest
}

/// The value of `e` evaluated in the world `w`, and the world after that.
pub open spec fn exec<'a, V, W>(m: Machine<'a, V, W>, e: Expr<'a>, w: W) -> (V, W)
    decreases e, 1nat,
{
    match e {
        Expr::Unary { operator, argument, .. } => match operator {
            UnaryOperator::Void | UnaryOperator::LogicalNot => {
                let a = exec(m, *argument, w);
                ((m.unary)(operator, a.0), a.1)
            },
            UnaryOperator::Typeof => if *argument is Identifier {
                ((m.value)(e, w), w)
            } else {
                let a = exec(m, *argument, w);
                ((m.unary)(operator, a.0), a.1)
            },
            _ => (m.eval)(e, w),
        },
        Expr::Binary { left, operator, right, .. } => if is_comparison(operator) {
            let l = exec(m, *left, w);
            let r = exec(m, *right, l.1);
            ((m.compare)(operator, l.0, r.0), r.1)
        } else if operator is Addition {
            let l = exec(m, *left, w);
            let r = exec(m, *right, l.1);
            (m.plus)(l.0, r.0, r.1)
        } else {
            (m.eval)(e, w)
        },
        Expr::Logical { left, operator, right, .. } => {
            let l = exec(m, *left, w);
            if decides(m, operator, l.0) {
                l
            } else {
                exec(m, *right, l.1)
            }
        },
        Expr::Conditional { test, consequent, alternate, .. } => {
            let t = exec(m, *test, w);
            if (m.truthy)(t.0) {
                exec(m, *consequent, t.1)
            } else {
                exec(m, *alternate, t.1)
            }
        },
        Expr::Sequence { expressions, .. } => if expressions.len() == 0 {
            ((m.value)(e, w), w)
        } else {
            exec(m, expressions.last(), exec_all(m, expressions.drop_last(), w))
        },
        Expr::Template { expressions, .. } => (
            (m.value)(e, w),
            exec_substitutions(m, expressions, w),
        ),
        Expr::Array { elements, .. } => ((m.value)(e, w), exec_elements(m, elements, w)),
        Expr::Object { properties, .. } => (
            (m.value)(e, w),
            exec_properties(m, properties, w),
        ),
        Expr::Call { arguments, pure: true, .. } => (
            (m.value)(e, w),
            exec_arguments(m, arguments, w),
        ),
        Expr::Call { .. } | Expr::StaticMember { .. } | Expr::ComputedMember { .. } => settled(
            m,
            exec_link(m, e, w),
        ),
        Expr::Chain { expression, .. } => settled(m, exec_reference(m, *expression, w)),
        Expr::Parenthesized { expression, .. } => exec(m, *expression, w),
        Expr::Other { .. } => settled(m, (m.refer)(e, w)),
        Expr::New { arguments, pure, .. } => if pure {
            ((m.value)(e, w), exec_arguments(m, arguments, w))
        } else {
            (m.eval)(e, w)
        },
        _ => (m.eval)(e, w),
    }
}

/// Whether the value `v` of its left side is already that of the logical operation.
pub open spec fn decides<'a, V, W>(m: Machine<'a, V, W>, operator: LogicalOperator, v: V) -> bool {
    match operator {
        LogicalOperator::Or => (m.truthy)(v),
        LogicalOperator::And => !(m.truthy)(v),
        LogicalOperator::Coalesce => !(m.nullish)(v),
    }
}

/// Whether a function has a rest parameter.
pub open spec fn has_rest(callee: Expr<'_>) -> bool {
    match callee {
        Expr::Function { params, .. } => params.rest,
        Expr::Arrow { params, .. } => params.rest,
        _ => false,
    }
}

/// Whether `callee` is a function without parameters, directives and statements.
pub open spec fn does_nothing(callee: Expr<'_>) -> bool {
    match callee {
        Expr::Function { params, body, .. } => no_parameters(params) && body == Some(
            FunctionBody { directives: 0, statements: 0 },
        ),
        Expr::Arrow { params, body: Body::Block { directives, statements }, .. } => no_parameters(
            params,
        ) && directives.len() + statements.len() == 0,
        _ => false,
    }
}

/// Whether `callee` is a function that does nothing but take a rest parameter.
pub open spec fn only_takes_rest(callee: Expr<'_>) -> bool {
    has_rest(callee) && match callee {
        Expr::Function { params, body, .. } => params.items == 0 && body == Some(
            FunctionBody { directives: 0, statements: 0 },
        ),
        Expr::Arrow { params, body: Body::Block { directives, statements }, .. } => params.items
            == 0 && directives.len() + statements.len() == 0,
        _ => false,
    }
}

/// The call `e` of `callee` without arguments, where it is evaluated in place. A function without
/// parameters, directives and statements does nothing. A synchronous arrow function without
/// parameters and directives does what its body does.
pub open spec fn exec_call<'a, V, W>(
    m: Machine<'a, V, W>,
    e: Expr<'a>,
    callee: Expr<'a>,
    w: W,
) -> Option<(V, W)>
    decreases callee, 0nat,
{
    if does_nothing(callee) {
        Some(((m.value)(e, w), w))
    } else {
        match callee {
            Expr::Arrow { is_async, params, body, .. } => if is_async || !no_parameters(params) {
                None
            } else {
                match body {
                    Body::Expression(x) => Some(((m.value)(e, w), exec(m, *x, w).1)),
                    Body::Block { directives, statements } => if directives.len() == 0
                        && statements.len() == 1 {
                        match statements[0] {
                            Stmt::Expression { expression, .. } => Some(
                                ((m.value)(e, w), exec(m, expression, w).1),
                            ),
                            Stmt::Return { argument: Some(argument), .. } => Some(
                                ((m.value)(e, w), exec(m, argument, w).1),
                            ),
                            Stmt::Return { argument: None, .. } => Some(((m.value)(e, w), w)),
                            Stmt::Other(_) => None,
                        }
                    } else {
                        None
                    },
                }
            },
            _ => None,
        }
    }
}

/// The value of a whole chain, and the world after it.
pub open spec fn settled<'a, V, W>(m: Machine<'a, V, W>, r: Reference<V, W>) -> (V, W) {
    (
        if r.skipped {
            m.undefined
        } else {
            r.value
        },
        r.world,
    )
}

/// A value that was not read of another one.
pub open spec fn detached<V, W>(r: (V, W)) -> Reference<V, W> {
    Reference { value: r.0, this: None, skipped: false, world: r.1 }
}

/// Whether a link behind `r` is skipped: the chain before it is, or the link is optional and finds
/// a null or undefined value.
pub open spec fn skips<'a, V, W>(
    m: Machine<'a, V, W>,
    r: Reference<V, W>,
    optional: bool,
) -> bool {
    r.skipped || (optional && (m.nullish)(r.value))
}

/// A chain that is skipped after `w`.
pub open spec fn skipped<'a, V, W>(m: Machine<'a, V, W>, w: W) -> Reference<V, W> {
    Reference { value: m.undefined, this: None, skipped: true, world: w }
}

/// What `e` refers to, as the start or a link of a chain.
pub open spec fn exec_reference<'a, V, W>(m: Machine<'a, V, W>, e: Expr<'a>, w: W) -> Reference<
    V,
    W,
>
    decreases e, 2nat,
{
    match e {
        Expr::Call { .. } | Expr::StaticMember { .. } | Expr::ComputedMember { .. } => exec_link(
            m,
            e,
            w,
        ),
        Expr::Chain { expression, .. } => {
            let r = exec_reference(m, *expression, w);
            if r.skipped {
                detached(settled(m, r))
            } else {
                r
            }
        },
        Expr::Parenthesized { expression, .. } => exec_reference(m, *expression, w),
        Expr::Other { .. } => (m.refer)(e, w),
        _ => detached(exec(m, e, w)),
    }
}

/// A call or a member access, as a link of a chain: first what stands before it, then, unless the
/// link is skipped, its own parts from left to right. Of a call that is marked as pure the
/// arguments are all that is done.
pub open spec fn exec_link<'a, V, W>(m: Machine<'a, V, W>, e: Expr<'a>, w: W) -> Reference<V, W>
    decreases e, 0nat,
{
    match e {
        Expr::StaticMember { object, property, optional, .. } => {
            let o = exec_reference(m, *object, w);
            if skips(m, o, optional) {
                skipped(m, o.world)
            } else {
                let r = (m.get)(o.value, property, o.world);
                Reference { value: r.0, this: Some(o.value), skipped: false, world: r.1 }
            }
        },
        Expr::ComputedMember { object, expression, optional, .. } => {
            let o = exec_reference(m, *object, w);
            if skips(m, o, optional) {
                skipped(m, o.world)
            } else {
                let k = exec(m, *expression, o.world);
                let r = (m.get_computed)(o.value, k.0, k.1);
                Reference { value: r.0, this: Some(o.value), skipped: false, world: r.1 }
            }
        },
        Expr::Call { callee, arguments, optional, pure, .. } => {
            let f = exec_reference(m, *callee, w);
            if pure {
                if skips(m, f, optional) {
                    skipped(m, w)
                } else {
                    let done = exec_arguments(m, arguments, w);
                    let r = (m.call)(f.value, f.this, passed(m, arguments, w), done);
                    detached((r.0, done))
                }
            } else if arguments.len() == 0 && exec_call(m, e, *callee, w) is Some {
                detached(exec_call(m, e, *callee, w)->Some_0)
            } else if skips(m, f, optional) {
                skipped(m, f.world)
            } else {
                let done = exec_arguments(m, arguments, f.world);
                detached((m.call)(f.value, f.this, passed(m, arguments, f.world), done))
            }
        },
        _ => detached((m.eval)(e, w)),
    }
}

/// The world after the expressions `s`, one after the other.
pub open spec fn exec_all<'a, V, W>(m: Machine<'a, V, W>, s: Seq<Expr<'a>>, w: W) -> W
    decreases s, 0nat,
{
    if s.len() == 0 {
        w
    } else {
        exec(m, s.last(), exec_all(m, s.drop_last(), w)).1
    }
}

/// The world after the substitutions `s` of a template literal. Each is converted to a string
/// before the next is evaluated.
pub open spec fn exec_substitutions<'a, V, W>(m: Machine<'a, V, W>, s: Seq<Expr<'a>>, w: W) -> W
    decreases s, 0nat,
{
    if s.len() == 0 {
        w
    } else {
        let last = exec(m, s.last(), exec_substitutions(m, s.drop_last(), w));
        (m.to_string)(last.0, last.1)
    }
}

/// The world after the elements `s` of an array literal.
pub open spec fn exec_elements<'a, V, W>(m: Machine<'a, V, W>, s: Seq<Element<'a>>, w: W) -> W
    decreases s, 0nat,
{
    if s.len() == 0 {
        w
    } else {
        exec_element(m, s.last(), exec_elements(m, s.drop_last(), w))
    }
}

pub open spec fn exec_element<'a, V, W>(m: Machine<'a, V, W>, element: Element<'a>, w: W) -> W
    decreases element, 0nat,
{
    match element {
        Element::Spread { argument, .. } => {
            let a = exec(m, argument, w);
            (m.iterate)(a.0, a.1)
        },
        Element::Elision { .. } => w,
        Element::Expression(e) => exec(m, e, w).1,
    }
}

/// The world after the arguments `s` of a call.
pub open spec fn exec_arguments<'a, V, W>(m: Machine<'a, V, W>, s: Seq<Arg<'a>>, w: W) -> W
    decreases s, 0nat,
{
    if s.len() == 0 {
        w
    } else {
        exec_argument(m, s.last(), exec_arguments(m, s.drop_last(), w))
    }
}

pub open spec fn exec_argument<'a, V, W>(m: Machine<'a, V, W>, argument: Arg<'a>, w: W) -> W
    decreases argument, 0nat,
{
    match argument {
        Arg::Spread { argument, .. } => {
            let a = exec(m, argument, w);
            (m.iterate)(a.0, a.1)
        },
        Arg::Expression(e) => exec(m, e, w).1,
    }
}

/// What the arguments `s` hand to the function.
pub open spec fn passed<'a, V, W>(m: Machine<'a, V, W>, s: Seq<Arg<'a>>, w: W) -> Seq<Passed<V, W>>
    decreases s, 0nat,
{
    if s.len() == 0 {
        seq![]
    } else {
        let w0 = exec_arguments(m, s.drop_last(), w);
        passed(m, s.drop_last(), w).push(
            match s.last() {
                Arg::Spread { argument, .. } => {
                    let a = exec(m, argument, w0);
                    Passed::Spread(a.0, a.1)
                },
                Arg::Expression(e) => Passed::Value(exec(m, e, w0).0),
            },
        )
    }
}

/// The world after the properties `s` of an object literal.
pub open spec fn exec_properties<'a, V, W>(m: Machine<'a, V, W>, s: Seq<Prop<'a>>, w: W) -> W
    decreases s, 0nat,
{
    if s.len() == 0 {
        w
    } else {
        exec_property(m, s.last(), exec_properties(m, s.drop_last(), w))
    }
}

/// The world after a property. A key is converted to a property name without side effects.
pub open spec fn exec_property<'a, V, W>(m: Machine<'a, V, W>, property: Prop<'a>, w: W) -> W
    decreases property, 0nat,
{
    match property {
        Prop::Property { key, value, .. } => exec(m, value, exec_key(m, key, w)).1,
        Prop::Spread { argument, .. } => {
            let a = exec(m, argument, w);
            (m.copy)(a.0, a.1)
        },
    }
}

pub open spec fn exec_key<'a, V, W>(m: Machine<'a, V, W>, key: Key<'a>, w: W) -> W
    decreases key, 0nat,
{
    match key {
        Key::Expression(e) => exec(m, e, w).1,
        _ => w,
    }
}

/// Whether the machine obeys the rules of the language that the pass relies on.
pub open spec fn faithful<'a, V, W>(m: Machine<'a, V, W>, env: Env) -> bool {
    &&& negates(m)
    &&& compares_with_null(m)
    &&& concatenates(m)
    &&& knows_strings(m)
    &&& reads_variables(m, env)
    &&& reads_by_name(m)
}

/// `!` negates the truth of a value.
pub open spec fn negates<'a, V, W>(m: Machine<'a, V, W>) -> bool {
    forall|v: V|
        (m.truthy)(#[trigger] (m.unary)(UnaryOperator::LogicalNot, v)) == !(m.truthy)(v)
}

/// The literal `null` does nothing. `==` with it tells whether a value is null or undefined, and
/// `!=` whether it is not.
pub open spec fn compares_with_null<'a, V, W>(m: Machine<'a, V, W>) -> bool {
    &&& forall|span: Span, w: W| (#[trigger] (m.eval)(Expr::Null { span }, w)).1 == w
    &&& forall|v: V, span: Span, w: W| #[trigger]
        is_told_from_null(m, v, (m.eval)(Expr::Null { span }, w).0)
}

/// Whether comparing `v` with the value `null` of the literal tells if `v` is null or undefined.
pub open spec fn is_told_from_null<'a, V, W>(m: Machine<'a, V, W>, v: V, null: V) -> bool {
    &&& (m.truthy)((m.compare)(BinaryOperator::Equality, v, null)) == (m.nullish)(v)
    &&& (m.truthy)((m.compare)(BinaryOperator::Equality, null, v)) == (m.nullish)(v)
    &&& (m.truthy)((m.compare)(BinaryOperator::Inequality, v, null)) == !(m.nullish)(v)
    &&& (m.truthy)((m.compare)(BinaryOperator::Inequality, null, v)) == !(m.nullish)(v)
}

/// The sum with a string is a string, and what it does depends on the other side alone.
pub open spec fn concatenates<'a, V, W>(m: Machine<'a, V, W>) -> bool {
    &&& forall|s: V, v: V, w: W|
        (m.stringy)(s) ==> (m.stringy)((#[trigger] (m.plus)(s, v, w)).0)
    &&& forall|s: V, v: V, w: W|
        (m.stringy)(s) ==> (m.stringy)((#[trigger] (m.plus)(v, s, w)).0)
    &&& forall|s: V, t: V, v: V, w: W|
        (m.stringy)(s) && (m.stringy)(t) ==> (#[trigger] (m.plus)(s, v, w)).1 == (
        #[trigger] (m.plus)(t, v, w)).1
    &&& forall|s: V, t: V, v: V, w: W|
        (m.stringy)(s) && (m.stringy)(t) ==> (#[trigger] (m.plus)(v, s, w)).1 == (
        #[trigger] (m.plus)(v, t, w)).1
}

/// A string literal is a string, and does nothing else.
pub open spec fn knows_strings<'a, V, W>(m: Machine<'a, V, W>) -> bool {
    forall|e: Expr<'a>, w: W|
        e is Str ==> (m.stringy)((#[trigger] exec(m, e, w)).0) && exec(m, e, w).1 == w
}

/// Reading a variable that the program declares does nothing.
pub open spec fn reads_variables<'a, V, W>(m: Machine<'a, V, W>, env: Env) -> bool {
    forall|i: Ident, w: W|
        !is_global(env.globals, i.reference_id) ==> (#[trigger] exec(
            m,
            Expr::Identifier(i),
            w,
        )).1 == w
}

/// A variable is read by its name: the parts of an expression are all in one scope.
pub open spec fn reads_by_name<'a, V, W>(m: Machine<'a, V, W>) -> bool {
    forall|i: Ident, j: Ident, w: W|
        i.name == j.name ==> #[trigger] exec(m, Expr::Identifier(i), w) == #[trigger] exec(
            m,
            Expr::Identifier(j),
            w,
        )
}

/// Where the analyses find `e` to be free of side effects, it has none.
pub open spec fn without_effects<'a, V, W>(m: Machine<'a, V, W>, e: Expr<'a>, env: Env) -> bool {
    !has_effects(e, env) ==> forall|w: W| (#[trigger] exec(m, e, w)).1 == w
}

/// Where the analyses find `...e` to be free of side effects, it has none.
pub open spec fn iterates_without_effects<'a, V, W>(
    m: Machine<'a, V, W>,
    e: Expr<'a>,
    env: Env,
) -> bool {
    !spread_has_effects(e, env) ==> forall|w: W|
        {
            let a = #[trigger] exec(m, e, w);
            (m.iterate)(a.0, a.1) == w
        }
}

/// Whether `e` makes an object by a constructor of the language and does nothing else: the global
/// `Set`, `Map`, `WeakSet` or `WeakMap` of nothing, `null`, `undefined` or, for the weak ones,
/// `[]`; or `Date` of nothing, or of what the analyses find to be no object, bigint or symbol, and
/// to be free of side effects.
pub open spec fn only_constructs(e: Expr<'_>, env: Env) -> bool {
    match e {
        Expr::New { callee, arguments, .. } => match *callee {
            Expr::Identifier(i) => is_global(env.globals, i.reference_id) && {
                let is_weak = i.name == "WeakSet"@ || i.name == "WeakMap"@;
                let is_strong = i.name == "Set"@ || i.name == "Map"@;
                let is_date = i.name == "Date"@;
                if arguments.len() == 0 {
                    is_weak || is_strong || is_date
                } else {
                    arguments.len() == 1 && match arguments[0] {
                        Arg::Expression(x) => match x {
                            Expr::Null { .. } => is_weak || is_strong || is_date,
                            Expr::Array { elements, .. } => is_weak && elements.len() == 0,
                            _ => (is_weak || is_strong) && is_undefined(x, env.globals) || is_date
                                && !has_effects(x, env) && match value_type(
                                x.shape(),
                                env.globals,
                            ) {
                                ValueType::Object
                                | ValueType::BigInt
                                | ValueType::Undetermined => false,
                                _ => true,
                            },
                        },
                        Arg::Spread { .. } => false,
                    }
                }
            },
            _ => false,
        },
        _ => false,
    }
}

/// Where `e` only makes an object, it has no side effects.
pub open spec fn constructs_without_effects<'a, V, W>(
    m: Machine<'a, V, W>,
    e: Expr<'a>,
    env: Env,
) -> bool {
    only_constructs(e, env) ==> forall|w: W| (#[trigger] exec(m, e, w)).1 == w
}

/// Where the analyses find the value of `e` to be no symbol, it is converted to a string, and added
/// to one, without side effects.
pub open spec fn converts_without_effects<'a, V, W>(
    m: Machine<'a, V, W>,
    e: Expr<'a>,
    env: Env,
) -> bool {
    converts_to_string(e, env) ==> forall|w: W|
        {
            let a = #[trigger] exec(m, e, w);
            &&& (m.to_string)(a.0, a.1) == a.1
            &&& forall|s: V| (m.stringy)(s) ==> (#[trigger] (m.plus)(s, a.0, a.1)).1 == a.1
        }
}

/// Where the analyses find the value of `e` to be a string, it is one.
pub open spec fn yields_string<'a, V, W>(m: Machine<'a, V, W>, e: Expr<'a>, env: Env) -> bool {
    is_string(e, env) ==> forall|w: W| (m.stringy)((#[trigger] exec(m, e, w)).0)
}

/// Whether what the pass takes for granted of `e` holds on the machine: what the analyses answer
/// where it asks them, and that every function that it finds `e` to call on the spot, and looks
/// into, has neither parameters nor directives.
pub open spec fn is_regular<'a, V, W>(m: Machine<'a, V, W>, e: Expr<'a>, env: Env) -> bool
    decreases e.size(), 1nat,
{
    match e {
        Expr::Unary { operator, argument, .. } => match operator {
            UnaryOperator::Void | UnaryOperator::LogicalNot => is_regular(m, *argument, env),
            UnaryOperator::Typeof => *argument is Identifier || is_regular(m, *argument, env),
            _ => true,
        },
        Expr::Binary { left, operator, right, .. } => if is_comparison(operator) {
            is_regular(m, *left, env) && is_regular(m, *right, env)
        } else if operator is Addition {
            is_regular_sum(m, e, env)
        } else {
            without_effects(m, e, env)
        },
        Expr::Logical { left, operator, right, .. } => {
            let l = folded_left(*left, operator);
            proof {
                lemma_boolean_context_size(*left);
            }
            is_regular(m, *right, env) && (unused(*right, env).removed ==> is_regular(
                m,
                l.expr,
                env,
            ))
        },
        Expr::Conditional { test, consequent, alternate, .. } => is_regular(m, *consequent, env)
            && is_regular(m, *alternate, env) && (unused(*consequent, env).removed && unused(
            *alternate,
            env,
        ).removed ==> is_regular(m, *test, env)),
        Expr::Sequence { expressions, .. } => all_regular(m, expressions, env),
        Expr::Template { expressions, .. } => substitutions_regular(m, expressions, env),
        Expr::Array { elements, .. } => elements_regular(m, elements, env),
        Expr::Object { properties, .. } => properties_regular(m, properties, env),
        Expr::Call { callee, arguments, pure, .. } => if pure {
            arguments_regular(m, arguments, env)
        } else {
            arguments.len() == 0 ==> is_regular_callee(m, *callee, env)
        },
        Expr::New { arguments, pure, .. } => if pure {
            arguments_regular(m, arguments, env)
        } else {
            constructs_without_effects(m, e, env)
        },
        _ => without_effects(m, e, env),
    }
}

/// Whether what the analyses answer of a chain of `+`, where it is shortened, holds.
pub open spec fn is_regular_sum<'a, V, W>(m: Machine<'a, V, W>, e: Expr<'a>, env: Env) -> bool
    decreases e.size(), 0nat,
{
    match e {
        Expr::Binary { left, operator: BinaryOperator::Addition, right, .. } => if is_string(
            *left,
            env,
        ) {
            let l = shortened_sum(*left, env).expr;
            &&& yields_string(m, *left, env)
            &&& is_regular_sum(m, *left, env)
            &&& yields_string(m, l, env)
            &&& without_effects(m, l, env)
            &&& converts_without_effects(m, *right, env)
            &&& without_effects(m, *right, env)
        } else {
            yields_string(m, *right, env) && without_effects(m, *right, env)
        },
        _ => true,
    }
}

/// Whether what the pass takes for granted of the call of `callee` without arguments holds.
pub open spec fn is_regular_callee<'a, V, W>(
    m: Machine<'a, V, W>,
    callee: Expr<'a>,
    env: Env,
) -> bool
    decreases callee.size(), 1nat,
{
    match callee {
        Expr::Arrow { is_async: false, params, body, .. } => match body {
            Body::Expression(x) => {
                proof {
                    assert(body.size() == x.size() + 1);
                }
                no_parameters(params) && is_regular(m, *x, env)
            },
            Body::Block { directives, statements } => if statements.len() == 1 {
                proof {
                    assert(body.size() > statements_size(statements) > statements.last().size());
                }
                match statements[0] {
                    Stmt::Expression { expression, .. } => no_parameters(params)
                        && directives.len() == 0 && is_regular(m, expression, env),
                    Stmt::Return { argument: Some(argument), .. } => no_parameters(params)
                        && directives.len() == 0 && is_regular(m, argument, env),
                    Stmt::Return { argument: None, .. } => no_parameters(params)
                        && directives.len() == 0,
                    Stmt::Other(_) => true,
                }
            } else {
                !only_takes_rest(callee)
            },
        },
        _ => !only_takes_rest(callee),
    }
}

pub open spec fn all_regular<'a, V, W>(m: Machine<'a, V, W>, s: Seq<Expr<'a>>, env: Env) -> bool
    decreases expressions_size(s), 2nat,
{
    s.len() == 0 || (all_regular(m, s.drop_last(), env) && is_regular(m, s.last(), env))
}

pub open spec fn substitutions_regular<'a, V, W>(
    m: Machine<'a, V, W>,
    s: Seq<Expr<'a>>,
    env: Env,
) -> bool
    decreases expressions_size(s), 2nat,
{
    s.len() == 0 || (substitutions_regular(m, s.drop_last(), env) && converts_without_effects(
        m,
        s.last(),
        env,
    ) && (converts_to_string(s.last(), env) ==> is_regular(m, s.last(), env)))
}

pub open spec fn elements_regular<'a, V, W>(
    m: Machine<'a, V, W>,
    s: Seq<Element<'a>>,
    env: Env,
) -> bool
    decreases elements_size(s), 2nat,
{
    if s.len() == 0 {
        true
    } else {
        proof {
            assert(s.last() is Expression ==> s.last().size() == s.last()->Expression_0.size() + 1);
        }
        elements_regular(m, s.drop_last(), env) && match s.last() {
            Element::Spread { argument, .. } => iterates_without_effects(m, argument, env),
            Element::Elision { .. } => true,
            Element::Expression(e) => is_regular(m, e, env),
        }
    }
}

pub open spec fn arguments_regular<'a, V, W>(
    m: Machine<'a, V, W>,
    s: Seq<Arg<'a>>,
    env: Env,
) -> bool
    decreases arguments_size(s), 2nat,
{
    if s.len() == 0 {
        true
    } else {
        proof {
            lemma_argument_size(s.last());
        }
        arguments_regular(m, s.drop_last(), env) && is_regular(
            m,
            argument_expression(s.last()),
            env,
        )
    }
}

pub open spec fn properties_regular<'a, V, W>(
    m: Machine<'a, V, W>,
    s: Seq<Prop<'a>>,
    env: Env,
) -> bool
    decreases properties_size(s), 2nat,
{
    if s.len() == 0 {
        true
    } else {
        properties_regular(m, s.drop_last(), env) && match s.last() {
            Prop::Property { key, value, .. } => {
                proof {
                    assert(s.last().size() == key.size() + value.size() + 1);
                }
                key_regular(m, key, env) && is_regular(m, value, env)
            },
            Prop::Spread { .. } => true,
        }
    }
}

pub open spec fn key_regular<'a, V, W>(m: Machine<'a, V, W>, key: Key<'a>, env: Env) -> bool
    decreases key.size(), 2nat,
{
    match key {
        Key::Expression(e) => is_regular(m, e, env),
        _ => true,
    }
}

} // verus!
