//! What the analyses find of an expression, told by its parts.
use crate::analysis::{
    argument_may_have_side_effects, arguments_may_have_side_effects,
    class_element_may_have_side_effects, element_may_have_side_effects,
    index_may_have_side_effects, is_constructor_name, is_conversion, is_uncooked,
    key_may_have_side_effects, key_text, may_have_side_effects, other_value_type,
    overrides_conversion, primitive, property_may_have_side_effects, read_may_have_side_effects,
    substitution_may_have_side_effects, value_type, Primitive,
};
use crate::ast::{Arg, Element, Expr, Key, Member, Prop};
use crate::ctx::is_global;
use crate::rewrite::{
    converts_to_string, has_effects, is_string, spread_has_effects, Env,
};
use crate::shape::{
    argument_shapes, cooked_text, element_shapes, expression_shapes, is_leaf, member_shapes,
    property_shapes, quasi_shapes, shape_of, ClassElementShape, ElementShape, KeyShape,
    PropertyShape, Shape,
};
use oxc_ecmascript::constant_evaluation::ValueType;
use oxc_syntax::operator::{BinaryOperator, LogicalOperator, UnaryOperator};
use oxc_syntax::reference::ReferenceId;
use vstd::prelude::*;

verus! {

/// The type of the value of `e`, as far as it is known.
pub open spec fn type_of(e: Expr<'_>, env: Env) -> ValueType {
    value_type(e.shape(), env.globals)
}

/// What the value of `e` is once it is converted to a primitive, as far as it is known.
pub open spec fn primitive_of(e: Expr<'_>, env: Env) -> Primitive {
    primitive(e.shape(), env.globals)
}

/// Whether `e` itself is one that a parser builds: a chain is one of links, and a node that is
/// carried through is of no kind that the tree has a variant for.
pub open spec fn is_valid(e: Expr<'_>) -> bool {
    match e {
        Expr::Chain { expression, .. } => {
            ||| *expression is Call
            ||| *expression is StaticMember
            ||| *expression is ComputedMember
            ||| *expression is Other && shape_of(expression->Other_node) is Other
        },
        Expr::Other { node, .. } => is_leaf(shape_of(node)),
        _ => true,
    }
}

/// Whether the key or the spread value of a property is one that a parser builds.
pub open spec fn is_valid_property(property: Prop<'_>) -> bool
    decreases property,
{
    match property {
        Prop::Property { key: Key::Expression(key), .. } => is_valid(key),
        Prop::Property { .. } => true,
        Prop::Spread { argument, .. } => is_valid(argument) && match argument {
            Expr::Object { properties, .. } => forall|i: int|
                0 <= i < properties.len() ==> is_valid_property(#[trigger] properties[i]),
            _ => true,
        },
    }
}

/// Whether `property` may give an object literal a method `toString` or `valueOf`, or one that is
/// called `Symbol.toPrimitive`.
pub open spec fn may_define_conversion(property: Prop<'_>) -> bool
    decreases property,
{
    match property {
        Prop::Property { key, .. } => match key {
            Key::Static { name, .. } => name == "toString"@ || name == "valueOf"@,
            Key::Private { .. } => false,
            Key::Expression(Expr::Str { value, .. }) => value == "toString"@ || value
                == "valueOf"@,
            Key::Expression(Expr::Template { quasis, expressions, .. }) => if expressions.len() == 0
                && quasis.len() == 1 {
                match quasis[0].cooked {
                    Some(text) => text == "toString"@ || text == "valueOf"@,
                    None => false,
                }
            } else {
                true
            },
            Key::Expression(_) => true,
        },
        Prop::Spread { argument, .. } => match argument {
            Expr::Object { properties, .. } => exists|i: int|
                0 <= i < properties.len() && may_define_conversion(#[trigger] properties[i]),
            Expr::Array { .. } | Expr::Str { .. } | Expr::Template { .. } => false,
            _ => true,
        },
    }
}

/// A reference is global if and only if it is one of those that resolve to no declaration.
pub proof fn law_global(globals: Seq<ReferenceId>, reference_id: Option<ReferenceId>)
    ensures
        is_global(globals, reference_id) == exists|i: int|
            0 <= i < globals.len() && reference_id == Some(#[trigger] globals[i]),
{
    if is_global(globals, reference_id) {
        let i = choose|i: int| 0 <= i < globals.len() && globals[i] == reference_id->Some_0;
        assert(reference_id == Some(globals[i]));
    }
}

/// The type of a value, by what computes it.
pub proof fn law_type(e: Expr<'_>, env: Env)
    requires
        is_valid(e),
    ensures
        ({
            let is_number_like = |p: Primitive|
                p is Undefined || p is Null || p is Boolean || p is Number || p is String;
            type_of(e, env) == match e {
                Expr::Null { .. } => ValueType::Null,
                Expr::Str { .. } | Expr::Template { .. } => ValueType::String,
                Expr::Array { .. }
                | Expr::Object { .. }
                | Expr::Function { .. }
                | Expr::Arrow { .. }
                | Expr::Class { .. } => ValueType::Object,
                Expr::Identifier(i) => if !is_global(env.globals, i.reference_id) {
                    ValueType::Undetermined
                } else if i.name == "undefined"@ {
                    ValueType::Undefined
                } else if i.name == "NaN"@ || i.name == "Infinity"@ {
                    ValueType::Number
                } else {
                    ValueType::Undetermined
                },
                Expr::Unary { operator, argument, .. } => match operator {
                    UnaryOperator::Void => ValueType::Undefined,
                    UnaryOperator::Typeof => ValueType::String,
                    UnaryOperator::LogicalNot | UnaryOperator::Delete => ValueType::Boolean,
                    UnaryOperator::UnaryPlus => ValueType::Number,
                    UnaryOperator::UnaryNegation | UnaryOperator::BitwiseNot => if type_of(
                        *argument,
                        env,
                    ) is BigInt {
                        ValueType::BigInt
                    } else if type_of(*argument, env) is Object || type_of(*argument, env)
                        is Undetermined {
                        ValueType::Undetermined
                    } else {
                        ValueType::Number
                    },
                },
                Expr::Binary { left, operator, right, .. } => {
                    let l = primitive_of(*left, env);
                    let r = primitive_of(*right, env);
                    match operator {
                        BinaryOperator::Addition => if l is String || r is String {
                            ValueType::String
                        } else if is_number_like(l) && is_number_like(r) {
                            ValueType::Number
                        } else if l is BigInt && r is BigInt {
                            ValueType::BigInt
                        } else {
                            ValueType::Undetermined
                        },
                        BinaryOperator::Subtraction
                        | BinaryOperator::Multiplication
                        | BinaryOperator::Division
                        | BinaryOperator::Remainder
                        | BinaryOperator::Exponential
                        | BinaryOperator::ShiftLeft
                        | BinaryOperator::ShiftRight
                        | BinaryOperator::BitwiseOR
                        | BinaryOperator::BitwiseXOR
                        | BinaryOperator::BitwiseAnd => if is_number_like(l) || is_number_like(r) {
                            ValueType::Number
                        } else if l is BigInt || r is BigInt {
                            ValueType::BigInt
                        } else {
                            ValueType::Undetermined
                        },
                        BinaryOperator::ShiftRightZeroFill => ValueType::Number,
                        _ => ValueType::Boolean,
                    }
                },
                Expr::Logical { left, operator, right, .. } => {
                    let l = type_of(*left, env);
                    let r = type_of(*right, env);
                    match operator {
                        LogicalOperator::Coalesce => if l is Null || l is Undefined {
                            r
                        } else {
                            l
                        },
                        _ => if l == r {
                            l
                        } else {
                            ValueType::Undetermined
                        },
                    }
                },
                Expr::Conditional { consequent, alternate, .. } => if type_of(*consequent, env)
                    == type_of(*alternate, env) {
                    type_of(*alternate, env)
                } else {
                    ValueType::Undetermined
                },
                Expr::Sequence { expressions, .. } => if expressions.len() == 0 {
                    ValueType::Undetermined
                } else {
                    type_of(expressions[expressions.len() - 1], env)
                },
                Expr::Parenthesized { expression, .. } => type_of(*expression, env),
                Expr::Call { .. }
                | Expr::New { .. }
                | Expr::StaticMember { .. }
                | Expr::ComputedMember { .. } => ValueType::Undetermined,
                Expr::Chain { expression, .. } => type_of(*expression, env),
                Expr::Other { node, .. } => match shape_of(node) {
                    Shape::Number(_) => ValueType::Number,
                    Shape::Boolean(_) => ValueType::Boolean,
                    Shape::BigInt(_) => ValueType::BigInt,
                    Shape::RegExp(_) => ValueType::Object,
                    Shape::Meta { meta, property } => if meta == "import"@ && property == "meta"@ {
                        ValueType::Object
                    } else {
                        ValueType::Undetermined
                    },
                    Shape::Other(_) => other_value_type(shape_of(node), env.globals),
                    _ => ValueType::Undetermined,
                },
            }
        }),
{
    let t = type_of(e, env);
    match e {
        Expr::Sequence { expressions, .. } => {
            if expressions.len() > 0 {
                assert(expression_shapes(expressions).last() == expressions[expressions.len()
                    - 1].shape());
            }
        },
        Expr::Chain { expression, .. } => {
            let inner = expression.shape();
        },
        _ => {},
    }
}

/// What a value is once it is converted to a primitive, by its type. Of objects, regular
/// expressions, arrays and objects without a conversion of their own become strings; of the others
/// nothing is known.
pub proof fn law_primitive(e: Expr<'_>, env: Env)
    requires
        is_valid(e),
        e is Object ==> forall|i: int|
            0 <= i < e->Object_properties.len() ==> is_valid_property(
                #[trigger] e->Object_properties[i],
            ),
    ensures
        primitive_of(e, env) == match type_of(e, env) {
            ValueType::Undefined => Primitive::Undefined,
            ValueType::Null => Primitive::Null,
            ValueType::Number => Primitive::Number,
            ValueType::BigInt => Primitive::BigInt,
            ValueType::String => Primitive::String,
            ValueType::Boolean => Primitive::Boolean,
            _ => match e {
                Expr::Array { .. } => Primitive::String,
                Expr::Object { properties, .. } => if forall|i: int|
                    0 <= i < properties.len() ==> !may_define_conversion(
                        #[trigger] properties[i],
                    ) {
                    Primitive::String
                } else {
                    Primitive::Undetermined
                },
                Expr::Other { node, .. } => if shape_of(node) is RegExp {
                    Primitive::String
                } else {
                    Primitive::Undetermined
                },
                _ => Primitive::Undetermined,
            },
        },
{
    law_type(e, env);
    lemma_chain_shape(e);
    match e {
        Expr::Object { properties, .. } => {
            let shapes = property_shapes(properties);
            assert(e.shape() == Shape::Object(shapes));
            lemma_conversions(properties);
            let overrides = exists|i: int|
                0 <= i < shapes.len() && overrides_conversion(#[trigger] shapes[i]);
            lemma_object_primitive(shapes, env.globals);
            if !overrides {
                assert(forall|i: int|
                    0 <= i < properties.len() ==> !may_define_conversion(#[trigger] properties[i]));
            } else {
                let i = choose|i: int|
                    0 <= i < properties.len() && may_define_conversion(#[trigger] properties[i]);
                assert(may_define_conversion(properties[i]));
            }
        },
        _ => {},
    }
}

proof fn lemma_conversions(properties: Seq<Prop<'_>>)
    requires
        forall|i: int|
            0 <= i < properties.len() ==> is_valid_property(#[trigger] properties[i]),
    ensures
        (exists|i: int|
            0 <= i < property_shapes(properties).len() && overrides_conversion(
                #[trigger] property_shapes(properties)[i],
            )) == (exists|i: int|
            0 <= i < properties.len() && may_define_conversion(#[trigger] properties[i])),
    decreases properties,
{
    let shapes = property_shapes(properties);
    assert forall|i: int| 0 <= i < properties.len() implies overrides_conversion(
        #[trigger] shapes[i],
    ) == may_define_conversion(properties[i]) by {
        assert(shapes[i] == properties[i].shape());
        lemma_conversion(properties[i]);
    }
    if exists|i: int| 0 <= i < shapes.len() && overrides_conversion(#[trigger] shapes[i]) {
        let i = choose|i: int| 0 <= i < shapes.len() && overrides_conversion(#[trigger] shapes[i]);
        assert(may_define_conversion(properties[i]));
    }
    if exists|i: int| 0 <= i < properties.len() && may_define_conversion(#[trigger] properties[i]) {
        let i = choose|i: int|
            0 <= i < properties.len() && may_define_conversion(#[trigger] properties[i]);
        assert(overrides_conversion(shapes[i]));
    }
}

proof fn lemma_conversion(property: Prop<'_>)
    requires
        is_valid_property(property),
    ensures
        overrides_conversion(property.shape()) == may_define_conversion(property),
    decreases property,
{
    let shape = property.shape();
    match property {
        Prop::Property { key, .. } => {
            let inner = key.shape();
            match key {
                Key::Expression(e) => {
                    lemma_key_text(e);
                    reveal_strlit("toString");
                    reveal_strlit("valueOf");
                    let none: Seq<char> = seq![];
                    assert(none.len() != "toString"@.len() && none.len() != "valueOf"@.len());
                    assert(inner == KeyShape::Expression(e.shape()));
                    assert(overrides_conversion(shape) == match key_text(e.shape()) {
                        Some(text) => text == "toString"@ || text == "valueOf"@,
                        None => true,
                    });
                    match e {
                        Expr::Str { .. } => {},
                        Expr::Template { .. } => {},
                        _ => {
                            assert(key_text(e.shape()) is None);
                        },
                    }
                    assert(overrides_conversion(shape) == may_define_conversion(property));
                },
                Key::Static { name, .. } => {
                    assert(inner == KeyShape::Static(name));
                    assert(overrides_conversion(shape) == is_conversion(name));
                    assert(may_define_conversion(property) == is_conversion(name));
                },
                Key::Private { name, .. } => {
                    assert(inner == KeyShape::Private(name));
                    assert(!overrides_conversion(shape));
                    assert(!may_define_conversion(property));
                },
            }
        },
        Prop::Spread { argument, .. } => {
            let inner = argument.shape();
            match argument {
                Expr::Object { properties, .. } => {
                    let shapes = property_shapes(properties);
                    lemma_conversions(properties);
                    assert(inner == Shape::Object(shapes));
                    assert(shape == PropertyShape::Spread(Shape::Object(shapes)));
                    if exists|i: int|
                        0 <= i < shapes.len() && overrides_conversion(#[trigger] shapes[i]) {
                        let i = choose|i: int|
                            0 <= i < shapes.len() && overrides_conversion(#[trigger] shapes[i]);
                        assert(overrides_conversion(shapes[i]));
                        lemma_spread_object(shapes, i);
                    } else {
                        assert forall|i: int| 0 <= i < shapes.len() implies !overrides_conversion(
                            #[trigger] shapes[i],
                        ) by {}
                        assert(!overrides_conversion(shape));
                    }
                    assert(may_define_conversion(property) == exists|i: int|
                        0 <= i < properties.len() && may_define_conversion(
                            #[trigger] properties[i],
                        ));
                },
                _ => {
                    lemma_chain_shape(argument);
                    assert(overrides_conversion(shape) == may_define_conversion(property));
                },
            }
        },
    }
}

proof fn lemma_object_primitive(s: Seq<PropertyShape>, globals: Seq<ReferenceId>)
    ensures
        primitive(Shape::Object(s), globals) == if exists|i: int|
            0 <= i < s.len() && overrides_conversion(#[trigger] s[i]) {
            Primitive::Undetermined
        } else {
            Primitive::String
        },
{
    let e = Shape::Object(s);
    assert(value_type(e, globals) is Object);
    assert(e->Object_0 == s);
}

proof fn lemma_spread_object(s: Seq<PropertyShape>, i: int)
    requires
        0 <= i < s.len(),
        overrides_conversion(s[i]),
    ensures
        overrides_conversion(PropertyShape::Spread(Shape::Object(s))),
{
    let e = PropertyShape::Spread(Shape::Object(s));
    assert(e->Spread_0->Object_0[i] == s[i]);
}

proof fn lemma_key_text(e: Expr<'_>)
    requires
        is_valid(e),
    ensures
        key_text(e.shape()) == match e {
            Expr::Str { value, .. } => Some(value),
            Expr::Template { quasis, expressions, .. } => if expressions.len() == 0 && quasis.len()
                == 1 {
                match quasis[0].cooked {
                    Some(text) => Some(text),
                    None => Some(seq![]),
                }
            } else {
                None
            },
            _ => None,
        },
        !is_uncooked(e.shape()),
{
    lemma_chain_shape(e);
    let shape = e.shape();
    match e {
        Expr::Template { quasis, expressions, .. } => {
            assert(expression_shapes(expressions).len() == expressions.len());
            assert(quasi_shapes(quasis).len() == quasis.len());
            if quasis.len() == 1 {
                assert(quasi_shapes(quasis)[0].cooked == Some(cooked_text(quasis[0].cooked)));
            }
        },
        _ => {},
    }
}

/// A chain is seen as a chain, or as a node that is carried through.
pub proof fn lemma_chain_shape(e: Expr<'_>)
    requires
        is_valid(e),
    ensures
        e is Chain ==> (e.shape() is Chain && *e.shape()->Chain_0 == e->Chain_expression.shape())
            || (e.shape() is Other && e.shape() == e->Chain_expression.shape()),
{
    match e {
        Expr::Chain { expression, .. } => {
            let inner = *expression;
            match inner {
                Expr::Other { node, .. } => {
                    assert(inner.shape() == shape_of(node));
                },
                _ => {},
            }
        },
        _ => {},
    }
}

/// A value is converted to a string without an error unless its primitive may be a symbol; it is a
/// string where its primitive is one.
pub proof fn law_conversion(e: Expr<'_>, env: Env)
    ensures
        converts_to_string(e, env) <==> !(primitive_of(e, env) is Undetermined || primitive_of(
            e,
            env,
        ) is Symbol),
        is_string(e, env) <==> primitive_of(e, env) is String,
{
}

/// Of the value of a variable that the program declares, of a property, and of what a call returns,
/// nothing is known: it has to be converted to a string, and is not taken for one.
pub proof fn law_unknown_value(e: Expr<'_>, env: Env)
    requires
        match e {
            Expr::Identifier(i) => !is_global(env.globals, i.reference_id),
            Expr::StaticMember { .. }
            | Expr::ComputedMember { .. }
            | Expr::Call { .. }
            | Expr::New { .. } => true,
            _ => false,
        },
    ensures
        !converts_to_string(e, env),
        !is_string(e, env),
{
    law_primitive(e, env);
    law_type(e, env);
}

/// `...e` is free of side effects only for array and template literals that are, and for string
/// literals.
pub proof fn law_spread(e: Expr<'_>, env: Env)
    requires
        is_valid(e),
    ensures
        spread_has_effects(e, env) == match e {
            Expr::Str { .. } => false,
            Expr::Array { .. } | Expr::Template { .. } => has_effects(e, env),
            _ => true,
        },
{
    lemma_chain_shape(e);
    let shape = e.shape();
}

/// Literals without parts, functions, `this`, `super` and meta properties have no side effects.
/// Reading a variable has some if and only if the program does not declare it, and it is none of
/// `NaN`, `Infinity` and `undefined`. What the tree does not look into may have some.
pub proof fn law_effects_of_leaves(e: Expr<'_>, env: Env)
    requires
        is_valid(e),
    ensures
        match e {
            Expr::Null { .. }
            | Expr::Str { .. }
            | Expr::Function { .. }
            | Expr::Arrow { .. } => !has_effects(e, env),
            Expr::Identifier(i) => has_effects(e, env) == (is_global(env.globals, i.reference_id)
                && !(i.name == "NaN"@ || i.name == "Infinity"@ || i.name == "undefined"@)),
            Expr::Other { node, .. } => has_effects(e, env) == (shape_of(node) is Other),
            _ => true,
        },
{
}

/// A unary operator has the side effects of its operand, but for `typeof` of a variable. `delete`
/// may always have some of its own, `+` unless the operand is surely converted to a number, and `-`
/// and `~` where it may be a symbol.
pub proof fn law_effects_of_unary_operators(e: Expr<'_>, env: Env)
    requires
        e is Unary,
        is_valid(*e->Unary_argument),
    ensures
        ({
            let argument = *e->Unary_argument;
            let p = primitive_of(argument, env);
            has_effects(e, env) == match e->Unary_operator {
                UnaryOperator::Delete => true,
                UnaryOperator::Void | UnaryOperator::LogicalNot => has_effects(argument, env),
                UnaryOperator::Typeof => argument !is Identifier && has_effects(argument, env),
                UnaryOperator::UnaryPlus => p is BigInt || p is Symbol || p is Undetermined
                    || has_effects(argument, env),
                UnaryOperator::UnaryNegation | UnaryOperator::BitwiseNot => p is Symbol || p
                    is Undetermined || has_effects(argument, env),
            }
        }),
{
    let argument = *e->Unary_argument;
    lemma_chain_shape(argument);
    let shape = e.shape();
    let inner = argument.shape();
}

/// A comparison has the side effects of its sides, and none of its own.
pub proof fn law_effects_of_comparisons(e: Expr<'_>, env: Env)
    requires
        e is Binary,
        ({
            let operator = e->Binary_operator;
            ||| operator is Equality
            ||| operator is Inequality
            ||| operator is StrictEquality
            ||| operator is StrictInequality
            ||| operator is LessThan
            ||| operator is LessEqualThan
            ||| operator is GreaterThan
            ||| operator is GreaterEqualThan
        }),
    ensures
        has_effects(e, env) == (has_effects(*e->Binary_left, env) || has_effects(
            *e->Binary_right,
            env,
        )),
{
    let shape = e.shape();
}

/// `in` may have side effects of its own. So may `instanceof`, unless the right side is a global
/// that holds a constructor and the type of the left side is known.
pub proof fn law_effects_of_relations(e: Expr<'_>, env: Env)
    requires
        e is Binary,
        is_valid(*e->Binary_right),
    ensures
        e->Binary_operator is In ==> has_effects(e, env),
        e->Binary_operator is Instanceof ==> has_effects(e, env) == !(type_of(
            *e->Binary_left,
            env,
        ) !is Undetermined && match *e->Binary_right {
            Expr::Identifier(i) => is_global(env.globals, i.reference_id) && is_constructor_name(
                i.name,
            ),
            _ => false,
        }),
{
    lemma_chain_shape(*e->Binary_right);
    let shape = e.shape();
    let inner = e->Binary_right.shape();
}

/// A sum has the side effects of its sides. Adding them has none where one is a string and the
/// other no symbol, or both are numbers, or both bigints.
pub proof fn law_effects_of_sums(e: Expr<'_>, env: Env)
    requires
        e is Binary,
        e->Binary_operator is Addition,
    ensures
        ({
            let l = primitive_of(*e->Binary_left, env);
            let r = primitive_of(*e->Binary_right, env);
            let is_number_like = |p: Primitive|
                p is Undefined || p is Null || p is Boolean || p is Number || p is String;
            has_effects(e, env) == !({
                &&& !has_effects(*e->Binary_left, env)
                &&& !has_effects(*e->Binary_right, env)
                &&& {
                    ||| l is String && !(r is Symbol || r is Undetermined)
                    ||| r is String && !(l is Symbol || l is Undetermined)
                    ||| is_number_like(l) && is_number_like(r)
                    ||| l is BigInt && r is BigInt
                }
            })
        }),
{
    let shape = e.shape();
}

/// Arithmetic but for sums has the side effects of its sides. Computing it has none where both are
/// numbers, or both are bigints that `>>>` is not applied to, that are not divided by what may be
/// zero, nor raised to what may be negative.
pub proof fn law_effects_of_arithmetic(e: Expr<'_>, env: Env)
    requires
        e is Binary,
        is_valid(*e->Binary_right),
        ({
            let operator = e->Binary_operator;
            ||| operator is Subtraction
            ||| operator is Multiplication
            ||| operator is Division
            ||| operator is Remainder
            ||| operator is Exponential
            ||| operator is ShiftLeft
            ||| operator is ShiftRight
            ||| operator is ShiftRightZeroFill
            ||| operator is BitwiseOR
            ||| operator is BitwiseXOR
            ||| operator is BitwiseAnd
        }),
    ensures
        ({
            let operator = e->Binary_operator;
            let l = primitive_of(*e->Binary_left, env);
            let r = primitive_of(*e->Binary_right, env);
            let is_number_like = |p: Primitive|
                p is Undefined || p is Null || p is Boolean || p is Number || p is String;
            let literal = match *e->Binary_right {
                Expr::Other { node, .. } => match shape_of(node) {
                    Shape::BigInt(raw) => Some(raw),
                    _ => None,
                },
                _ => None,
            };
            has_effects(e, env) == !({
                &&& !has_effects(*e->Binary_left, env)
                &&& !has_effects(*e->Binary_right, env)
                &&& {
                    ||| is_number_like(l) && is_number_like(r)
                    ||| {
                        &&& l is BigInt && r is BigInt
                        &&& operator !is ShiftRightZeroFill
                        &&& operator is Division || operator is Remainder ==> literal is Some
                            && literal->Some_0 != "0n"@
                        &&& operator is Exponential ==> literal is Some && !(literal->Some_0.len()
                            > 0 && literal->Some_0[0] == '-')
                    }
                }
            })
        }),
{
    lemma_chain_shape(*e->Binary_right);
    let shape = e.shape();
    let inner = e->Binary_right.shape();
}

/// `&&`, `||`, `??`, `?:` and the comma have the side effects of all their parts. Parentheses and
/// optional chains have those of what is in them.
pub proof fn law_effects_of_branches(e: Expr<'_>, env: Env)
    requires
        is_valid(e),
    ensures
        match e {
            Expr::Logical { left, right, .. } => has_effects(e, env) == (has_effects(*left, env)
                || has_effects(*right, env)),
            Expr::Conditional { test, consequent, alternate, .. } => has_effects(e, env) == (
            has_effects(*test, env) || has_effects(*consequent, env) || has_effects(
                *alternate,
                env,
            )),
            Expr::Sequence { expressions, .. } => has_effects(e, env) == exists|i: int|
                0 <= i < expressions.len() && has_effects(#[trigger] expressions[i], env),
            Expr::Parenthesized { expression, .. } => has_effects(e, env) == has_effects(
                *expression,
                env,
            ),
            Expr::Chain { expression, .. } => has_effects(e, env) == has_effects(*expression, env),
            _ => true,
        },
{
    lemma_chain_shape(e);
    let shape = e.shape();
    match e {
        Expr::Sequence { expressions, .. } => {
            let shapes = expression_shapes(expressions);
            assert(shape == Shape::Sequence(shapes));
            if has_effects(e, env) {
                let i = choose|i: int|
                    0 <= i < shapes.len() && may_have_side_effects(
                        #[trigger] shapes[i],
                        env.globals,
                    );
                assert(has_effects(expressions[i], env));
            }
            if exists|i: int|
                0 <= i < expressions.len() && has_effects(#[trigger] expressions[i], env) {
                let i = choose|i: int|
                    0 <= i < expressions.len() && has_effects(#[trigger] expressions[i], env);
                assert(may_have_side_effects(shapes[i], env.globals));
                assert(shape->Sequence_0[i] == shapes[i]);
            }
        },
        _ => {},
    }
}

/// Template, array and object literals have the side effects of their parts, and those of
/// converting a substitution to a string and of spreading a value.
pub proof fn law_effects_of_literals(e: Expr<'_>, env: Env)
    ensures
        match e {
            Expr::Template { expressions, .. } => has_effects(e, env) == exists|i: int|
                0 <= i < expressions.len() && (has_effects(#[trigger] expressions[i], env)
                    || !converts_to_string(expressions[i], env)),
            Expr::Array { elements, .. } => has_effects(e, env) == exists|i: int|
                0 <= i < elements.len() && match #[trigger] elements[i] {
                    Element::Spread { argument, .. } => spread_has_effects(argument, env),
                    Element::Elision { .. } => false,
                    Element::Expression(x) => has_effects(x, env),
                },
            Expr::Object { properties, .. } => has_effects(e, env) == exists|i: int|
                0 <= i < properties.len() && match #[trigger] properties[i] {
                    Prop::Property { key: Key::Expression(x), value, .. } => has_effects(x, env)
                        || has_effects(value, env),
                    Prop::Property { value, .. } => has_effects(value, env),
                    Prop::Spread { argument, .. } => spread_has_effects(argument, env),
                },
            _ => true,
        },
{
    let shape = e.shape();
    match e {
        Expr::Template { quasis, expressions, .. } => {
            let shapes = expression_shapes(expressions);
            assert(shape->Template_expressions == shapes);
            assert forall|i: int| 0 <= i < expressions.len() implies (
            substitution_may_have_side_effects(#[trigger] shapes[i], env.globals)) == (has_effects(
                expressions[i],
                env,
            ) || !converts_to_string(expressions[i], env)) by {
                assert(shapes[i] == expressions[i].shape());
            }
            if has_effects(e, env) {
                let i = choose|i: int|
                    0 <= i < shapes.len() && substitution_may_have_side_effects(
                        #[trigger] shapes[i],
                        env.globals,
                    );
                assert(expressions[i].shape() == shapes[i]);
            }
            if exists|i: int|
                0 <= i < expressions.len() && (has_effects(#[trigger] expressions[i], env)
                    || !converts_to_string(expressions[i], env)) {
                let i = choose|i: int|
                    0 <= i < expressions.len() && (has_effects(#[trigger] expressions[i], env)
                        || !converts_to_string(expressions[i], env));
                assert(substitution_may_have_side_effects(shapes[i], env.globals));
            }
        },
        Expr::Array { elements, .. } => {
            let shapes = element_shapes(elements);
            assert(shape == Shape::Array(shapes));
            assert forall|i: int| 0 <= i < elements.len() implies element_may_have_side_effects(
                #[trigger] shapes[i],
                env.globals,
            ) == match elements[i] {
                Element::Spread { argument, .. } => spread_has_effects(argument, env),
                Element::Elision { .. } => false,
                Element::Expression(x) => has_effects(x, env),
            } by {
                assert(shapes[i] == elements[i].shape());
            }
            if has_effects(e, env) {
                let i = choose|i: int|
                    0 <= i < shapes.len() && element_may_have_side_effects(
                        #[trigger] shapes[i],
                        env.globals,
                    );
                let element = elements[i];
            }
            assert forall|i: int|
                0 <= i < elements.len() && match #[trigger] elements[i] {
                    Element::Spread { argument, .. } => spread_has_effects(argument, env),
                    Element::Elision { .. } => false,
                    Element::Expression(x) => has_effects(x, env),
                } implies has_effects(e, env) by {
                lemma_array_effects(shapes, i, env.globals);
            }
        },
        Expr::Object { properties, .. } => {
            let shapes = property_shapes(properties);
            assert(shape == Shape::Object(shapes));
            assert forall|i: int| 0 <= i < properties.len() implies property_may_have_side_effects(
                #[trigger] shapes[i],
                env.globals,
            ) == match properties[i] {
                Prop::Property { key: Key::Expression(x), value, .. } => has_effects(x, env)
                    || has_effects(value, env),
                Prop::Property { value, .. } => has_effects(value, env),
                Prop::Spread { argument, .. } => spread_has_effects(argument, env),
            } by {
                assert(shapes[i] == properties[i].shape());
                match properties[i] {
                    Prop::Property { key, .. } => {
                        lemma_key_effects(key, env);
                    },
                    _ => {},
                }
            }
            if has_effects(e, env) {
                let i = choose|i: int|
                    0 <= i < shapes.len() && property_may_have_side_effects(
                        #[trigger] shapes[i],
                        env.globals,
                    );
                let property = properties[i];
            }
            assert forall|i: int|
                0 <= i < properties.len() && match #[trigger] properties[i] {
                    Prop::Property { key: Key::Expression(x), value, .. } => has_effects(x, env)
                        || has_effects(value, env),
                    Prop::Property { value, .. } => has_effects(value, env),
                    Prop::Spread { argument, .. } => spread_has_effects(argument, env),
                } implies has_effects(e, env) by {
                lemma_object_effects(shapes, i, env.globals);
            }
        },
        _ => {},
    }
}

proof fn lemma_array_effects(s: Seq<ElementShape>, i: int, globals: Seq<ReferenceId>)
    requires
        0 <= i < s.len(),
        element_may_have_side_effects(s[i], globals),
    ensures
        may_have_side_effects(Shape::Array(s), globals),
{
    let e = Shape::Array(s);
    assert(e->Array_0[i] == s[i]);
}

proof fn lemma_object_effects(s: Seq<PropertyShape>, i: int, globals: Seq<ReferenceId>)
    requires
        0 <= i < s.len(),
        property_may_have_side_effects(s[i], globals),
    ensures
        may_have_side_effects(Shape::Object(s), globals),
{
    let e = Shape::Object(s);
    assert(e->Object_0[i] == s[i]);
}

proof fn lemma_key_effects(key: Key<'_>, env: Env)
    ensures
        key_may_have_side_effects(key.shape(), env.globals) == match key {
            Key::Expression(x) => has_effects(x, env),
            _ => false,
        },
{
    let shape = key.shape();
}

/// A call that is not marked as pure may have side effects. One that is has those of its arguments.
pub proof fn law_effects_of_calls(e: Expr<'_>, env: Env)
    ensures
        ({
            let any = |arguments: Seq<Arg<'_>>|
                exists|i: int|
                    0 <= i < arguments.len() && match #[trigger] arguments[i] {
                        Arg::Spread { argument, .. } => spread_has_effects(argument, env),
                        Arg::Expression(x) => has_effects(x, env),
                    };
            match e {
                Expr::Call { arguments, pure, .. } => has_effects(e, env) == (!pure || any(
                    arguments,
                )),
                Expr::New { arguments, pure, .. } => has_effects(e, env) == (!pure || any(
                    arguments,
                )),
                _ => true,
            }
        }),
{
    let shape = e.shape();
    match e {
        Expr::Call { arguments, .. } => {
            lemma_arguments_effects(arguments, env);
        },
        Expr::New { arguments, .. } => {
            lemma_arguments_effects(arguments, env);
        },
        _ => {},
    }
}

proof fn lemma_arguments_effects(arguments: Seq<Arg<'_>>, env: Env)
    ensures
        arguments_may_have_side_effects(argument_shapes(arguments), env.globals) == exists|i: int|
            0 <= i < arguments.len() && match #[trigger] arguments[i] {
                Arg::Spread { argument, .. } => spread_has_effects(argument, env),
                Arg::Expression(x) => has_effects(x, env),
            },
{
    let shapes = argument_shapes(arguments);
    assert forall|i: int| 0 <= i < arguments.len() implies argument_may_have_side_effects(
        #[trigger] shapes[i],
        env.globals,
    ) == match arguments[i] {
        Arg::Spread { argument, .. } => spread_has_effects(argument, env),
        Arg::Expression(x) => has_effects(x, env),
    } by {
        assert(shapes[i] == arguments[i].shape());
    }
    if arguments_may_have_side_effects(shapes, env.globals) {
        let i = choose|i: int|
            0 <= i < shapes.len() && argument_may_have_side_effects(
                #[trigger] shapes[i],
                env.globals,
            );
        let argument = arguments[i];
    }
    assert forall|i: int|
        0 <= i < arguments.len() && match #[trigger] arguments[i] {
            Arg::Spread { argument, .. } => spread_has_effects(argument, env),
            Arg::Expression(x) => has_effects(x, env),
        } implies arguments_may_have_side_effects(shapes, env.globals) by {
        assert(argument_may_have_side_effects(shapes[i], env.globals));
    }
}

/// Reading a property by its name may have side effects, unless it is the `length` of an array
/// literal or of a string that are evaluated without.
pub proof fn law_effects_of_named_reads(e: Expr<'_>, env: Env)
    requires
        e is StaticMember,
        is_valid(*e->StaticMember_object),
    ensures
        ({
            let object = *e->StaticMember_object;
            has_effects(e, env) == !(e->StaticMember_property == "length"@ && !has_effects(
                object,
                env,
            ) && (object is Array || type_of(object, env) is String))
        }),
{
    let shape = e.shape();
    lemma_read(*e->StaticMember_object, e->StaticMember_property, env);
}

/// Reading a property by a key that is a text is like reading it by its name. What reading an index
/// of an array or a string literal does is up to the index. Any other key may have side effects.
pub proof fn law_effects_of_computed_reads(e: Expr<'_>, env: Env)
    requires
        e is ComputedMember,
        is_valid(*e->ComputedMember_object),
        is_valid(*e->ComputedMember_expression),
    ensures
        ({
            let object = *e->ComputedMember_object;
            let key = *e->ComputedMember_expression;
            let text = match key {
                Expr::Str { value, .. } => Some(value),
                Expr::Template { quasis, expressions, .. } => if expressions.len() == 0
                    && quasis.len() == 1 {
                    quasis[0].cooked
                } else {
                    None
                },
                _ => None,
            };
            let is_index = match key {
                Expr::Other { node, .. } => shape_of(node) is Number || shape_of(node) is BigInt,
                _ => false,
            };
            has_effects(e, env) == if is_index && (object is Array || object is Str) {
                index_may_have_side_effects(
                    Shape::ComputedMember {
                        object: Box::new(object.shape()),
                        expression: Box::new(shape_of(key->Other_node)),
                        optional: e->ComputedMember_optional,
                    },
                    env.globals,
                )
            } else {
                !(text == Some("length"@) && !has_effects(object, env) && (object is Array
                    || type_of(object, env) is String))
            }
        }),
{
    let object = *e->ComputedMember_object;
    let key = *e->ComputedMember_expression;
    let shape = e.shape();
    let inner = object.shape();
    let key_shape = key.shape();
    reveal_strlit("length");
    lemma_chain_shape(object);
    lemma_chain_shape(key);
    lemma_key_text(key);
    match key_text(key_shape) {
        Some(text) => {
            lemma_read(object, text, env);
            let none: Seq<char> = seq![];
            assert(none.len() != "length"@.len());
        },
        None => {},
    }
}

proof fn lemma_read(object: Expr<'_>, name: Seq<char>, env: Env)
    requires
        is_valid(object),
    ensures
        read_may_have_side_effects(object.shape(), name, env.globals) == !(name == "length"@
            && !has_effects(object, env) && (object is Array || type_of(object, env) is String)),
{
    lemma_chain_shape(object);
    let shape = object.shape();
}

/// The elements of an array literal, as a read of an index sees them: each in its place.
pub proof fn law_indexed_elements(e: Expr<'_>, i: int)
    requires
        e is Array,
        0 <= i < e->Array_elements.len(),
    ensures
        e.shape() is Array,
        e.shape()->Array_0.len() == e->Array_elements.len(),
        e.shape()->Array_0[i] == match e->Array_elements[i] {
            Element::Spread { argument, .. } => ElementShape::Spread(argument.shape()),
            Element::Elision { .. } => ElementShape::Elision,
            Element::Expression(x) => ElementShape::Expression(x.shape()),
        },
{
    assert(element_shapes(e->Array_elements)[i] == e->Array_elements[i].shape());
}

/// A string literal, as a read of an index sees it: all of its text.
pub proof fn law_indexed_string(e: Expr<'_>)
    requires
        e is Str,
    ensures
        e.shape() == Shape::Str(e->Str_value),
{
}

/// Evaluating a class runs its decorators and its static blocks, and evaluates its superclass, the
/// keys that are expressions and the values of static properties, but nothing else.
pub proof fn law_effects_of_classes(e: Expr<'_>, env: Env)
    requires
        e is Class,
    ensures
        ({
            let key_effects = |key: Key<'_>|
                match key {
                    Key::Expression(x) => has_effects(x, env),
                    _ => false,
                };
            let elements = e->Class_elements;
            has_effects(e, env) == ({
                ||| e->Class_decorators.len() > 0
                ||| e->Class_super_class is Some && has_effects(*e->Class_super_class->Some_0, env)
                ||| exists|i: int|
                    0 <= i < elements.len() && match #[trigger] elements[i] {
                        Member::StaticBlock { statements, .. } => statements.len() > 0,
                        Member::Method { decorators, key, .. } => decorators.len() > 0
                            || key_effects(key),
                        Member::Property { decorators, key, value, is_static, .. } =>
                            decorators.len() > 0 || key_effects(key) || (is_static && value is Some
                                && has_effects(value->Some_0, env)),
                        Member::Accessor { decorators, key, .. } => decorators.len() > 0
                            || key_effects(key),
                        Member::IndexSignature { .. } => false,
                    }
            })
        }),
{
    let elements = e->Class_elements;
    let shapes = member_shapes(elements);
    let shape = e.shape();
    assert(shape->Class_elements == shapes);
    assert forall|i: int| 0 <= i < elements.len() implies class_element_may_have_side_effects(
        #[trigger] shapes[i],
        env.globals,
    ) == runs(elements[i], env) by {
        assert(shapes[i] == elements[i].shape());
        lemma_member_effects(elements[i], env);
    }
    lemma_class_effects(
        shape->Class_decorated,
        shape->Class_super_class,
        shapes,
        env.globals,
    );
    if exists|i: int|
        0 <= i < shapes.len() && class_element_may_have_side_effects(
            #[trigger] shapes[i],
            env.globals,
        ) {
        let i = choose|i: int|
            0 <= i < shapes.len() && class_element_may_have_side_effects(
                #[trigger] shapes[i],
                env.globals,
            );
        assert(runs(elements[i], env));
    } else {
        assert forall|i: int| 0 <= i < elements.len() implies !runs(
            #[trigger] elements[i],
            env,
        ) by {
            assert(!class_element_may_have_side_effects(shapes[i], env.globals));
        }
    }
}

spec fn runs(member: Member<'_>, env: Env) -> bool {
    let key_effects = |key: Key<'_>|
        match key {
            Key::Expression(x) => has_effects(x, env),
            _ => false,
        };
    match member {
        Member::StaticBlock { statements, .. } => statements.len() > 0,
        Member::Method { decorators, key, .. } => decorators.len() > 0 || key_effects(key),
        Member::Property { decorators, key, value, is_static, .. } => decorators.len() > 0
            || key_effects(key) || (is_static && value is Some && has_effects(
            value->Some_0,
            env,
        )),
        Member::Accessor { decorators, key, .. } => decorators.len() > 0 || key_effects(key),
        Member::IndexSignature { .. } => false,
    }
}

proof fn lemma_member_effects(member: Member<'_>, env: Env)
    ensures
        class_element_may_have_side_effects(member.shape(), env.globals) == runs(member, env),
{
    let shape = member.shape();
    match member {
        Member::Method { key, .. } => {
            lemma_key_effects(key, env);
        },
        Member::Property { key, .. } => {
            lemma_key_effects(key, env);
        },
        Member::Accessor { key, .. } => {
            lemma_key_effects(key, env);
        },
        _ => {},
    }
}

proof fn lemma_class_effects(
    decorated: bool,
    super_class: Option<Box<Shape>>,
    s: Seq<ClassElementShape>,
    globals: Seq<ReferenceId>,
)
    ensures
        may_have_side_effects(Shape::Class { decorated, super_class, elements: s }, globals) == ({
            ||| decorated
            ||| super_class is Some && may_have_side_effects(*super_class->Some_0, globals)
            ||| exists|i: int|
                0 <= i < s.len() && class_element_may_have_side_effects(#[trigger] s[i], globals)
        }),
{
    let e = Shape::Class { decorated, super_class, elements: s };
    assert(e->Class_elements == s);
}

} // verus!
