//! The static analyses of `oxc_ecmascript`, asked about an expression of this library.
use crate::ast::Expression;
use crate::ctx::{is_global, Ctx};
use crate::nodes::{element_shape_of, lower, new_arena, node_spread_element};
use crate::shape::{
    is_readable, is_readable_element, shape_of, ArgumentShape, ClassElementShape, ElementShape,
    KeyShape, PropertyShape, Shape,
};
use oxc_ast::ast::ArrayExpressionElement as ElementNode;
use oxc_ast::ast::Expression as Node;
use oxc_ecmascript::constant_evaluation::{DetermineValueType, ValueType};
use oxc_ecmascript::side_effects::MayHaveSideEffects;
use oxc_ecmascript::ToPrimitive;
use oxc_syntax::operator::{BinaryOperator, UnaryOperator};
use oxc_syntax::reference::ReferenceId;
use vstd::prelude::*;

verus! {

#[verifier::external_type_specification]
pub struct ExValueType(ValueType);

/// What `MayHaveSideEffects` answers for a read of an index, see [`reads_index`].
pub uninterp spec fn index_may_have_side_effects(shape: Shape, globals: Seq<ReferenceId>) -> bool;

/// Whether the expression reads an index, a number or a bigint, of an array literal or a string
/// literal: `[a, b][0]`. Only the side effects of such a read are given by name.
pub open spec fn reads_index(shape: Shape) -> bool {
    match shape {
        Shape::ComputedMember { object, expression, .. } => (*object is Str || *object is Array)
            && (*expression is Number || *expression is BigInt),
        _ => false,
    }
}

/// What `MayHaveSideEffects` answers for an expression.
///
/// Literals, functions, `this`, `super` and meta properties have no side effects. Reading a
/// variable may have some if and only if the program does not declare it, and it is none of `NaN`,
/// `Infinity` and `undefined`. Operators have those of their sides, and those of converting a side
/// that may be a symbol, or a bigint where the other side may be none. Literals and classes have
/// those of their parts. A call that is not marked as pure may have some, one that is has those of
/// its arguments. Reading a property may have some, unless it is the `length` of an array literal
/// or of a string, or an index of a literal. So may any expression that has no shape of its own.
pub open spec fn may_have_side_effects(shape: Shape, globals: Seq<ReferenceId>) -> bool
    decreases shape, 0nat,
{
    match shape {
        Shape::Null
        | Shape::Str(_)
        | Shape::Number(_)
        | Shape::Boolean(_)
        | Shape::BigInt(_)
        | Shape::RegExp(_)
        | Shape::This
        | Shape::Super
        | Shape::Meta { .. }
        | Shape::Function => false,
        Shape::Identifier { name, reference_id } => name != "NaN"@ && name != "Infinity"@ && name
            != "undefined"@ && is_global(globals, reference_id),
        Shape::Template { expressions, .. } => exists|i: int|
            0 <= i < expressions.len() && substitution_may_have_side_effects(
                #[trigger] expressions[i],
                globals,
            ),
        Shape::Array(elements) => exists|i: int|
            0 <= i < elements.len() && element_may_have_side_effects(
                #[trigger] elements[i],
                globals,
            ),
        Shape::Object(properties) => exists|i: int|
            0 <= i < properties.len() && property_may_have_side_effects(
                #[trigger] properties[i],
                globals,
            ),
        Shape::Class { decorated, super_class, elements } => {
            ||| decorated
            ||| super_class is Some && may_have_side_effects(*super_class->Some_0, globals)
            ||| exists|i: int|
                0 <= i < elements.len() && class_element_may_have_side_effects(
                    #[trigger] elements[i],
                    globals,
                )
        },
        Shape::Unary { operator, argument } => match operator {
            UnaryOperator::Delete => true,
            UnaryOperator::Void | UnaryOperator::LogicalNot => may_have_side_effects(
                *argument,
                globals,
            ),
            UnaryOperator::Typeof => !(*argument is Identifier) && may_have_side_effects(
                *argument,
                globals,
            ),
            UnaryOperator::UnaryPlus => numeric(primitive(*argument, globals)) !is Number
                || may_have_side_effects(*argument, globals),
            UnaryOperator::UnaryNegation | UnaryOperator::BitwiseNot => primitive_is_symbol(
                *argument,
                globals,
            ) != Some(false) || may_have_side_effects(*argument, globals),
        },
        Shape::Binary { left, operator, right } => {
            let sides = may_have_side_effects(*left, globals) || may_have_side_effects(
                *right,
                globals,
            );
            if is_comparison(operator) {
                sides
            } else if operator is Addition {
                !adds_safely(primitive(*left, globals), primitive(*right, globals)) || sides
            } else if operator is In {
                true
            } else if operator is Instanceof {
                !(is_known_constructor(*right, globals) && value_type(*left, globals)
                    !is Undetermined)
            } else if numeric(primitive(*left, globals)) is BigInt && numeric(
                primitive(*right, globals),
            ) is BigInt {
                !computes_safely(operator, *right) || sides
            } else {
                numeric(primitive(*left, globals)) !is Number || numeric(
                    primitive(*right, globals),
                ) !is Number || sides
            }
        },
        Shape::Logical { left, right, .. } => may_have_side_effects(*left, globals)
            || may_have_side_effects(*right, globals),
        Shape::Conditional { test, consequent, alternate } => may_have_side_effects(*test, globals)
            || may_have_side_effects(*consequent, globals) || may_have_side_effects(
            *alternate,
            globals,
        ),
        Shape::Sequence(expressions) => exists|i: int|
            0 <= i < expressions.len() && may_have_side_effects(#[trigger] expressions[i], globals),
        Shape::Call { arguments, pure, .. } => !pure || arguments_may_have_side_effects(
            arguments,
            globals,
        ),
        Shape::New { arguments, pure, .. } => !pure || arguments_may_have_side_effects(
            arguments,
            globals,
        ),
        Shape::StaticMember { object, property, .. } => read_may_have_side_effects(
            *object,
            property,
            globals,
        ),
        Shape::ComputedMember { object, expression, .. } => match key_text(*expression) {
            Some(property) => read_may_have_side_effects(*object, property, globals),
            None => !reads_index(shape) || index_may_have_side_effects(shape, globals),
        },
        Shape::Chain(links) => may_have_side_effects(*links, globals),
        Shape::Parenthesized(e) => may_have_side_effects(*e, globals),
        Shape::Other(_) => true,
    }
}

/// What `MayHaveSideEffects` answers for a substitution of a template literal: those of evaluating
/// it, and of converting it to a string.
pub open spec fn substitution_may_have_side_effects(
    e: Shape,
    globals: Seq<ReferenceId>,
) -> bool
    decreases e, 1nat,
{
    primitive_is_symbol(e, globals) != Some(false) || may_have_side_effects(e, globals)
}

/// What `MayHaveSideEffects` answers for `...argument`, as an array element, an argument or a
/// property: arrays, strings and templates are spread without side effects.
pub open spec fn spread_may_have_side_effects(
    argument: Shape,
    globals: Seq<ReferenceId>,
) -> bool
    decreases argument, 1nat,
{
    match argument {
        Shape::Array(_) => may_have_side_effects(argument, globals),
        Shape::Template { .. } => may_have_side_effects(argument, globals),
        Shape::Str(_) => false,
        _ => true,
    }
}

/// What `MayHaveSideEffects` answers for an array element.
pub open spec fn element_may_have_side_effects(
    element: ElementShape,
    globals: Seq<ReferenceId>,
) -> bool
    decreases element, 0nat,
{
    match element {
        ElementShape::Spread(argument) => spread_may_have_side_effects(argument, globals),
        ElementShape::Elision => false,
        ElementShape::Expression(e) => may_have_side_effects(e, globals),
    }
}

/// What `MayHaveSideEffects` answers for an argument.
pub open spec fn argument_may_have_side_effects(
    argument: ArgumentShape,
    globals: Seq<ReferenceId>,
) -> bool
    decreases argument, 0nat,
{
    match argument {
        ArgumentShape::Spread(argument) => spread_may_have_side_effects(argument, globals),
        ArgumentShape::Expression(e) => may_have_side_effects(e, globals),
    }
}

/// Whether one of the arguments may have side effects.
pub open spec fn arguments_may_have_side_effects(
    arguments: Seq<ArgumentShape>,
    globals: Seq<ReferenceId>,
) -> bool
    decreases arguments, 0nat,
{
    exists|i: int|
        0 <= i < arguments.len() && argument_may_have_side_effects(
            #[trigger] arguments[i],
            globals,
        )
}

/// What `MayHaveSideEffects` answers for a property key. Converting it has none.
pub open spec fn key_may_have_side_effects(key: KeyShape, globals: Seq<ReferenceId>) -> bool
    decreases key, 0nat,
{
    match key {
        KeyShape::Expression(e) => may_have_side_effects(e, globals),
        _ => false,
    }
}

/// What `MayHaveSideEffects` answers for a property of an object literal.
pub open spec fn property_may_have_side_effects(
    property: PropertyShape,
    globals: Seq<ReferenceId>,
) -> bool
    decreases property, 0nat,
{
    match property {
        PropertyShape::Property { key, value, .. } => key_may_have_side_effects(key, globals)
            || may_have_side_effects(value, globals),
        PropertyShape::Spread(argument) => spread_may_have_side_effects(argument, globals),
    }
}

/// What `MayHaveSideEffects` answers for an element of a class: a static block that is not empty
/// may have side effects, and so may a decorator. A key is evaluated, and so is the value of a
/// static property.
pub open spec fn class_element_may_have_side_effects(
    element: ClassElementShape,
    globals: Seq<ReferenceId>,
) -> bool
    decreases element, 0nat,
{
    match element {
        ClassElementShape::StaticBlock { empty } => !empty,
        ClassElementShape::Method { decorated, key } => decorated || key_may_have_side_effects(
            key,
            globals,
        ),
        ClassElementShape::Property { decorated, key, value, is_static } => {
            ||| decorated
            ||| key_may_have_side_effects(key, globals)
            ||| is_static && value is Some && may_have_side_effects(value->Some_0, globals)
        },
        ClassElementShape::Accessor { decorated, key } => decorated || key_may_have_side_effects(
            key,
            globals,
        ),
        ClassElementShape::IndexSignature => false,
    }
}

/// What `MayHaveSideEffects` answers for a read of a property of that name: only the `length` of an
/// array literal or of a string is read without side effects.
pub open spec fn read_may_have_side_effects(
    object: Shape,
    property: Seq<char>,
    globals: Seq<ReferenceId>,
) -> bool
    decreases object, 1nat,
{
    may_have_side_effects(object, globals) || property != "length"@ || !(object is Array
        || value_type(object, globals) is String)
}

/// The text of a key that is a string literal, or a template literal without substitutions.
pub open spec fn key_text(key: Shape) -> Option<Seq<char>> {
    match key {
        Shape::Str(text) => Some(text),
        Shape::Template { quasis, expressions } => if expressions.len() == 0 && quasis.len() == 1 {
            quasis[0].cooked
        } else {
            None
        },
        _ => None,
    }
}

/// Whether `e` is a global variable that holds a constructor of the language.
pub open spec fn is_known_constructor(e: Shape, globals: Seq<ReferenceId>) -> bool {
    match e {
        Shape::Identifier { name, reference_id } => is_constructor_name(name) && is_global(
            globals,
            reference_id,
        ),
        _ => false,
    }
}

/// The names that `MayHaveSideEffects` takes for constructors of the language. It has
/// `BitUint64Array` where the language has `BigUint64Array`.
pub open spec fn is_constructor_name(name: Seq<char>) -> bool {
    ||| name == "AggregateError"@
    ||| name == "Array"@
    ||| name == "ArrayBuffer"@
    ||| name == "BigInt"@
    ||| name == "BigInt64Array"@
    ||| name == "BitUint64Array"@
    ||| name == "Boolean"@
    ||| name == "DataView"@
    ||| name == "Date"@
    ||| name == "Error"@
    ||| name == "EvalError"@
    ||| name == "FinalizationRegistry"@
    ||| name == "Float32Array"@
    ||| name == "Float64Array"@
    ||| name == "Function"@
    ||| name == "Int8Array"@
    ||| name == "Int16Array"@
    ||| name == "Int32Array"@
    ||| name == "Iterator"@
    ||| name == "Map"@
    ||| name == "Number"@
    ||| name == "Object"@
    ||| name == "Promise"@
    ||| name == "Proxy"@
    ||| name == "RangeError"@
    ||| name == "ReferenceError"@
    ||| name == "RegExp"@
    ||| name == "Set"@
    ||| name == "SharedArrayBuffer"@
    ||| name == "String"@
    ||| name == "Symbol"@
    ||| name == "SyntaxError"@
    ||| name == "TypeError"@
    ||| name == "Uint8Array"@
    ||| name == "Uint8ClampedArray"@
    ||| name == "Uint16Array"@
    ||| name == "Uint32Array"@
    ||| name == "URIError"@
    ||| name == "WeakMap"@
    ||| name == "WeakSet"@
}

/// Whether the arithmetic operator, but for `+`, throws no error on bigints: `>>>` always may,
/// `**` unless the right side is a literal that is not negative, `/` and `%` unless it is a literal
/// that is not zero.
pub open spec fn computes_safely(operator: BinaryOperator, right: Shape) -> bool {
    match operator {
        BinaryOperator::ShiftRightZeroFill => false,
        BinaryOperator::Exponential => match right {
            Shape::BigInt(raw) => !(raw.len() > 0 && raw[0] == '-'),
            _ => false,
        },
        BinaryOperator::Division | BinaryOperator::Remainder => match right {
            Shape::BigInt(raw) => raw != "0n"@,
            _ => false,
        },
        _ => true,
    }
}

/// Whether adding values of those primitives throws no error: one is a string and the other no
/// symbol, or both are numbers, or both bigints.
pub open spec fn adds_safely(left: Primitive, right: Primitive) -> bool {
    if left is String || right is String {
        !may_be_symbol(left) && !may_be_symbol(right)
    } else {
        (numeric(left) is Number && numeric(right) is Number) || (numeric(left) is BigInt
            && numeric(right) is BigInt)
    }
}

pub open spec fn may_be_symbol(p: Primitive) -> bool {
    p is Symbol || p is Undetermined
}

/// What a primitive is as a number: a number, a bigint or unknown.
pub open spec fn numeric(p: Primitive) -> Primitive {
    match p {
        Primitive::Symbol | Primitive::Undetermined => Primitive::Undetermined,
        Primitive::BigInt => Primitive::BigInt,
        _ => Primitive::Number,
    }
}

/// `==`, `!=`, `===`, `!==`, `<`, `<=`, `>` and `>=`.
pub open spec fn is_comparison(operator: BinaryOperator) -> bool {
    match operator {
        BinaryOperator::Equality
        | BinaryOperator::Inequality
        | BinaryOperator::StrictEquality
        | BinaryOperator::StrictInequality
        | BinaryOperator::LessThan
        | BinaryOperator::LessEqualThan
        | BinaryOperator::GreaterThan
        | BinaryOperator::GreaterEqualThan => true,
        _ => false,
    }
}

/// What `DetermineValueType` answers for an expression that has no shape of its own.
pub uninterp spec fn other_value_type(shape: Shape, globals: Seq<ReferenceId>) -> ValueType;

/// What `DetermineValueType` answers for an expression.
///
/// A sum is a string if and only if one of its sides has a string as its primitive.
pub open spec fn value_type(shape: Shape, globals: Seq<ReferenceId>) -> ValueType
    decreases shape, 0nat,
{
    match shape {
        Shape::Null => ValueType::Null,
        Shape::Str(_) | Shape::Template { .. } => ValueType::String,
        Shape::Number(_) => ValueType::Number,
        Shape::Boolean(_) => ValueType::Boolean,
        Shape::BigInt(_) => ValueType::BigInt,
        Shape::Array(_)
        | Shape::Object(_)
        | Shape::RegExp(_)
        | Shape::Function
        | Shape::Class { .. } => ValueType::Object,
        Shape::Meta { meta, property } => if meta == "import"@ && property == "meta"@ {
            ValueType::Object
        } else {
            ValueType::Undetermined
        },
        Shape::Identifier { name, reference_id } => if !is_global(globals, reference_id) {
            ValueType::Undetermined
        } else if name == "undefined"@ {
            ValueType::Undefined
        } else if name == "NaN"@ || name == "Infinity"@ {
            ValueType::Number
        } else {
            ValueType::Undetermined
        },
        Shape::Unary { operator, argument } => match operator {
            UnaryOperator::Void => ValueType::Undefined,
            UnaryOperator::UnaryPlus => ValueType::Number,
            UnaryOperator::LogicalNot | UnaryOperator::Delete => ValueType::Boolean,
            UnaryOperator::Typeof => ValueType::String,
            UnaryOperator::UnaryNegation | UnaryOperator::BitwiseNot => match value_type(
                *argument,
                globals,
            ) {
                ValueType::BigInt => ValueType::BigInt,
                ValueType::Object | ValueType::Undetermined => ValueType::Undetermined,
                _ => ValueType::Number,
            },
        },
        Shape::Binary { left, operator, right } => if is_comparison(operator)
            || operator is Instanceof || operator is In {
            ValueType::Boolean
        } else if operator is Addition {
            sum_type(primitive(*left, globals), primitive(*right, globals))
        } else if operator is ShiftRightZeroFill {
            ValueType::Number
        } else {
            arithmetic_type(primitive(*left, globals), primitive(*right, globals))
        },
        Shape::Logical { left, operator, right } => {
            let l = value_type(*left, globals);
            if operator is Coalesce {
                if l is Undefined || l is Null {
                    value_type(*right, globals)
                } else {
                    l
                }
            } else {
                common_type(l, value_type(*right, globals))
            }
        },
        Shape::Conditional { consequent, alternate, .. } => common_type(
            value_type(*consequent, globals),
            value_type(*alternate, globals),
        ),
        Shape::Sequence(expressions) => if expressions.len() == 0 {
            ValueType::Undetermined
        } else {
            value_type(expressions.last(), globals)
        },
        Shape::Parenthesized(e) => value_type(*e, globals),
        Shape::Other(_) => other_value_type(shape, globals),
        _ => ValueType::Undetermined,
    }
}

/// The type of a sum.
pub open spec fn sum_type(left: Primitive, right: Primitive) -> ValueType {
    if left is String || right is String {
        ValueType::String
    } else if numeric(left) is Number && numeric(right) is Number {
        ValueType::Number
    } else if numeric(left) is BigInt && numeric(right) is BigInt {
        ValueType::BigInt
    } else {
        ValueType::Undetermined
    }
}

/// The type of the result of an arithmetic operator other than `+` and `>>>`. One side that is a
/// number, or a bigint, is enough: with the other on the other side an error is thrown.
pub open spec fn arithmetic_type(left: Primitive, right: Primitive) -> ValueType {
    if numeric(left) is Number || numeric(right) is Number {
        ValueType::Number
    } else if numeric(left) is BigInt || numeric(right) is BigInt {
        ValueType::BigInt
    } else {
        ValueType::Undetermined
    }
}

/// The type of a value that has one type or the other.
pub open spec fn common_type(a: ValueType, b: ValueType) -> ValueType {
    if a == b {
        a
    } else {
        ValueType::Undetermined
    }
}

/// What the primitive of a value is known to be.
pub enum Primitive {
    Undefined,
    Null,
    Number,
    BigInt,
    String,
    Boolean,
    Symbol,
    Undetermined,
}

/// Whether an object literal with that property may have its own way of being converted.
pub open spec fn overrides_conversion(property: PropertyShape) -> bool
    decreases property,
{
    match property {
        PropertyShape::Property { key: KeyShape::Static(name), .. } => is_conversion(name),
        PropertyShape::Property { key: KeyShape::Private(_), .. } => false,
        PropertyShape::Property { key: KeyShape::Expression(key), .. } => match key_text(key) {
            Some(text) => is_conversion(text),
            None => !is_uncooked(key),
        },
        PropertyShape::Spread(Shape::Object(properties)) => exists|i: int|
            0 <= i < properties.len() && overrides_conversion(#[trigger] properties[i]),
        PropertyShape::Spread(argument) => !(argument is Array || argument is Str
            || argument is Template),
    }
}

/// Whether a method of that name converts an object to a primitive.
pub open spec fn is_conversion(name: Seq<char>) -> bool {
    name == "toString"@ || name == "valueOf"@
}

/// Whether `key` is a template literal without substitutions that has no cooked text.
pub open spec fn is_uncooked(key: Shape) -> bool {
    match key {
        Shape::Template { quasis, expressions } => expressions.len() == 0 && quasis.len() == 1
            && quasis[0].cooked is None,
        _ => false,
    }
}

/// What `ToPrimitive` answers for an expression: what its type tells; a string for an array
/// literal and a regular expression, and for an object literal without its own conversion.
pub open spec fn primitive(shape: Shape, globals: Seq<ReferenceId>) -> Primitive
    decreases shape, 1nat,
{
    match value_type(shape, globals) {
        ValueType::Undefined => Primitive::Undefined,
        ValueType::Null => Primitive::Null,
        ValueType::Number => Primitive::Number,
        ValueType::BigInt => Primitive::BigInt,
        ValueType::String => Primitive::String,
        ValueType::Boolean => Primitive::Boolean,
        ValueType::Object | ValueType::Undetermined => match shape {
            Shape::Array(_) | Shape::RegExp(_) => Primitive::String,
            Shape::Object(properties) => if exists|i: int|
                0 <= i < properties.len() && overrides_conversion(#[trigger] properties[i]) {
                Primitive::Undetermined
            } else {
                Primitive::String
            },
            _ => Primitive::Undetermined,
        },
    }
}

/// Whether `ToPrimitive` finds the primitive of an expression to be a symbol.
pub open spec fn primitive_is_symbol(shape: Shape, globals: Seq<ReferenceId>) -> Option<bool> {
    match primitive(shape, globals) {
        Primitive::Undetermined => None,
        Primitive::Symbol => Some(true),
        _ => Some(false),
    }
}

/// Whether `ToPrimitive` finds the primitive of an expression to be a string.
pub open spec fn primitive_is_string(shape: Shape, globals: Seq<ReferenceId>) -> Option<bool> {
    match primitive(shape, globals) {
        Primitive::Undetermined => None,
        Primitive::String => Some(true),
        _ => Some(false),
    }
}

/// `MayHaveSideEffects::may_have_side_effects` of an expression, as [`may_have_side_effects`] says;
/// by name where [`reads_index`]. It fails on a computed key whose text cannot be read.
#[verifier::external_body]
fn node_may_have_side_effects(node: &Node<'_>, ctx: &Ctx) -> (r: bool)
    requires
        is_readable(shape_of(*node)),
    ensures
        r == may_have_side_effects(shape_of(*node), ctx@),
        reads_index(shape_of(*node)) ==> r == index_may_have_side_effects(shape_of(*node), ctx@),
{
    node.may_have_side_effects(ctx)
}

/// `MayHaveSideEffects::may_have_side_effects` of an array element: never for a hole; for a spread,
/// that of an array or a template literal, never for a string literal, always for the rest. It
/// fails on a computed key whose text cannot be read.
#[verifier::external_body]
fn element_node_may_have_side_effects(node: &ElementNode<'_>, ctx: &Ctx) -> (r: bool)
    requires
        is_readable_element(element_shape_of(*node)),
    ensures
        r == element_may_have_side_effects(element_shape_of(*node), ctx@),
{
    node.may_have_side_effects(ctx)
}

/// `DetermineValueType::value_type`, as [`value_type`] says; by name for expressions that have no
/// shape of their own.
#[verifier::external_body]
fn node_value_type(node: &Node<'_>, ctx: &Ctx) -> (r: ValueType)
    ensures
        r == value_type(shape_of(*node), ctx@),
        shape_of(*node) is Other ==> r == other_value_type(shape_of(*node), ctx@),
{
    node.value_type(ctx)
}

/// `ToPrimitive::to_primitive`, asked `is_symbol`: as [`primitive`] says.
#[verifier::external_body]
fn node_primitive_is_symbol(node: &Node<'_>, ctx: &Ctx) -> (r: Option<bool>)
    ensures
        r == primitive_is_symbol(shape_of(*node), ctx@),
{
    node.to_primitive(ctx).is_symbol()
}

/// `ToPrimitive::to_primitive`, asked `is_string`: as [`primitive`] says.
#[verifier::external_body]
fn node_primitive_is_string(node: &Node<'_>, ctx: &Ctx) -> (r: Option<bool>)
    ensures
        r == primitive_is_string(shape_of(*node), ctx@),
{
    node.to_primitive(ctx).is_string()
}

impl<'a> Expression<'a> {
    /// Whether evaluating the expression may do more than produce its value.
    pub fn may_have_side_effects(&self, ctx: &Ctx) -> (r: bool)
        ensures
            r == may_have_side_effects(self@.shape(), ctx@),
    {
        let arena = new_arena();
        let node = lower(&arena, self);
        node_may_have_side_effects(&node, ctx)
    }

    /// Whether evaluating and iterating over the expression, as `...self` does, may do more than
    /// produce the elements.
    pub fn spread_may_have_side_effects(&self, ctx: &Ctx) -> (r: bool)
        ensures
            r == spread_may_have_side_effects(self@.shape(), ctx@),
    {
        let arena = new_arena();
        let element = node_spread_element(&arena, lower(&arena, self));
        element_node_may_have_side_effects(&element, ctx)
    }

    /// The type of the value, as far as it is known.
    pub fn value_type(&self, ctx: &Ctx) -> (r: ValueType)
        ensures
            r == value_type(self@.shape(), ctx@),
    {
        let arena = new_arena();
        let node = lower(&arena, self);
        node_value_type(&node, ctx)
    }

    /// Whether converting the value to a primitive gives a symbol; `None` where that is unknown.
    pub fn primitive_is_symbol(&self, ctx: &Ctx) -> (r: Option<bool>)
        ensures
            r == primitive_is_symbol(self@.shape(), ctx@),
    {
        let arena = new_arena();
        let node = lower(&arena, self);
        node_primitive_is_symbol(&node, ctx)
    }

    /// Whether converting the value to a primitive gives a string; `None` where that is unknown.
    pub fn primitive_is_string(&self, ctx: &Ctx) -> (r: Option<bool>)
        ensures
            r == primitive_is_string(self@.shape(), ctx@),
    {
        let arena = new_arena();
        let node = lower(&arena, self);
        node_primitive_is_string(&node, ctx)
    }
}

} // verus!
