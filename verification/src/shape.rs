//! What the static analyses read of an expression: its kind, operators, names and parts, without
//! source positions.
use crate::ast::{Arg, Element, Expr, Key, Member, Prop, Quasi};
use oxc_ast::ast::Expression as Node;
use oxc_ast::ast::PropertyKind;
use oxc_syntax::operator::{BinaryOperator, LogicalOperator, UnaryOperator};
use oxc_syntax::reference::ReferenceId;
use vstd::prelude::*;

verus! {

pub enum ElementShape {
    Spread(Shape),
    Elision,
    Expression(Shape),
}

pub enum ArgumentShape {
    Spread(Shape),
    Expression(Shape),
}

pub enum KeyShape {
    Static(Seq<char>),
    Private(Seq<char>),
    Expression(Shape),
}

pub enum PropertyShape {
    Property {
        kind: PropertyKind,
        key: KeyShape,
        value: Shape,
        method: bool,
        shorthand: bool,
        computed: bool,
    },
    Spread(Shape),
}

#[allow(inconsistent_fields)]
pub enum ClassElementShape {
    StaticBlock { empty: bool },
    Method { decorated: bool, key: KeyShape },
    Property { decorated: bool, key: KeyShape, value: Option<Shape>, is_static: bool },
    Accessor { decorated: bool, key: KeyShape },
    IndexSignature,
}

pub struct QuasiShape {
    pub raw: Seq<char>,
    pub cooked: Option<Seq<char>>,
    pub tail: bool,
}

/// The shape of an expression.
#[allow(inconsistent_fields)]
pub enum Shape {
    Null,
    Str(Seq<char>),
    /// A number, by the bits of its value.
    Number(u64),
    Boolean(bool),
    /// A bigint, by its text.
    BigInt(Seq<char>),
    /// A regular expression, told apart by a number.
    RegExp(nat),
    This,
    Super,
    Meta { meta: Seq<char>, property: Seq<char> },
    /// A function or an arrow function.
    Function,
    Class { decorated: bool, super_class: Option<Box<Shape>>, elements: Seq<ClassElementShape> },
    Parenthesized(Box<Shape>),
    Identifier { name: Seq<char>, reference_id: Option<ReferenceId> },
    Template { quasis: Seq<QuasiShape>, expressions: Seq<Shape> },
    Array(Seq<ElementShape>),
    Object(Seq<PropertyShape>),
    Unary { operator: UnaryOperator, argument: Box<Shape> },
    Binary { left: Box<Shape>, operator: BinaryOperator, right: Box<Shape> },
    Logical { left: Box<Shape>, operator: LogicalOperator, right: Box<Shape> },
    Conditional { test: Box<Shape>, consequent: Box<Shape>, alternate: Box<Shape> },
    Sequence(Seq<Shape>),
    Call { callee: Box<Shape>, arguments: Seq<ArgumentShape>, optional: bool, pure: bool },
    New { callee: Box<Shape>, arguments: Seq<ArgumentShape>, pure: bool },
    StaticMember { object: Box<Shape>, property: Seq<char>, optional: bool },
    ComputedMember { object: Box<Shape>, expression: Box<Shape>, optional: bool },
    Chain(Box<Shape>),
    /// Any other kind, told apart by a number.
    Other(nat),
}

/// What a syntax node of the parser holds, the references in its cells included. Nothing in this
/// crate sets such a cell.
pub uninterp spec fn shape_of(node: Node<'_>) -> Shape;

/// Whether `string_to_big_int` reads the text of a bigint literal, up to its `n`.
pub uninterp spec fn reads_as_big_int(raw: Seq<char>) -> bool;

/// Whether the texts in it that the analyses may have to read can be read: that of a template
/// literal without substitutions, and those of bigints.
pub open spec fn is_readable(shape: Shape) -> bool
    decreases shape,
{
    match shape {
        Shape::BigInt(raw) => reads_as_big_int(raw),
        Shape::Template { quasis, expressions } => (expressions.len() == 0 && quasis.len() == 1
            ==> quasis[0].cooked is Some) && all_readable(expressions),
        Shape::Array(elements) => elements_readable(elements),
        Shape::Object(properties) => properties_readable(properties),
        Shape::Unary { argument, .. } => is_readable(*argument),
        Shape::Binary { left, right, .. } => is_readable(*left) && is_readable(*right),
        Shape::Logical { left, right, .. } => is_readable(*left) && is_readable(*right),
        Shape::Conditional { test, consequent, alternate } => is_readable(*test) && is_readable(
            *consequent,
        ) && is_readable(*alternate),
        Shape::Sequence(expressions) => all_readable(expressions),
        Shape::Call { callee, arguments, .. } => is_readable(*callee) && arguments_readable(
            arguments,
        ),
        Shape::New { callee, arguments, .. } => is_readable(*callee) && arguments_readable(
            arguments,
        ),
        Shape::StaticMember { object, .. } => is_readable(*object),
        Shape::ComputedMember { object, expression, .. } => is_readable(*object) && is_readable(
            *expression,
        ),
        Shape::Chain(links) => is_readable(*links),
        Shape::Parenthesized(e) => is_readable(*e),
        Shape::Class { super_class, elements, .. } => (super_class is Some ==> is_readable(
            *super_class->Some_0,
        )) && class_readable(elements),
        _ => true,
    }
}

pub open spec fn all_readable(s: Seq<Shape>) -> bool
    decreases s,
{
    forall|i: int| 0 <= i < s.len() ==> is_readable(#[trigger] s[i])
}

pub open spec fn is_readable_element(element: ElementShape) -> bool
    decreases element,
{
    match element {
        ElementShape::Spread(argument) => is_readable(argument),
        ElementShape::Elision => true,
        ElementShape::Expression(e) => is_readable(e),
    }
}

pub open spec fn elements_readable(s: Seq<ElementShape>) -> bool
    decreases s,
{
    forall|i: int| 0 <= i < s.len() ==> is_readable_element(#[trigger] s[i])
}

pub open spec fn is_readable_argument(argument: ArgumentShape) -> bool
    decreases argument,
{
    match argument {
        ArgumentShape::Spread(argument) => is_readable(argument),
        ArgumentShape::Expression(e) => is_readable(e),
    }
}

pub open spec fn arguments_readable(s: Seq<ArgumentShape>) -> bool
    decreases s,
{
    forall|i: int| 0 <= i < s.len() ==> is_readable_argument(#[trigger] s[i])
}

pub open spec fn is_readable_key(key: KeyShape) -> bool
    decreases key,
{
    match key {
        KeyShape::Expression(e) => is_readable(e),
        _ => true,
    }
}

pub open spec fn is_readable_property(property: PropertyShape) -> bool
    decreases property,
{
    match property {
        PropertyShape::Property { key, value, .. } => is_readable_key(key) && is_readable(value),
        PropertyShape::Spread(argument) => is_readable(argument),
    }
}

pub open spec fn properties_readable(s: Seq<PropertyShape>) -> bool
    decreases s,
{
    forall|i: int| 0 <= i < s.len() ==> is_readable_property(#[trigger] s[i])
}

pub open spec fn is_readable_class_element(element: ClassElementShape) -> bool
    decreases element,
{
    match element {
        ClassElementShape::Method { key, .. } => is_readable_key(key),
        ClassElementShape::Property { key, value, .. } => is_readable_key(key) && (value is Some
            ==> is_readable(value->Some_0)),
        ClassElementShape::Accessor { key, .. } => is_readable_key(key),
        _ => true,
    }
}

pub open spec fn class_readable(s: Seq<ClassElementShape>) -> bool
    decreases s,
{
    forall|i: int| 0 <= i < s.len() ==> is_readable_class_element(#[trigger] s[i])
}

/// Whether neither the pass nor the analyses look into an expression of that shape.
pub open spec fn is_leaf(shape: Shape) -> bool {
    match shape {
        Shape::Number(_)
        | Shape::Boolean(_)
        | Shape::BigInt(_)
        | Shape::RegExp(_)
        | Shape::This
        | Shape::Super
        | Shape::Meta { .. }
        | Shape::Other(_) => true,
        _ => false,
    }
}

pub open spec fn expression_shapes(s: Seq<Expr<'_>>) -> Seq<Shape>
    decreases s,
{
    Seq::new(s.len(), |i: int| if 0 <= i < s.len() { s[i].shape() } else { arbitrary() })
}

pub open spec fn element_shapes(s: Seq<Element<'_>>) -> Seq<ElementShape>
    decreases s,
{
    Seq::new(s.len(), |i: int| if 0 <= i < s.len() { s[i].shape() } else { arbitrary() })
}

pub open spec fn argument_shapes(s: Seq<Arg<'_>>) -> Seq<ArgumentShape>
    decreases s,
{
    Seq::new(s.len(), |i: int| if 0 <= i < s.len() { s[i].shape() } else { arbitrary() })
}

pub open spec fn property_shapes(s: Seq<Prop<'_>>) -> Seq<PropertyShape>
    decreases s,
{
    Seq::new(s.len(), |i: int| if 0 <= i < s.len() { s[i].shape() } else { arbitrary() })
}

/// The strings of a template literal. One without a cooked text, which only an invalid escape
/// leaves behind, is seen as empty.
pub open spec fn quasi_shapes(s: Seq<Quasi>) -> Seq<QuasiShape> {
    Seq::new(
        s.len(),
        |i: int|
            QuasiShape { raw: s[i].raw, cooked: Some(cooked_text(s[i].cooked)), tail: s[i].tail },
    )
}

pub open spec fn cooked_text(cooked: Option<Seq<char>>) -> Seq<char> {
    match cooked {
        Some(text) => text,
        None => seq![],
    }
}

pub open spec fn member_shapes(s: Seq<Member<'_>>) -> Seq<ClassElementShape>
    decreases s,
{
    Seq::new(s.len(), |i: int| if 0 <= i < s.len() { s[i].shape() } else { arbitrary() })
}

impl<'a> Element<'a> {
    pub open spec fn shape(self) -> ElementShape
        decreases self,
    {
        match self {
            Element::Spread { argument, .. } => ElementShape::Spread(argument.shape()),
            Element::Elision { .. } => ElementShape::Elision,
            Element::Expression(e) => ElementShape::Expression(e.shape()),
        }
    }
}

impl<'a> Arg<'a> {
    pub open spec fn shape(self) -> ArgumentShape
        decreases self,
    {
        match self {
            Arg::Spread { argument, .. } => ArgumentShape::Spread(argument.shape()),
            Arg::Expression(e) => ArgumentShape::Expression(e.shape()),
        }
    }
}

impl<'a> Key<'a> {
    pub open spec fn shape(self) -> KeyShape
        decreases self,
    {
        match self {
            Key::Static { name, .. } => KeyShape::Static(name),
            Key::Private { name, .. } => KeyShape::Private(name),
            Key::Expression(e) => KeyShape::Expression(e.shape()),
        }
    }
}

impl<'a> Prop<'a> {
    pub open spec fn shape(self) -> PropertyShape
        decreases self,
    {
        match self {
            Prop::Property { kind, key, value, method, shorthand, computed, .. } =>
                PropertyShape::Property {
                kind,
                key: key.shape(),
                value: value.shape(),
                method,
                shorthand,
                computed,
            },
            Prop::Spread { argument, .. } => PropertyShape::Spread(argument.shape()),
        }
    }
}

impl<'a> Member<'a> {
    pub open spec fn shape(self) -> ClassElementShape
        decreases self,
    {
        match self {
            Member::StaticBlock { statements, .. } => ClassElementShape::StaticBlock {
                empty: statements.len() == 0,
            },
            Member::Method { decorators, key, .. } => ClassElementShape::Method {
                decorated: decorators.len() > 0,
                key: key.shape(),
            },
            Member::Property { decorators, key, value, is_static, .. } =>
                ClassElementShape::Property {
                decorated: decorators.len() > 0,
                key: key.shape(),
                value: match value {
                    Some(e) => Some(e.shape()),
                    None => None,
                },
                is_static,
            },
            Member::Accessor { decorators, key, .. } => ClassElementShape::Accessor {
                decorated: decorators.len() > 0,
                key: key.shape(),
            },
            Member::IndexSignature { .. } => ClassElementShape::IndexSignature,
        }
    }
}

impl<'a> Expr<'a> {
    /// Whether the expression can be the link of an optional chain.
    pub open spec fn is_link(self) -> bool {
        self is Call || self is StaticMember || self is ComputedMember
    }

    pub open spec fn shape(self) -> Shape
        decreases self,
    {
        match self {
            Expr::Null { .. } => Shape::Null,
            Expr::Str { value, .. } => Shape::Str(value),
            Expr::Identifier(i) => Shape::Identifier { name: i.name, reference_id: i.reference_id },
            Expr::Template { quasis, expressions, .. } => Shape::Template {
                quasis: quasi_shapes(quasis),
                expressions: expression_shapes(expressions),
            },
            Expr::Array { elements, .. } => Shape::Array(element_shapes(elements)),
            Expr::Object { properties, .. } => Shape::Object(property_shapes(properties)),
            Expr::Unary { operator, argument, .. } => Shape::Unary {
                operator,
                argument: Box::new(argument.shape()),
            },
            Expr::Binary { left, operator, right, .. } => Shape::Binary {
                left: Box::new(left.shape()),
                operator,
                right: Box::new(right.shape()),
            },
            Expr::Logical { left, operator, right, .. } => Shape::Logical {
                left: Box::new(left.shape()),
                operator,
                right: Box::new(right.shape()),
            },
            Expr::Conditional { test, consequent, alternate, .. } => Shape::Conditional {
                test: Box::new(test.shape()),
                consequent: Box::new(consequent.shape()),
                alternate: Box::new(alternate.shape()),
            },
            Expr::Sequence { expressions, .. } => Shape::Sequence(expression_shapes(expressions)),
            Expr::Call { callee, arguments, optional, pure, .. } => Shape::Call {
                callee: Box::new(callee.shape()),
                arguments: argument_shapes(arguments),
                optional,
                pure,
            },
            Expr::New { callee, arguments, pure, .. } => Shape::New {
                callee: Box::new(callee.shape()),
                arguments: argument_shapes(arguments),
                pure,
            },
            Expr::StaticMember { object, property, optional, .. } => Shape::StaticMember {
                object: Box::new(object.shape()),
                property,
                optional,
            },
            Expr::ComputedMember { object, expression, optional, .. } => Shape::ComputedMember {
                object: Box::new(object.shape()),
                expression: Box::new(expression.shape()),
                optional,
            },
            Expr::Chain { expression, .. } => if expression.is_link() {
                Shape::Chain(Box::new(expression.shape()))
            } else {
                expression.shape()
            },
            Expr::Parenthesized { expression, .. } => Shape::Parenthesized(
                Box::new(expression.shape()),
            ),
            Expr::Class { decorators, super_class, elements, .. } => Shape::Class {
                decorated: decorators.len() > 0,
                super_class: match super_class {
                    Some(e) => Some(Box::new(e.shape())),
                    None => None,
                },
                elements: member_shapes(elements),
            },
            Expr::Function { .. } => Shape::Function,
            Expr::Arrow { .. } => Shape::Function,
            Expr::Other { node, .. } => shape_of(node),
        }
    }
}

} // verus!
