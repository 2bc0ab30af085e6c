//! Syntax nodes of the parser, built from an expression of this library.
//!
//! The static analyses run on such nodes. [`lower`] builds the node of an expression in an arena.
use crate::ast::{
    arguments_view, elements_view, expressions_view, members_view, properties_view, quasis_view,
    text_view, Argument, ArrayExpressionElement, ClassElement, Expression, ObjectPropertyKind,
    PropertyKey, TemplateElement,
};
use crate::shape::{
    all_readable, argument_shapes, arguments_readable, class_readable, cooked_text, element_shapes,
    elements_readable, expression_shapes, is_readable, is_readable_argument,
    is_readable_class_element, is_readable_element, is_readable_key, is_readable_property,
    member_shapes, properties_readable, property_shapes, quasi_shapes, shape_of, ArgumentShape,
    ClassElementShape, ElementShape, KeyShape, PropertyShape, QuasiShape, Shape,
};
use oxc_allocator::{Allocator, CloneIn};
use oxc_ast::ast::Argument as ArgumentNode;
use oxc_ast::ast::ArrayExpressionElement as ElementNode;
use oxc_ast::ast::ClassElement as ClassElementNode;
use oxc_ast::ast::Decorator as DecoratorNode;
use oxc_ast::ast::Expression as Node;
use oxc_ast::ast::ObjectPropertyKind as PropertyNode;
use oxc_ast::ast::PropertyKey as KeyNode;
use oxc_ast::ast::Statement as StatementNode;
use oxc_ast::ast::TemplateElement as QuasiNode;
use oxc_ast::ast::{
    AccessorPropertyType, ChainElement, ClassType, FormalParameterKind, FunctionType,
    MethodDefinitionKind, MethodDefinitionType, PropertyDefinitionType, PropertyKind,
    TemplateElementValue,
};
use oxc_ast::{AstBuilder, NONE};
use oxc_span::SPAN;
use oxc_syntax::operator::{BinaryOperator, LogicalOperator, UnaryOperator};
use oxc_syntax::reference::ReferenceId;
use vstd::prelude::*;

verus! {

/// The arena that syntax nodes live in: opaque here.
#[verifier::external_type_specification]
#[verifier::external_body]
pub struct ExAllocator(Allocator);

/// An array element of the parser's syntax tree: opaque here.
#[verifier::external_type_specification]
#[verifier::external_body]
pub struct ExElementNode<'a>(ElementNode<'a>);

/// An element of a class of the parser's syntax tree: opaque here.
#[verifier::external_type_specification]
#[verifier::external_body]
pub struct ExClassElementNode<'a>(ClassElementNode<'a>);

/// An argument of the parser's syntax tree: opaque here.
#[verifier::external_type_specification]
#[verifier::external_body]
pub struct ExArgumentNode<'a>(ArgumentNode<'a>);

/// A property key of the parser's syntax tree: opaque here.
#[verifier::external_type_specification]
#[verifier::external_body]
pub struct ExKeyNode<'a>(KeyNode<'a>);

/// A property of the parser's syntax tree: opaque here.
#[verifier::external_type_specification]
#[verifier::external_body]
pub struct ExPropertyNode<'a>(PropertyNode<'a>);

/// A string of a template literal of the parser's syntax tree: opaque here.
#[verifier::external_type_specification]
#[verifier::external_body]
pub struct ExQuasiNode<'a>(QuasiNode<'a>);

/// What an array element of the parser's syntax tree holds.
pub uninterp spec fn element_shape_of(node: ElementNode<'_>) -> ElementShape;

/// What an element of a class of the parser's syntax tree holds.
pub uninterp spec fn class_element_shape_of(node: ClassElementNode<'_>) -> ClassElementShape;

/// What an argument of the parser's syntax tree holds.
pub uninterp spec fn argument_shape_of(node: ArgumentNode<'_>) -> ArgumentShape;

/// What a property key of the parser's syntax tree holds.
pub uninterp spec fn key_shape_of(node: KeyNode<'_>) -> KeyShape;

/// What a property of the parser's syntax tree holds.
pub uninterp spec fn property_shape_of(node: PropertyNode<'_>) -> PropertyShape;

/// What a string of a template literal of the parser's syntax tree holds.
pub uninterp spec fn quasi_shape_of(node: QuasiNode<'_>) -> QuasiShape;

spec fn node_shapes(s: Seq<Node<'_>>) -> Seq<Shape> {
    Seq::new(s.len(), |i: int| shape_of(s[i]))
}

spec fn element_node_shapes(s: Seq<ElementNode<'_>>) -> Seq<ElementShape> {
    Seq::new(s.len(), |i: int| element_shape_of(s[i]))
}

spec fn class_element_node_shapes(s: Seq<ClassElementNode<'_>>) -> Seq<ClassElementShape> {
    Seq::new(s.len(), |i: int| class_element_shape_of(s[i]))
}

spec fn optional_shape(node: Option<Node<'_>>) -> Option<Shape> {
    match node {
        Some(node) => Some(shape_of(node)),
        None => None,
    }
}

spec fn argument_node_shapes(s: Seq<ArgumentNode<'_>>) -> Seq<ArgumentShape> {
    Seq::new(s.len(), |i: int| argument_shape_of(s[i]))
}

spec fn property_node_shapes(s: Seq<PropertyNode<'_>>) -> Seq<PropertyShape> {
    Seq::new(s.len(), |i: int| property_shape_of(s[i]))
}

spec fn quasi_node_shapes(s: Seq<QuasiNode<'_>>) -> Seq<QuasiShape> {
    Seq::new(s.len(), |i: int| quasi_shape_of(s[i]))
}

/// `Expression::is_number`: whether the node is a numeric literal.
#[verifier::external_body]
pub(crate) fn is_number(node: &Node<'_>) -> (number: bool)
    ensures
        number == (shape_of(*node) is Number),
{
    node.is_number()
}

/// `Allocator::default`: an empty arena. Nothing more is claimed of it.
#[verifier::external_body]
pub(crate) fn new_arena() -> (arena: Allocator) {
    Allocator::default()
}

/// `CloneIn::clone_in_with_semantic_ids`: a copy in another arena, references included.
#[verifier::external_body]
fn node_copy<'t>(arena: &'t Allocator, node: &Node<'_>) -> (r: Node<'t>)
    ensures
        shape_of(r) == shape_of(*node),
{
    node.clone_in_with_semantic_ids(arena)
}

/// `AstBuilder::expression_null_literal`: the literal `null`.
#[verifier::external_body]
fn node_null<'t>(arena: &'t Allocator) -> (r: Node<'t>)
    ensures
        shape_of(r) == Shape::Null,
{
    AstBuilder::new(arena).expression_null_literal(SPAN)
}

/// `AstBuilder::expression_string_literal`: a string literal of that value.
#[verifier::external_body]
fn node_string<'t>(arena: &'t Allocator, value: &str) -> (r: Node<'t>)
    ensures
        shape_of(r) == Shape::Str(value@),
{
    AstBuilder::new(arena).expression_string_literal(SPAN, value, None)
}

/// `AstBuilder::expression_identifier`: an identifier of that name, without a reference.
#[verifier::external_body]
fn node_identifier<'t>(arena: &'t Allocator, name: &str) -> (r: Node<'t>)
    ensures
        shape_of(r) == (Shape::Identifier { name: name@, reference_id: None }),
{
    AstBuilder::new(arena).expression_identifier(SPAN, name)
}

/// `AstBuilder::expression_identifier_with_reference_id`: an identifier of that name and
/// reference.
#[verifier::external_body]
fn node_reference<'t>(arena: &'t Allocator, name: &str, id: ReferenceId) -> (r: Node<'t>)
    ensures
        shape_of(r) == (Shape::Identifier { name: name@, reference_id: Some(id) }),
{
    AstBuilder::new(arena).expression_identifier_with_reference_id(SPAN, name, id)
}

/// `AstBuilder::template_element`: a string of a template literal, with those contents.
#[verifier::external_body]
fn node_quasi<'t>(arena: &'t Allocator, raw: &str, cooked: &str, tail: bool) -> (r: QuasiNode<'t>)
    ensures
        quasi_shape_of(r) == (QuasiShape { raw: raw@, cooked: Some(cooked@), tail }),
{
    let ast = AstBuilder::new(arena);
    let value = TemplateElementValue { raw: ast.atom(raw), cooked: Some(ast.atom(cooked)) };
    ast.template_element(SPAN, value, tail)
}

/// `AstBuilder::expression_template_literal`: a template literal of those parts.
#[verifier::external_body]
fn node_template<'t>(
    arena: &'t Allocator,
    quasis: Vec<QuasiNode<'t>>,
    expressions: Vec<Node<'t>>,
) -> (r: Node<'t>)
    ensures
        shape_of(r) == (Shape::Template {
            quasis: quasi_node_shapes(quasis@),
            expressions: node_shapes(expressions@),
        }),
{
    let ast = AstBuilder::new(arena);
    let quasis = ast.vec_from_iter(quasis);
    ast.expression_template_literal(SPAN, quasis, ast.vec_from_iter(expressions))
}

/// `AstBuilder::array_expression_element_spread_element`: the array element `...argument`.
#[verifier::external_body]
pub(crate) fn node_spread_element<'t>(arena: &'t Allocator, argument: Node<'t>) -> (r: ElementNode<
    't,
>)
    ensures
        element_shape_of(r) == ElementShape::Spread(shape_of(argument)),
{
    AstBuilder::new(arena).array_expression_element_spread_element(SPAN, argument)
}

/// `AstBuilder::array_expression_element_elision`: a hole.
#[verifier::external_body]
fn node_elision<'t>(arena: &'t Allocator) -> (r: ElementNode<'t>)
    ensures
        element_shape_of(r) == ElementShape::Elision,
{
    AstBuilder::new(arena).array_expression_element_elision(SPAN)
}

/// `From<Expression>` of `ArrayExpressionElement`: the expression as an array element.
#[verifier::external_body]
fn node_element<'t>(node: Node<'t>) -> (r: ElementNode<'t>)
    ensures
        element_shape_of(r) == ElementShape::Expression(shape_of(node)),
{
    ElementNode::from(node)
}

/// `AstBuilder::expression_array`: an array literal of those elements.
#[verifier::external_body]
fn node_array<'t>(arena: &'t Allocator, elements: Vec<ElementNode<'t>>) -> (r: Node<'t>)
    ensures
        shape_of(r) == Shape::Array(element_node_shapes(elements@)),
{
    let ast = AstBuilder::new(arena);
    ast.expression_array(SPAN, ast.vec_from_iter(elements), None)
}

/// `AstBuilder::property_key_static_identifier`: a name as a property key.
#[verifier::external_body]
fn node_static_key<'t>(arena: &'t Allocator, name: &str) -> (r: KeyNode<'t>)
    ensures
        key_shape_of(r) == KeyShape::Static(name@),
{
    AstBuilder::new(arena).property_key_static_identifier(SPAN, name)
}

/// `AstBuilder::property_key_private_identifier`: a private name as a property key.
#[verifier::external_body]
fn node_private_key<'t>(arena: &'t Allocator, name: &str) -> (r: KeyNode<'t>)
    ensures
        key_shape_of(r) == KeyShape::Private(name@),
{
    AstBuilder::new(arena).property_key_private_identifier(SPAN, name)
}

/// `From<Expression>` of `PropertyKey`: the expression as a property key.
#[verifier::external_body]
fn node_key<'t>(node: Node<'t>) -> (r: KeyNode<'t>)
    ensures
        key_shape_of(r) == KeyShape::Expression(shape_of(node)),
{
    KeyNode::from(node)
}

/// `AstBuilder::object_property_kind_object_property`: a property of those parts.
#[verifier::external_body]
fn node_property<'t>(
    arena: &'t Allocator,
    kind: PropertyKind,
    key: KeyNode<'t>,
    value: Node<'t>,
    method: bool,
    shorthand: bool,
    computed: bool,
) -> (r: PropertyNode<'t>)
    ensures
        property_shape_of(r) == (PropertyShape::Property {
            kind,
            key: key_shape_of(key),
            value: shape_of(value),
            method,
            shorthand,
            computed,
        }),
{
    let ast = AstBuilder::new(arena);
    ast.object_property_kind_object_property(
        SPAN,
        kind,
        key,
        value,
        method,
        shorthand,
        computed,
    )
}

/// `AstBuilder::object_property_kind_spread_property`: the property `...argument`.
#[verifier::external_body]
fn node_spread_property<'t>(arena: &'t Allocator, argument: Node<'t>) -> (r: PropertyNode<'t>)
    ensures
        property_shape_of(r) == PropertyShape::Spread(shape_of(argument)),
{
    AstBuilder::new(arena).object_property_kind_spread_property(SPAN, argument)
}

/// `AstBuilder::expression_object`: an object literal of those properties.
#[verifier::external_body]
fn node_object<'t>(arena: &'t Allocator, properties: Vec<PropertyNode<'t>>) -> (r: Node<'t>)
    ensures
        shape_of(r) == Shape::Object(property_node_shapes(properties@)),
{
    let ast = AstBuilder::new(arena);
    ast.expression_object(SPAN, ast.vec_from_iter(properties), None)
}

/// `AstBuilder::expression_unary`: a unary operation on that argument.
#[verifier::external_body]
fn node_unary<'t>(
    arena: &'t Allocator,
    operator: UnaryOperator,
    argument: Node<'t>,
) -> (r: Node<'t>)
    ensures
        shape_of(r) == (Shape::Unary { operator, argument: Box::new(shape_of(argument)) }),
{
    AstBuilder::new(arena).expression_unary(SPAN, operator, argument)
}

/// `AstBuilder::expression_binary`: a binary operation on those sides.
#[verifier::external_body]
fn node_binary<'t>(
    arena: &'t Allocator,
    left: Node<'t>,
    operator: BinaryOperator,
    right: Node<'t>,
) -> (r: Node<'t>)
    ensures
        shape_of(r) == (Shape::Binary {
            left: Box::new(shape_of(left)),
            operator,
            right: Box::new(shape_of(right)),
        }),
{
    AstBuilder::new(arena).expression_binary(SPAN, left, operator, right)
}

/// `AstBuilder::expression_logical`: a logical operation on those sides.
#[verifier::external_body]
fn node_logical<'t>(
    arena: &'t Allocator,
    left: Node<'t>,
    operator: LogicalOperator,
    right: Node<'t>,
) -> (r: Node<'t>)
    ensures
        shape_of(r) == (Shape::Logical {
            left: Box::new(shape_of(left)),
            operator,
            right: Box::new(shape_of(right)),
        }),
{
    AstBuilder::new(arena).expression_logical(SPAN, left, operator, right)
}

/// `AstBuilder::expression_conditional`: a conditional expression of those parts.
#[verifier::external_body]
fn node_conditional<'t>(
    arena: &'t Allocator,
    test: Node<'t>,
    consequent: Node<'t>,
    alternate: Node<'t>,
) -> (r: Node<'t>)
    ensures
        shape_of(r) == (Shape::Conditional {
            test: Box::new(shape_of(test)),
            consequent: Box::new(shape_of(consequent)),
            alternate: Box::new(shape_of(alternate)),
        }),
{
    AstBuilder::new(arena).expression_conditional(SPAN, test, consequent, alternate)
}

/// `AstBuilder::expression_sequence`: a comma expression of those parts.
#[verifier::external_body]
fn node_sequence<'t>(arena: &'t Allocator, expressions: Vec<Node<'t>>) -> (r: Node<'t>)
    ensures
        shape_of(r) == Shape::Sequence(node_shapes(expressions@)),
{
    let ast = AstBuilder::new(arena);
    ast.expression_sequence(SPAN, ast.vec_from_iter(expressions))
}

/// `AstBuilder::argument_spread_element`: the argument `...argument`.
#[verifier::external_body]
fn node_spread_argument<'t>(arena: &'t Allocator, argument: Node<'t>) -> (r: ArgumentNode<'t>)
    ensures
        argument_shape_of(r) == ArgumentShape::Spread(shape_of(argument)),
{
    AstBuilder::new(arena).argument_spread_element(SPAN, argument)
}

/// `From<Expression>` of `Argument`: the expression as an argument.
#[verifier::external_body]
fn node_argument<'t>(node: Node<'t>) -> (r: ArgumentNode<'t>)
    ensures
        argument_shape_of(r) == ArgumentShape::Expression(shape_of(node)),
{
    ArgumentNode::from(node)
}

/// `AstBuilder::expression_call_with_pure`: a call with those arguments and marks.
#[verifier::external_body]
fn node_call<'t>(
    arena: &'t Allocator,
    callee: Node<'t>,
    arguments: Vec<ArgumentNode<'t>>,
    optional: bool,
    pure: bool,
) -> (r: Node<'t>)
    ensures
        shape_of(r) == (Shape::Call {
            callee: Box::new(shape_of(callee)),
            arguments: argument_node_shapes(arguments@),
            optional,
            pure,
        }),
{
    let ast = AstBuilder::new(arena);
    let arguments = ast.vec_from_iter(arguments);
    ast.expression_call_with_pure(SPAN, callee, NONE, arguments, optional, pure)
}

/// `AstBuilder::expression_new_with_pure`: a `new` with those arguments and mark.
#[verifier::external_body]
fn node_new<'t>(
    arena: &'t Allocator,
    callee: Node<'t>,
    arguments: Vec<ArgumentNode<'t>>,
    pure: bool,
) -> (r: Node<'t>)
    ensures
        shape_of(r) == (Shape::New {
            callee: Box::new(shape_of(callee)),
            arguments: argument_node_shapes(arguments@),
            pure,
        }),
{
    let ast = AstBuilder::new(arena);
    ast.expression_new_with_pure(SPAN, callee, ast.vec_from_iter(arguments), NONE, pure)
}

/// `AstBuilder::member_expression_static`: the access `object.property`.
#[verifier::external_body]
fn node_static_member<'t>(
    arena: &'t Allocator,
    object: Node<'t>,
    property: &str,
    optional: bool,
) -> (r: Node<'t>)
    ensures
        shape_of(r) == (Shape::StaticMember {
            object: Box::new(shape_of(object)),
            property: property@,
            optional,
        }),
{
    let ast = AstBuilder::new(arena);
    let property = ast.identifier_name(SPAN, property);
    Node::from(ast.member_expression_static(SPAN, object, property, optional))
}

/// `AstBuilder::member_expression_computed`: the access `object[expression]`.
#[verifier::external_body]
fn node_computed_member<'t>(
    arena: &'t Allocator,
    object: Node<'t>,
    expression: Node<'t>,
    optional: bool,
) -> (r: Node<'t>)
    ensures
        shape_of(r) == (Shape::ComputedMember {
            object: Box::new(shape_of(object)),
            expression: Box::new(shape_of(expression)),
            optional,
        }),
{
    let ast = AstBuilder::new(arena);
    Node::from(ast.member_expression_computed(SPAN, object, expression, optional))
}

/// `AstBuilder::expression_parenthesized`: the expression in parentheses.
#[verifier::external_body]
fn node_parenthesized<'t>(arena: &'t Allocator, expression: Node<'t>) -> (r: Node<'t>)
    ensures
        shape_of(r) == Shape::Parenthesized(Box::new(shape_of(expression))),
{
    AstBuilder::new(arena).expression_parenthesized(SPAN, expression)
}

/// `AstBuilder::expression_function`: a function. To the analyses it is like any other, and like
/// any arrow function.
#[verifier::external_body]
fn node_function<'t>(arena: &'t Allocator) -> (r: Node<'t>)
    ensures
        shape_of(r) == Shape::Function,
{
    let ast = AstBuilder::new(arena);
    let kind = FormalParameterKind::FormalParameter;
    let params = ast.alloc_formal_parameters(SPAN, kind, ast.vec(), NONE);
    let ty = FunctionType::FunctionExpression;
    ast.expression_function(
        SPAN, ty, None, false, false, false, NONE, NONE, params, NONE, NONE,
    )
}

/// `CloneIn::clone_in_with_semantic_ids`: a copy of a decorator in another arena. Nothing more is
/// claimed of it.
#[verifier::external_body]
fn decorator_copy<'t>(arena: &'t Allocator, node: &DecoratorNode<'_>) -> (r: DecoratorNode<'t>) {
    node.clone_in_with_semantic_ids(arena)
}

/// `CloneIn::clone_in_with_semantic_ids`: a copy of a statement in another arena. Nothing more is
/// claimed of it.
#[verifier::external_body]
fn statement_copy<'t>(arena: &'t Allocator, node: &StatementNode<'_>) -> (r: StatementNode<'t>) {
    node.clone_in_with_semantic_ids(arena)
}

/// `AstBuilder::class_element_static_block`: a static block of those statements.
#[verifier::external_body]
fn node_static_block<'t>(
    arena: &'t Allocator,
    statements: Vec<StatementNode<'t>>,
) -> (r: ClassElementNode<'t>)
    ensures
        class_element_shape_of(r) == (ClassElementShape::StaticBlock {
            empty: statements@.len() == 0,
        }),
{
    let ast = AstBuilder::new(arena);
    ast.class_element_static_block(SPAN, ast.vec_from_iter(statements))
}

/// `AstBuilder::class_element_method_definition`: a method of that key, with those decorators.
#[verifier::external_body]
fn node_method<'t>(
    arena: &'t Allocator,
    decorators: Vec<DecoratorNode<'t>>,
    key: KeyNode<'t>,
) -> (r: ClassElementNode<'t>)
    ensures
        class_element_shape_of(r) == (ClassElementShape::Method {
            decorated: decorators@.len() > 0,
            key: key_shape_of(key),
        }),
{
    let ast = AstBuilder::new(arena);
    let params =
        ast.alloc_formal_parameters(SPAN, FormalParameterKind::FormalParameter, ast.vec(), NONE);
    let ty = FunctionType::FunctionExpression;
    let value =
        ast.alloc_function(SPAN, ty, None, false, false, false, NONE, NONE, params, NONE, NONE);
    let ty = MethodDefinitionType::MethodDefinition;
    let kind = MethodDefinitionKind::Method;
    let decorators = ast.vec_from_iter(decorators);
    ast.class_element_method_definition(
        SPAN, ty, decorators, key, value, kind, false, false, false, false, None,
    )
}

/// `AstBuilder::class_element_property_definition`: a property of that key and value, static or
/// not, with those decorators.
#[verifier::external_body]
fn node_property_definition<'t>(
    arena: &'t Allocator,
    decorators: Vec<DecoratorNode<'t>>,
    key: KeyNode<'t>,
    value: Option<Node<'t>>,
    is_static: bool,
) -> (r: ClassElementNode<'t>)
    ensures
        class_element_shape_of(r) == (ClassElementShape::Property {
            decorated: decorators@.len() > 0,
            key: key_shape_of(key),
            value: optional_shape(value),
            is_static,
        }),
{
    let ast = AstBuilder::new(arena);
    let ty = PropertyDefinitionType::PropertyDefinition;
    let decorators = ast.vec_from_iter(decorators);
    ast.class_element_property_definition(
        SPAN, ty, decorators, key, value, false, is_static, false, false, false, false, false,
        NONE, None,
    )
}

/// `AstBuilder::class_element_accessor_property`: an accessor of that key, with those decorators.
#[verifier::external_body]
fn node_accessor<'t>(
    arena: &'t Allocator,
    decorators: Vec<DecoratorNode<'t>>,
    key: KeyNode<'t>,
) -> (r: ClassElementNode<'t>)
    ensures
        class_element_shape_of(r) == (ClassElementShape::Accessor {
            decorated: decorators@.len() > 0,
            key: key_shape_of(key),
        }),
{
    let ast = AstBuilder::new(arena);
    let ty = AccessorPropertyType::AccessorProperty;
    let decorators = ast.vec_from_iter(decorators);
    ast.class_element_accessor_property(
        SPAN, ty, decorators, key, None, false, false, false, NONE, None,
    )
}

/// `AstBuilder::class_element_ts_index_signature`: an index signature.
#[verifier::external_body]
fn node_index_signature<'t>(arena: &'t Allocator) -> (r: ClassElementNode<'t>)
    ensures
        class_element_shape_of(r) == ClassElementShape::IndexSignature,
{
    let ast = AstBuilder::new(arena);
    let ty = ast.alloc_ts_type_annotation(SPAN, ast.ts_type_any_keyword(SPAN));
    ast.class_element_ts_index_signature(SPAN, ast.vec(), ty, false, false)
}

/// `AstBuilder::expression_class`: a class of that superclass and those elements, with those
/// decorators.
#[verifier::external_body]
fn node_class<'t>(
    arena: &'t Allocator,
    decorators: Vec<DecoratorNode<'t>>,
    super_class: Option<Node<'t>>,
    elements: Vec<ClassElementNode<'t>>,
) -> (r: Node<'t>)
    ensures
        shape_of(r) == (Shape::Class {
            decorated: decorators@.len() > 0,
            super_class: match optional_shape(super_class) {
                Some(shape) => Some(Box::new(shape)),
                None => None,
            },
            elements: class_element_node_shapes(elements@),
        }),
{
    let ast = AstBuilder::new(arena);
    let decorators = ast.vec_from_iter(decorators);
    let body = ast.alloc_class_body(SPAN, ast.vec_from_iter(elements));
    let ty = ClassType::ClassExpression;
    ast.expression_class(
        SPAN, ty, decorators, None, NONE, super_class, NONE, None, body, false, false,
    )
}

/// `AstBuilder::expression_chain`: the optional chain of that call or member access.
#[verifier::external_body]
fn node_chain<'t>(arena: &'t Allocator, link: Node<'t>) -> (r: Node<'t>)
    requires
        shape_of(link) is Call || shape_of(link) is StaticMember || shape_of(
            link,
        ) is ComputedMember,
    ensures
        shape_of(r) == Shape::Chain(Box::new(shape_of(link))),
{
    let element = match link {
        Node::CallExpression(call) => ChainElement::CallExpression(call),
        member => ChainElement::from(member.into_member_expression()),
    };
    AstBuilder::new(arena).expression_chain(SPAN, element)
}

/// The syntax node of `e`.
pub(crate) fn lower<'t>(arena: &'t Allocator, e: &Expression<'_>) -> (r: Node<'t>)
    ensures
        shape_of(r) == e@.shape(),
        is_readable(shape_of(r)),
    decreases e,
{
    match e {
        Expression::NullLiteral { .. } => node_null(arena),
        Expression::StringLiteral { value, .. } => node_string(arena, value.as_str()),
        Expression::Identifier(ident) => match ident.reference_id {
            Some(id) => node_reference(arena, ident.name.as_str(), id),
            None => node_identifier(arena, ident.name.as_str()),
        },
        Expression::TemplateLiteral { quasis, expressions, .. } => {
            let quasis = lower_quasis(arena, quasis);
            let expressions = lower_expressions(arena, expressions);
            node_template(arena, quasis, expressions)
        },
        Expression::ArrayExpression { elements, .. } => {
            let elements = lower_elements(arena, elements);
            node_array(arena, elements)
        },
        Expression::ObjectExpression { properties, .. } => {
            let properties = lower_properties(arena, properties);
            node_object(arena, properties)
        },
        Expression::UnaryExpression { operator, argument, .. } => node_unary(
            arena,
            *operator,
            lower(arena, argument),
        ),
        Expression::BinaryExpression { left, operator, right, .. } => node_binary(
            arena,
            lower(arena, left),
            *operator,
            lower(arena, right),
        ),
        Expression::LogicalExpression { left, operator, right, .. } => node_logical(
            arena,
            lower(arena, left),
            *operator,
            lower(arena, right),
        ),
        Expression::ConditionalExpression { test, consequent, alternate, .. } => node_conditional(
            arena,
            lower(arena, test),
            lower(arena, consequent),
            lower(arena, alternate),
        ),
        Expression::SequenceExpression { expressions, .. } => {
            let expressions = lower_expressions(arena, expressions);
            node_sequence(arena, expressions)
        },
        Expression::CallExpression { callee, arguments, optional, pure, .. } => {
            let callee = lower(arena, callee);
            let arguments = lower_arguments(arena, arguments);
            node_call(arena, callee, arguments, *optional, *pure)
        },
        Expression::NewExpression { callee, arguments, pure, .. } => {
            let callee = lower(arena, callee);
            let arguments = lower_arguments(arena, arguments);
            node_new(arena, callee, arguments, *pure)
        },
        Expression::StaticMemberExpression { object, property, optional, .. } =>
            node_static_member(arena, lower(arena, object), property.name.as_str(), *optional),
        Expression::ComputedMemberExpression { object, expression, optional, .. } =>
            node_computed_member(arena, lower(arena, object), lower(arena, expression), *optional),
        Expression::ChainExpression { expression, .. } => {
            let link = lower(arena, expression);
            match &**expression {
                Expression::CallExpression { .. } => node_chain(arena, link),
                Expression::StaticMemberExpression { .. } => node_chain(arena, link),
                Expression::ComputedMemberExpression { .. } => node_chain(arena, link),
                _ => link,
            }
        },
        Expression::FunctionExpression { .. } => node_function(arena),
        Expression::ArrowFunctionExpression { .. } => node_function(arena),
        Expression::ParenthesizedExpression { expression, .. } => node_parenthesized(
            arena,
            lower(arena, expression),
        ),
        Expression::ClassExpression { decorators, super_class, elements, .. } => {
            let decorators = lower_decorators(arena, decorators);
            let super_class = match super_class {
                Some(e) => Some(lower(arena, e)),
                None => None,
            };
            let elements = lower_class_elements(arena, elements);
            node_class(arena, decorators, super_class, elements)
        },
        Expression::Other { node, .. } => node_copy(arena, node.node()),
    }
}

fn lower_expressions<'t>(arena: &'t Allocator, s: &Vec<Expression<'_>>) -> (r: Vec<Node<'t>>)
    ensures
        node_shapes(r@) == expression_shapes(expressions_view(s@)),
        all_readable(node_shapes(r@)),
    decreases s,
{
    let mut r: Vec<Node<'t>> = Vec::new();
    for i in 0..s.len()
        invariant
            r@.len() == i,
            forall|j: int|
                0 <= j < i ==> shape_of(#[trigger] r@[j]) == s@[j]@.shape() && is_readable(
                    shape_of(r@[j]),
                ),
    {
        assert(decreases_to!(s => s@[i as int]));
        r.push(lower(arena, &s[i]));
    }
    assert(node_shapes(r@) =~= expression_shapes(expressions_view(s@)));
    r
}

fn lower_elements<'t>(arena: &'t Allocator, s: &Vec<ArrayExpressionElement<'_>>) -> (r: Vec<
    ElementNode<'t>,
>)
    ensures
        element_node_shapes(r@) == element_shapes(elements_view(s@)),
        elements_readable(element_node_shapes(r@)),
    decreases s,
{
    let mut r: Vec<ElementNode<'t>> = Vec::new();
    for i in 0..s.len()
        invariant
            r@.len() == i,
            forall|j: int|
                0 <= j < i ==> element_shape_of(#[trigger] r@[j]) == s@[j]@.shape()
                    && is_readable_element(element_shape_of(r@[j])),
    {
        assert(decreases_to!(s => s@[i as int]));
        let element = match &s[i] {
            ArrayExpressionElement::SpreadElement { argument, .. } => node_spread_element(
                arena,
                lower(arena, argument),
            ),
            ArrayExpressionElement::Elision { .. } => node_elision(arena),
            ArrayExpressionElement::Expression(e) => node_element(lower(arena, e)),
        };
        r.push(element);
    }
    assert(element_node_shapes(r@) =~= element_shapes(elements_view(s@)));
    r
}

fn lower_arguments<'t>(arena: &'t Allocator, s: &Vec<Argument<'_>>) -> (r: Vec<ArgumentNode<'t>>)
    ensures
        argument_node_shapes(r@) == argument_shapes(arguments_view(s@)),
        arguments_readable(argument_node_shapes(r@)),
    decreases s,
{
    let mut r: Vec<ArgumentNode<'t>> = Vec::new();
    for i in 0..s.len()
        invariant
            r@.len() == i,
            forall|j: int|
                0 <= j < i ==> argument_shape_of(#[trigger] r@[j]) == s@[j]@.shape()
                    && is_readable_argument(argument_shape_of(r@[j])),
    {
        assert(decreases_to!(s => s@[i as int]));
        let argument = match &s[i] {
            Argument::SpreadElement { argument, .. } => node_spread_argument(
                arena,
                lower(arena, argument),
            ),
            Argument::Expression(e) => node_argument(lower(arena, e)),
        };
        r.push(argument);
    }
    assert(argument_node_shapes(r@) =~= argument_shapes(arguments_view(s@)));
    r
}

fn lower_properties<'t>(arena: &'t Allocator, s: &Vec<ObjectPropertyKind<'_>>) -> (r: Vec<
    PropertyNode<'t>,
>)
    ensures
        property_node_shapes(r@) == property_shapes(properties_view(s@)),
        properties_readable(property_node_shapes(r@)),
    decreases s,
{
    let mut r: Vec<PropertyNode<'t>> = Vec::new();
    for i in 0..s.len()
        invariant
            r@.len() == i,
            forall|j: int|
                0 <= j < i ==> property_shape_of(#[trigger] r@[j]) == s@[j]@.shape()
                    && is_readable_property(property_shape_of(r@[j])),
    {
        assert(decreases_to!(s => s@[i as int]));
        let property = match &s[i] {
            ObjectPropertyKind::ObjectProperty {
                kind,
                key,
                value,
                method,
                shorthand,
                computed,
                ..
            } => {
                let key = lower_key(arena, key);
                let value = lower(arena, value);
                node_property(arena, *kind, key, value, *method, *shorthand, *computed)
            },
            ObjectPropertyKind::SpreadProperty { argument, .. } => node_spread_property(
                arena,
                lower(arena, argument),
            ),
        };
        r.push(property);
    }
    assert(property_node_shapes(r@) =~= property_shapes(properties_view(s@)));
    r
}

fn lower_key<'t>(arena: &'t Allocator, key: &PropertyKey<'_>) -> (r: KeyNode<'t>)
    ensures
        key_shape_of(r) == key@.shape(),
        is_readable_key(key_shape_of(r)),
    decreases key,
{
    match key {
        PropertyKey::StaticIdentifier { name, .. } => node_static_key(arena, name.as_str()),
        PropertyKey::PrivateIdentifier { name, .. } => node_private_key(arena, name.as_str()),
        PropertyKey::Expression(e) => node_key(lower(arena, e)),
    }
}

fn lower_decorators<'t>(arena: &'t Allocator, s: &Vec<DecoratorNode<'_>>) -> (r: Vec<
    DecoratorNode<'t>,
>)
    ensures
        r@.len() == s@.len(),
{
    let mut r: Vec<DecoratorNode<'t>> = Vec::new();
    for i in 0..s.len()
        invariant
            r@.len() == i,
    {
        r.push(decorator_copy(arena, &s[i]));
    }
    r
}

fn lower_statements<'t>(arena: &'t Allocator, s: &Vec<StatementNode<'_>>) -> (r: Vec<
    StatementNode<'t>,
>)
    ensures
        r@.len() == s@.len(),
{
    let mut r: Vec<StatementNode<'t>> = Vec::new();
    for i in 0..s.len()
        invariant
            r@.len() == i,
    {
        r.push(statement_copy(arena, &s[i]));
    }
    r
}

fn lower_class_elements<'t>(arena: &'t Allocator, s: &Vec<ClassElement<'_>>) -> (r: Vec<
    ClassElementNode<'t>,
>)
    ensures
        class_element_node_shapes(r@) == member_shapes(members_view(s@)),
        class_readable(class_element_node_shapes(r@)),
    decreases s,
{
    let mut r: Vec<ClassElementNode<'t>> = Vec::new();
    for i in 0..s.len()
        invariant
            r@.len() == i,
            forall|j: int|
                0 <= j < i ==> class_element_shape_of(#[trigger] r@[j]) == s@[j]@.shape()
                    && is_readable_class_element(class_element_shape_of(r@[j])),
    {
        assert(decreases_to!(s => s@[i as int]));
        let element = match &s[i] {
            ClassElement::StaticBlock { statements, .. } => {
                let statements = lower_statements(arena, statements);
                node_static_block(arena, statements)
            },
            ClassElement::MethodDefinition { decorators, key, .. } => {
                let decorators = lower_decorators(arena, decorators);
                node_method(arena, decorators, lower_key(arena, key))
            },
            ClassElement::PropertyDefinition { decorators, key, value, is_static, .. } => {
                let decorators = lower_decorators(arena, decorators);
                let key = lower_key(arena, key);
                let value = match value {
                    Some(e) => Some(lower(arena, e)),
                    None => None,
                };
                node_property_definition(arena, decorators, key, value, *is_static)
            },
            ClassElement::AccessorProperty { decorators, key, .. } => {
                let decorators = lower_decorators(arena, decorators);
                node_accessor(arena, decorators, lower_key(arena, key))
            },
            ClassElement::TSIndexSignature { .. } => node_index_signature(arena),
        };
        r.push(element);
    }
    assert(class_element_node_shapes(r@) =~= member_shapes(members_view(s@)));
    r
}

fn lower_quasis<'t>(arena: &'t Allocator, s: &Vec<TemplateElement>) -> (r: Vec<QuasiNode<'t>>)
    ensures
        quasi_node_shapes(r@) == quasi_shapes(quasis_view(s@)),
{
    let mut r: Vec<QuasiNode<'t>> = Vec::new();
    for i in 0..s.len()
        invariant
            r@.len() == i,
            forall|j: int|
                0 <= j < i ==> quasi_shape_of(#[trigger] r@[j]) == (QuasiShape {
                    raw: s@[j].raw@,
                    cooked: Some(cooked_text(text_view(s@[j].cooked))),
                    tail: s@[j].tail,
                }),
    {
        proof {
            reveal_strlit("");
            assert(""@ =~= seq![]);
        }
        let cooked = match &s[i].cooked {
            Some(cooked) => cooked.as_str(),
            None => "",
        };
        r.push(node_quasi(arena, s[i].raw.as_str(), cooked, s[i].tail));
    }
    assert(quasi_node_shapes(r@) =~= quasi_shapes(quasis_view(s@)));
    r
}

} // verus!
