use oxc_allocator::Allocator;
use oxc_ast::ast::{
    AccessorPropertyType, BigintBase, ClassType, Decorator, Expression as Node,
    FormalParameterKind, Function, FunctionType, MethodDefinitionKind, MethodDefinitionType,
    NumberBase, PropertyDefinitionType, PropertyKey as KeyNode, PropertyKind,
};
use oxc_ast::{AstBuilder, NONE};
use oxc_ecmascript::constant_evaluation::ValueType;
use oxc_ecmascript::is_global_reference::IsGlobalReference;
use oxc_semantic::Scoping;
use oxc_span::SPAN;
use oxc_syntax::es_target::ESTarget;
use oxc_syntax::node::NodeId;
use oxc_syntax::operator::{BinaryOperator, LogicalOperator, UnaryOperator};
use oxc_syntax::reference::{Reference, ReferenceFlags, ReferenceId};
use unused_expression::ast::{
    Argument, ArrayExpressionElement, ClassElement, Expression, FormalParameters, FunctionBody,
    IdentifierName, IdentifierReference, ObjectPropertyKind, PropertyKey, Span, TemplateElement,
};
use unused_expression::boolean_context::try_fold_expr_in_boolean_context;
use unused_expression::calls::is_plain_type;
use unused_expression::ctx::Ctx;
use unused_expression::join::join_with_left_associative_op;
use unused_expression::opaque::{OpaqueFunction, OpaqueNode};
use unused_expression::operators::blank_string;
use unused_expression::optional_chain::inject_optional_chaining_if_matched;
use unused_expression::peephole::PeepholeOptimizations;

const AT: Span = Span { start: 3, end: 8 };

/// The reference of that number.
fn reference(number: usize) -> ReferenceId {
    let mut scoping = Scoping::default();
    let mut create = || {
        scoping.create_reference(Reference::new(NodeId::DUMMY, ReferenceFlags::Read))
    };
    for _ in 0..number {
        create();
    }
    create()
}

/// A context in which the references 0 to 9 are global.
fn ctx() -> Ctx {
    Ctx { globals: (0..10).map(reference).collect() }
}

fn null() -> Expression<'static> {
    Expression::NullLiteral { span: AT }
}

fn string(value: &str) -> Expression<'static> {
    Expression::StringLiteral {
        span: AT,
        value: value.to_string(),
        raw: Some(format!("'{value}'")),
        lossy: false,
    }
}

fn variable(name: &str, id: usize) -> Expression<'static> {
    Expression::Identifier(IdentifierReference {
        span: AT,
        name: name.to_string(),
        reference_id: Some(reference(id)),
    })
}

fn global() -> Expression<'static> {
    variable("g", 1)
}

fn local() -> Expression<'static> {
    variable("l", 20)
}

fn unary(operator: UnaryOperator, argument: Expression<'_>) -> Expression<'_> {
    Expression::UnaryExpression { span: AT, operator, argument: Box::new(argument) }
}

fn not(argument: Expression<'_>) -> Expression<'_> {
    unary(UnaryOperator::LogicalNot, argument)
}

fn binary<'a>(
    left: Expression<'a>,
    operator: BinaryOperator,
    right: Expression<'a>,
) -> Expression<'a> {
    Expression::BinaryExpression {
        span: AT,
        left: Box::new(left),
        operator,
        right: Box::new(right),
    }
}

fn logical<'a>(
    left: Expression<'a>,
    operator: LogicalOperator,
    right: Expression<'a>,
) -> Expression<'a> {
    Expression::LogicalExpression {
        span: AT,
        left: Box::new(left),
        operator,
        right: Box::new(right),
    }
}

fn conditional<'a>(
    test: Expression<'a>,
    consequent: Expression<'a>,
    alternate: Expression<'a>,
) -> Expression<'a> {
    Expression::ConditionalExpression {
        span: AT,
        test: Box::new(test),
        consequent: Box::new(consequent),
        alternate: Box::new(alternate),
    }
}

fn sequence(expressions: Vec<Expression<'_>>) -> Expression<'_> {
    Expression::SequenceExpression { span: AT, expressions }
}

fn call<'a>(callee: Expression<'a>, arguments: Vec<Argument<'a>>, pure: bool) -> Expression<'a> {
    Expression::CallExpression {
        span: AT,
        callee: Box::new(callee),
        arguments,
        optional: false,
        pure,
    }
}

fn construct<'a>(
    callee: Expression<'a>,
    arguments: Vec<Argument<'a>>,
    pure: bool,
) -> Expression<'a> {
    Expression::NewExpression { span: AT, callee: Box::new(callee), arguments, pure }
}

fn member<'a>(object: Expression<'a>, name: &str) -> Expression<'a> {
    Expression::StaticMemberExpression {
        span: AT,
        object: Box::new(object),
        property: IdentifierName { span: AT, name: name.to_string() },
        optional: false,
    }
}

fn index<'a>(object: Expression<'a>, expression: Expression<'a>) -> Expression<'a> {
    Expression::ComputedMemberExpression {
        span: AT,
        object: Box::new(object),
        expression: Box::new(expression),
        optional: false,
    }
}

fn chain(expression: Expression<'_>) -> Expression<'_> {
    Expression::ChainExpression { span: AT, expression: Box::new(expression) }
}

fn array(elements: Vec<ArrayExpressionElement<'_>>) -> Expression<'_> {
    Expression::ArrayExpression { span: AT, elements, trailing_comma: None }
}

fn item(e: Expression<'_>) -> ArrayExpressionElement<'_> {
    ArrayExpressionElement::Expression(e)
}

fn spread(argument: Expression<'_>) -> ArrayExpressionElement<'_> {
    ArrayExpressionElement::SpreadElement { span: AT, argument }
}

fn hole() -> ArrayExpressionElement<'static> {
    ArrayExpressionElement::Elision { span: AT }
}

fn template<'a>(texts: &[&str], expressions: Vec<Expression<'a>>) -> Expression<'a> {
    let last = texts.len() - 1;
    let quasis = texts
        .iter()
        .enumerate()
        .map(|(i, text)| TemplateElement {
            span: AT,
            raw: text.to_string(),
            cooked: Some(text.to_string()),
            tail: i == last,
        })
        .collect();
    Expression::TemplateLiteral { span: AT, quasis, expressions }
}

fn object<'a>(key: PropertyKey<'a>, value: Expression<'a>) -> Expression<'a> {
    let computed = matches!(key, PropertyKey::Expression(_));
    let property = ObjectPropertyKind::ObjectProperty {
        span: AT,
        kind: PropertyKind::Init,
        key,
        value,
        method: false,
        shorthand: false,
        computed,
    };
    Expression::ObjectExpression { span: AT, properties: vec![property], trailing_comma: None }
}

fn name_key(name: &str) -> PropertyKey<'static> {
    PropertyKey::StaticIdentifier { span: AT, name: name.to_string() }
}

fn private_key(name: &str) -> PropertyKey<'static> {
    PropertyKey::PrivateIdentifier { span: AT, name: name.to_string() }
}

fn copies(argument: Expression<'_>) -> Expression<'_> {
    let property = ObjectPropertyKind::SpreadProperty { span: AT, argument };
    Expression::ObjectExpression { span: AT, properties: vec![property], trailing_comma: None }
}

fn number(arena: &Allocator, value: f64) -> Expression<'_> {
    let node = AstBuilder::new(arena).expression_numeric_literal(
        SPAN,
        value,
        None,
        NumberBase::Decimal,
    );
    Expression::Other { span: AT, node: OpaqueNode::new(node).unwrap() }
}

fn effects(e: &Expression<'_>) -> bool {
    e.may_have_side_effects(&ctx())
}

fn remove(e: &mut Expression<'_>) -> bool {
    PeepholeOptimizations::new(ESTarget::ESNext).remove_unused_expression(e, &ctx())
}

#[test]
fn side_effects_of_leaves() {
    let arena = Allocator::default();
    assert!(!effects(&null()));
    assert!(!effects(&string("a")));
    assert!(!effects(&number(&arena, 1.0)));
    assert!(effects(&global()));
    assert!(!effects(&local()));
    assert!(!effects(&variable("NaN", 1)));
    assert!(!effects(&variable("Infinity", 1)));
    assert!(!effects(&variable("undefined", 1)));
    let unresolved = IdentifierReference { span: AT, name: "a".to_string(), reference_id: None };
    assert!(!effects(&Expression::Identifier(unresolved)));
}

#[test]
fn side_effects_of_operators() {
    assert!(!effects(&unary(UnaryOperator::Void, local())));
    assert!(effects(&unary(UnaryOperator::Void, global())));
    assert!(!effects(&unary(UnaryOperator::Typeof, global())));
    assert!(effects(&unary(UnaryOperator::Delete, local())));
    assert!(effects(&unary(UnaryOperator::UnaryPlus, local())));
    assert!(!effects(&unary(UnaryOperator::UnaryPlus, string("a"))));
    assert!(!effects(&binary(local(), BinaryOperator::LessThan, local())));
    assert!(effects(&binary(local(), BinaryOperator::LessThan, global())));
    assert!(effects(&binary(global(), BinaryOperator::StrictEquality, local())));
    assert!(effects(&binary(local(), BinaryOperator::Addition, local())));
    assert!(!effects(&binary(string("a"), BinaryOperator::Addition, null())));
    assert!(!effects(&logical(local(), LogicalOperator::And, local())));
    assert!(effects(&logical(local(), LogicalOperator::Or, global())));
    assert!(!effects(&conditional(local(), null(), local())));
    assert!(effects(&conditional(local(), null(), global())));
    assert!(!effects(&sequence(vec![local(), null()])));
    assert!(effects(&sequence(vec![global(), null()])));
}

#[test]
fn side_effects_of_literals() {
    assert!(!effects(&array(vec![item(null()), hole(), item(local())])));
    assert!(effects(&array(vec![item(null()), hole(), item(global())])));
    assert!(effects(&array(vec![spread(local())])));
    assert!(!effects(&array(vec![spread(string("a"))])));
    assert!(!effects(&template(&["a", "b"], vec![null()])));
    assert!(effects(&template(&["a", "b"], vec![local()])));
    assert!(!effects(&object(name_key("a"), local())));
    assert!(effects(&object(name_key("a"), global())));
    assert!(!effects(&object(private_key("a"), local())));
    assert!(effects(&object(PropertyKey::Expression(global()), null())));
    assert!(!effects(&object(PropertyKey::Expression(string("a")), null())));
    assert!(effects(&copies(local())));
    assert!(!effects(&copies(string("a"))));
}

#[test]
fn side_effects_of_calls_and_members() {
    let arena = Allocator::default();
    assert!(effects(&call(local(), vec![], false)));
    assert!(!effects(&call(global(), vec![], true)));
    assert!(effects(&call(local(), vec![Argument::Expression(global())], true)));
    assert!(effects(&call(
        local(),
        vec![Argument::SpreadElement { span: AT, argument: local() }],
        true
    )));
    assert!(effects(&construct(local(), vec![], false)));
    assert!(!effects(&construct(global(), vec![], true)));
    assert!(effects(&construct(local(), vec![Argument::Expression(global())], true)));
    assert!(effects(&member(local(), "length")));
    assert!(!effects(&member(string("a"), "length")));
    assert!(effects(&member(string("a"), "size")));
    assert!(!effects(&index(string("a"), number(&arena, 0.0))));
    assert!(effects(&index(string("a"), number(&arena, 1.0))));
    assert!(!effects(&chain(member(string("a"), "length"))));
    assert!(effects(&chain(member(local(), "a"))));
    assert!(effects(&chain(call(local(), vec![], false))));
    assert!(effects(&chain(index(local(), null()))));
    assert!(!effects(&chain(local())));
}

#[test]
fn side_effects_of_spreads() {
    let ctx = ctx();
    assert!(local().spread_may_have_side_effects(&ctx));
    assert!(null().spread_may_have_side_effects(&ctx));
    assert!(!string("a").spread_may_have_side_effects(&ctx));
    assert!(!array(vec![item(local())]).spread_may_have_side_effects(&ctx));
    assert!(array(vec![item(global())]).spread_may_have_side_effects(&ctx));
    assert!(!template(&["a"], vec![]).spread_may_have_side_effects(&ctx));
    assert!(template(&["a", ""], vec![local()]).spread_may_have_side_effects(&ctx));
}

#[test]
fn types_of_values() {
    let arena = Allocator::default();
    let ctx = ctx();
    let ty = |e: Expression<'_>| e.value_type(&ctx);
    assert_eq!(ty(null()), ValueType::Null);
    assert_eq!(ty(string("a")), ValueType::String);
    assert_eq!(ty(template(&["a"], vec![])), ValueType::String);
    assert_eq!(ty(array(vec![])), ValueType::Object);
    assert_eq!(ty(copies(local())), ValueType::Object);
    assert_eq!(ty(variable("undefined", 1)), ValueType::Undefined);
    assert_eq!(ty(variable("undefined", 20)), ValueType::Undetermined);
    assert_eq!(ty(variable("NaN", 1)), ValueType::Number);
    assert_eq!(ty(variable("Infinity", 1)), ValueType::Number);
    assert_eq!(ty(global()), ValueType::Undetermined);
    assert_eq!(ty(unary(UnaryOperator::Void, local())), ValueType::Undefined);
    assert_eq!(ty(unary(UnaryOperator::UnaryPlus, local())), ValueType::Number);
    assert_eq!(ty(not(local())), ValueType::Boolean);
    assert_eq!(ty(unary(UnaryOperator::Delete, local())), ValueType::Boolean);
    assert_eq!(ty(unary(UnaryOperator::Typeof, local())), ValueType::String);
    assert_eq!(ty(unary(UnaryOperator::UnaryNegation, null())), ValueType::Number);
    assert_eq!(ty(binary(local(), BinaryOperator::Equality, local())), ValueType::Boolean);
    assert_eq!(ty(binary(local(), BinaryOperator::Addition, string(""))), ValueType::String);
    assert_eq!(ty(binary(array(vec![]), BinaryOperator::Addition, local())), ValueType::String);
    assert_eq!(ty(binary(local(), BinaryOperator::Addition, null())), ValueType::Undetermined);
    assert_eq!(ty(binary(null(), BinaryOperator::Addition, null())), ValueType::Number);
    assert_eq!(ty(logical(null(), LogicalOperator::And, null())), ValueType::Null);
    assert_eq!(ty(conditional(local(), null(), null())), ValueType::Null);
    assert_eq!(ty(conditional(local(), null(), string(""))), ValueType::Undetermined);
    assert_eq!(ty(sequence(vec![string(""), null()])), ValueType::Null);
    assert_eq!(ty(call(local(), vec![], true)), ValueType::Undetermined);
    assert_eq!(ty(construct(local(), vec![], true)), ValueType::Undetermined);
    assert_eq!(ty(member(string("a"), "length")), ValueType::Undetermined);
    assert_eq!(ty(index(string("a"), null())), ValueType::Undetermined);
    assert_eq!(ty(chain(member(local(), "a"))), ValueType::Undetermined);
    assert_eq!(ty(number(&arena, 1.0)), ValueType::Number);
}

#[test]
fn primitives_of_values() {
    let ctx = ctx();
    let symbol = |e: Expression<'_>| e.primitive_is_symbol(&ctx);
    let text = |e: Expression<'_>| e.primitive_is_string(&ctx);
    assert_eq!(symbol(null()), Some(false));
    assert_eq!(symbol(local()), None);
    assert_eq!(symbol(array(vec![])), Some(false));
    assert_eq!(symbol(object(name_key("a"), null())), Some(false));
    assert_eq!(symbol(object(name_key("toString"), null())), None);
    assert_eq!(symbol(object(private_key("toString"), null())), Some(false));
    assert_eq!(symbol(call(local(), vec![], true)), None);
    assert_eq!(text(null()), Some(false));
    assert_eq!(text(string("a")), Some(true));
    assert_eq!(text(local()), None);
    assert_eq!(text(array(vec![])), Some(true));
    assert_eq!(text(object(name_key("a"), null())), Some(true));
    assert_eq!(text(object(PropertyKey::Expression(string("valueOf")), null())), None);
    assert_eq!(text(object(PropertyKey::Expression(string("a")), null())), Some(true));
    assert_eq!(text(copies(local())), None);
    assert_eq!(text(copies(string("a"))), Some(true));
    assert_eq!(text(binary(local(), BinaryOperator::Addition, string("a"))), Some(true));
    assert_eq!(text(binary(local(), BinaryOperator::Addition, local())), None);
    assert_eq!(text(binary(null(), BinaryOperator::Addition, null())), Some(false));
}

#[test]
fn plain_types() {
    for ty in [
        ValueType::Null,
        ValueType::Undefined,
        ValueType::Boolean,
        ValueType::Number,
        ValueType::String,
    ] {
        assert!(is_plain_type(ty, false));
        assert!(!is_plain_type(ty, true));
    }
    for ty in [ValueType::BigInt, ValueType::Object, ValueType::Undetermined] {
        assert!(!is_plain_type(ty, false));
        assert!(!is_plain_type(ty, true));
    }
}

#[test]
fn globals_and_undefined() {
    let arena = Allocator::default();
    let ctx = ctx();
    assert!(ctx.is_expression_undefined(&variable("undefined", 1)));
    assert!(!ctx.is_expression_undefined(&variable("undefined", 20)));
    assert!(!ctx.is_expression_undefined(&global()));
    assert!(ctx.is_expression_undefined(&unary(UnaryOperator::Void, number(&arena, 0.0))));
    assert!(!ctx.is_expression_undefined(&unary(UnaryOperator::Void, null())));
    assert!(!ctx.is_expression_undefined(&unary(UnaryOperator::Typeof, number(&arena, 0.0))));
    let ast = AstBuilder::new(&arena);
    let Node::Identifier(node) =
        ast.expression_identifier_with_reference_id(SPAN, "a", reference(1))
    else {
        unreachable!();
    };
    assert_eq!(ctx.is_global_reference(&node), Some(true));
    let Node::Identifier(node) = ast.expression_identifier(SPAN, "a") else { unreachable!() };
    assert_eq!(ctx.is_global_reference(&node), Some(false));
}

#[test]
fn taking_leaves_null() {
    let mut e = string("a");
    let taken = e.take();
    assert!(matches!(&taken, Expression::StringLiteral { value, .. } if value == "a"));
    assert!(matches!(e, Expression::NullLiteral { span: Span { start: 0, end: 0 } }));
    assert_eq!(taken.span(), AT);
    assert_eq!(local().span(), AT);
    assert_eq!(e.span(), Span::unspanned());
}

#[test]
fn blanking_strings() {
    let mut e = string("a");
    assert!(!blank_string(&mut e, true));
    assert!(matches!(&e, Expression::StringLiteral { value, .. } if value == "a"));
    assert!(blank_string(&mut e, false));
    let Expression::StringLiteral { span, value, raw, lossy } = &e else { unreachable!() };
    assert_eq!((*span, value.as_str(), raw, *lossy), (AT, "", &None, false));
    assert!(!blank_string(&mut e, false));
    let mut e = template(&["a"], vec![]);
    assert!(blank_string(&mut e, false));
    assert!(e.is_empty_string_literal());
}

#[test]
fn double_negations() {
    let mut e = not(not(not(not(local()))));
    assert!(try_fold_expr_in_boolean_context(&mut e));
    assert!(matches!(e, Expression::Identifier(_)));
    let mut e = not(local());
    assert!(!try_fold_expr_in_boolean_context(&mut e));
    assert!(matches!(e, Expression::UnaryExpression { .. }));
    let mut e = logical(not(not(local())), LogicalOperator::Coalesce, local());
    assert!(!try_fold_expr_in_boolean_context(&mut e));
    let mut e = logical(local(), LogicalOperator::And, not(not(local())));
    assert!(try_fold_expr_in_boolean_context(&mut e));
    let Expression::LogicalExpression { right, .. } = &e else { unreachable!() };
    assert!(matches!(**right, Expression::Identifier(_)));
    let mut e = conditional(not(not(local())), not(not(local())), null());
    assert!(try_fold_expr_in_boolean_context(&mut e));
    let Expression::ConditionalExpression { test, consequent, .. } = &e else { unreachable!() };
    assert!(matches!(**test, Expression::UnaryExpression { .. }));
    assert!(matches!(**consequent, Expression::Identifier(_)));
}

/// The names of the variables of a chain of logical operators, in parentheses.
fn spell(e: &Expression<'_>) -> String {
    match e {
        Expression::Identifier(i) => i.name.clone(),
        Expression::LogicalExpression { left, operator, right, .. } => {
            format!("({} {} {})", spell(left), operator.as_str(), spell(right))
        }
        Expression::SequenceExpression { expressions, .. } => {
            expressions.iter().map(spell).collect::<Vec<_>>().join(", ")
        }
        _ => unreachable!(),
    }
}

#[test]
fn joining_associates_to_the_left() {
    let v = |name: &str| variable(name, 20);
    let (and, or) = (LogicalOperator::And, LogicalOperator::Or);
    assert_eq!(spell(&join_with_left_associative_op(AT, and, v("a"), v("b"))), "(a && b)");
    let b = logical(v("b"), and, v("c"));
    assert_eq!(spell(&join_with_left_associative_op(AT, and, v("a"), b)), "((a && b) && c)");
    let b = logical(v("b"), or, v("c"));
    assert_eq!(spell(&join_with_left_associative_op(AT, and, v("a"), b)), "(a && (b || c))");
    let b = logical(v("b"), and, logical(v("c"), and, v("d")));
    assert_eq!(spell(&join_with_left_associative_op(AT, and, v("a"), b)), "(((a && b) && c) && d)");
    let a = sequence(vec![v("a"), v("b")]);
    assert_eq!(spell(&join_with_left_associative_op(AT, or, a, v("c"))), "a, (b || c)");
}

#[test]
fn injecting_optional_chaining() {
    let name = "l".to_string();
    let mut id = local();
    let mut e = call(member(local(), "b"), vec![], false);
    assert!(inject_optional_chaining_if_matched(&name, &mut id, &mut e));
    assert!(id.is_null());
    let Expression::ChainExpression { expression, .. } = &e else { unreachable!() };
    let Expression::CallExpression { callee, optional, .. } = &**expression else {
        unreachable!()
    };
    assert!(!optional);
    assert!(matches!(**callee, Expression::StaticMemberExpression { optional: true, .. }));

    let mut id = local();
    let mut e = call(member(global(), "b"), vec![], false);
    assert!(!inject_optional_chaining_if_matched(&name, &mut id, &mut e));
    assert!(id.is_specific_id(&name));
    assert!(matches!(e, Expression::CallExpression { .. }));

    let mut id = local();
    let mut e = chain(index(local(), null()));
    assert!(inject_optional_chaining_if_matched(&name, &mut id, &mut e));
    let Expression::ChainExpression { expression, .. } = &e else { unreachable!() };
    assert!(matches!(**expression, Expression::ComputedMemberExpression { optional: true, .. }));

    let mut id = local();
    let mut e = local();
    assert!(!inject_optional_chaining_if_matched(&name, &mut id, &mut e));
}

#[test]
fn positions_of_what_is_left() {
    let at = |start: u32| Span { start, end: start + 1 };
    let mut e = Expression::BinaryExpression {
        span: at(1),
        left: Box::new(call(global(), vec![], false)),
        operator: BinaryOperator::LessThan,
        right: Box::new(call(global(), vec![], false)),
    };
    assert!(!remove(&mut e));
    let Expression::SequenceExpression { expressions, .. } = &e else { unreachable!() };
    assert_eq!(expressions.len(), 2);
    assert_eq!(e.span(), at(1));

    let mut e = Expression::BinaryExpression {
        span: at(2),
        left: Box::new(template(&["a"], vec![])),
        operator: BinaryOperator::Addition,
        right: Box::new(local()),
    };
    assert!(!remove(&mut e));
    let Expression::BinaryExpression { left, .. } = &e else { unreachable!() };
    assert!(left.is_empty_string_literal());
    assert_eq!(left.span(), AT);
}

#[test]
fn empty_templates_keep_their_strings() {
    let mut e = template(&["a", "b"], vec![null()]);
    assert!(remove(&mut e));
    let Expression::TemplateLiteral { quasis, expressions, .. } = &e else { unreachable!() };
    assert_eq!((quasis.len(), expressions.len()), (2, 0));

    let mut e = template(&["a", "b", "c"], vec![local(), local()]);
    assert!(!remove(&mut e));
    let Expression::TemplateLiteral { quasis, expressions, .. } = &e else { unreachable!() };
    assert_eq!(expressions.len(), 2);
    assert!(quasis.iter().all(|q| q.raw.is_empty() && q.cooked.as_deref() == Some("")));
    assert_eq!(quasis.iter().map(|q| q.tail).collect::<Vec<_>>(), [false, false, true]);
}

fn big_int<'a>(arena: &'a Allocator, raw: &'a str) -> Option<OpaqueNode<'a>> {
    let node = AstBuilder::new(arena).expression_big_int_literal(SPAN, raw, BigintBase::Decimal);
    OpaqueNode::new(node)
}

#[test]
fn opaque_nodes() {
    let arena = Allocator::default();
    let ast = AstBuilder::new(&arena);
    assert!(big_int(&arena, "12n").is_some());
    assert!(big_int(&arena, "0x1fn").is_some());
    assert!(big_int(&arena, "abc").is_none());
    assert!(big_int(&arena, "-n").is_none());
    assert!(OpaqueNode::new(ast.expression_this(SPAN)).is_some());
    assert!(OpaqueNode::new(ast.expression_boolean_literal(SPAN, true)).is_some());
    let this = ast.expression_this(SPAN);
    assert!(OpaqueNode::new(ast.expression_parenthesized(SPAN, this)).is_none());
    let array = ast.expression_array(SPAN, ast.vec(), None);
    assert!(OpaqueNode::new(array).is_none());
    let opaque = OpaqueNode::new(ast.expression_this(SPAN)).unwrap();
    assert!(matches!(opaque.node(), Node::ThisExpression(_)));
    assert!(matches!(opaque.into_node(), Node::ThisExpression(_)));
}

fn opaque(node: Node<'_>) -> Expression<'_> {
    Expression::Other { span: AT, node: OpaqueNode::new(node).unwrap() }
}

#[test]
fn opaque_expressions() {
    let arena = Allocator::default();
    let ast = AstBuilder::new(&arena);
    let ctx = ctx();
    let boolean = || opaque(ast.expression_boolean_literal(SPAN, true));
    let this = || opaque(ast.expression_this(SPAN));
    let yields = || opaque(ast.expression_yield(SPAN, false, None));
    let big = || Expression::Other { span: AT, node: big_int(&arena, "1n").unwrap() };
    assert!(!effects(&boolean()));
    assert!(!effects(&this()));
    assert!(!effects(&big()));
    assert!(effects(&yields()));
    assert_eq!(boolean().value_type(&ctx), ValueType::Boolean);
    assert_eq!(this().value_type(&ctx), ValueType::Undetermined);
    assert_eq!(big().value_type(&ctx), ValueType::BigInt);
    assert_eq!(yields().value_type(&ctx), ValueType::Undetermined);
    assert!(effects(&unary(UnaryOperator::UnaryPlus, big())));
    assert!(!effects(&unary(UnaryOperator::UnaryNegation, big())));
    assert_eq!(unary(UnaryOperator::UnaryNegation, big()).value_type(&ctx), ValueType::BigInt);
    let sum = |a, b| binary(a, BinaryOperator::Addition, b);
    assert!(!effects(&sum(big(), big())));
    assert!(effects(&sum(big(), null())));
    assert!(!effects(&sum(string("a"), big())));
    assert!(effects(&sum(string("a"), local())));
    assert_eq!(sum(big(), big()).value_type(&ctx), ValueType::BigInt);
    assert_eq!(sum(big(), null()).value_type(&ctx), ValueType::Undetermined);
    assert_eq!(
        binary(local(), BinaryOperator::In, local()).value_type(&ctx),
        ValueType::Boolean
    );
    assert_eq!(
        logical(null(), LogicalOperator::Coalesce, big()).value_type(&ctx),
        ValueType::BigInt
    );
    assert_eq!(
        logical(big(), LogicalOperator::Coalesce, local()).value_type(&ctx),
        ValueType::BigInt
    );
    assert!(!effects(&index(string("a"), Expression::Other {
        span: AT,
        node: big_int(&arena, "0n").unwrap(),
    })));
    assert!(effects(&index(string("a"), big())));
}

#[test]
fn keys_without_a_cooked_text() {
    let mut key = template(&["a"], vec![]);
    if let Expression::TemplateLiteral { quasis, .. } = &mut key {
        quasis[0].cooked = None;
    }
    let mut e = index(local(), key);
    assert!(effects(&e));
    assert!(array(vec![item(index(local(), template(&["length"], vec![])))])
        .spread_may_have_side_effects(&ctx()));
    assert!(!remove(&mut e));
}

#[test]
fn parentheses() {
    let ctx = ctx();
    let parens =
        |e| Expression::ParenthesizedExpression { span: AT, expression: Box::new(e) };
    assert!(effects(&parens(global())));
    assert!(!effects(&parens(local())));
    assert_eq!(parens(null()).value_type(&ctx), ValueType::Null);
    assert_eq!(parens(array(vec![])).primitive_is_string(&ctx), None);
}

/// A class of that superclass and those elements.
fn class<'a>(
    arena: &'a Allocator,
    super_class: Option<Expression<'a>>,
    elements: Vec<ClassElement<'a>>,
) -> Expression<'a> {
    let ast = AstBuilder::new(arena);
    let ty = ClassType::ClassExpression;
    let body = ast.class_body(SPAN, ast.vec());
    let node =
        ast.class(SPAN, ty, ast.vec(), None, NONE, None, NONE, None, body, false, false);
    let super_class = super_class.map(Box::new);
    Expression::ClassExpression { span: AT, decorators: vec![], super_class, elements, node }
}

fn decorator(arena: &Allocator) -> Decorator<'_> {
    let ast = AstBuilder::new(arena);
    ast.decorator(SPAN, ast.expression_null_literal(SPAN))
}

fn function(arena: &Allocator) -> Function<'_> {
    let ast = AstBuilder::new(arena);
    let ty = FunctionType::FunctionExpression;
    let kind = FormalParameterKind::FormalParameter;
    let params = ast.formal_parameters(SPAN, kind, ast.vec(), NONE);
    ast.function(SPAN, ty, None, false, false, false, NONE, NONE, params, NONE, NONE)
}

fn node_key(arena: &Allocator) -> KeyNode<'_> {
    AstBuilder::new(arena).property_key_static_identifier(SPAN, "a")
}

fn static_block(arena: &Allocator, statements: usize) -> ClassElement<'_> {
    let ast = AstBuilder::new(arena);
    let statements = (0..statements).map(|_| ast.statement_empty(SPAN)).collect();
    ClassElement::StaticBlock { statements, node: ast.static_block(SPAN, ast.vec()) }
}

fn method<'a>(
    arena: &'a Allocator,
    decorators: Vec<Decorator<'a>>,
    key: PropertyKey<'a>,
) -> ClassElement<'a> {
    let ast = AstBuilder::new(arena);
    let ty = MethodDefinitionType::MethodDefinition;
    let kind = MethodDefinitionKind::Method;
    let value = function(arena);
    let node = ast.method_definition(
        SPAN,
        ty,
        ast.vec(),
        node_key(arena),
        value,
        kind,
        false,
        false,
        false,
        false,
        None,
    );
    ClassElement::MethodDefinition { decorators, key, node }
}

fn property<'a>(
    arena: &'a Allocator,
    key: PropertyKey<'a>,
    value: Option<Expression<'a>>,
    is_static: bool,
) -> ClassElement<'a> {
    let ast = AstBuilder::new(arena);
    let ty = PropertyDefinitionType::PropertyDefinition;
    let node = ast.property_definition(
        SPAN,
        ty,
        ast.vec(),
        node_key(arena),
        None,
        false,
        false,
        false,
        false,
        false,
        false,
        false,
        NONE,
        None,
    );
    ClassElement::PropertyDefinition { decorators: vec![], key, value, is_static, node }
}

fn accessor<'a>(
    arena: &'a Allocator,
    decorators: Vec<Decorator<'a>>,
    key: PropertyKey<'a>,
) -> ClassElement<'a> {
    let ast = AstBuilder::new(arena);
    let ty = AccessorPropertyType::AccessorProperty;
    let node = ast.accessor_property(
        SPAN,
        ty,
        ast.vec(),
        node_key(arena),
        None,
        false,
        false,
        false,
        NONE,
        None,
    );
    ClassElement::AccessorProperty { decorators, key, node }
}

fn index_signature(arena: &Allocator) -> ClassElement<'_> {
    let ast = AstBuilder::new(arena);
    let ty = ast.ts_type_annotation(SPAN, ast.ts_type_any_keyword(SPAN));
    ClassElement::TSIndexSignature {
        node: ast.ts_index_signature(SPAN, ast.vec(), ty, false, false),
    }
}

#[test]
fn classes() {
    let arena = Allocator::default();
    let ctx = ctx();
    let impure = || PropertyKey::Expression(global());
    let pure = || PropertyKey::Expression(local());
    let of = |element| class(&arena, None, vec![element]);
    assert!(!effects(&class(&arena, None, vec![])));
    assert!(!effects(&class(&arena, Some(local()), vec![])));
    assert!(effects(&class(&arena, Some(global()), vec![])));
    assert!(!effects(&of(static_block(&arena, 0))));
    assert!(effects(&of(static_block(&arena, 2))));
    assert!(!effects(&of(method(&arena, vec![], name_key("a")))));
    assert!(!effects(&of(method(&arena, vec![], private_key("a")))));
    assert!(!effects(&of(method(&arena, vec![], pure()))));
    assert!(effects(&of(method(&arena, vec![], impure()))));
    assert!(effects(&of(method(&arena, vec![decorator(&arena)], name_key("a")))));
    assert!(!effects(&of(property(&arena, pure(), None, true))));
    assert!(!effects(&of(property(&arena, name_key("a"), Some(local()), true))));
    assert!(effects(&of(property(&arena, name_key("a"), Some(global()), true))));
    assert!(!effects(&of(property(&arena, name_key("a"), Some(global()), false))));
    assert!(effects(&of(property(&arena, impure(), Some(local()), false))));
    assert!(!effects(&of(accessor(&arena, vec![], pure()))));
    assert!(effects(&of(accessor(&arena, vec![], impure()))));
    assert!(effects(&of(accessor(&arena, vec![decorator(&arena)], pure()))));
    assert!(!effects(&of(index_signature(&arena))));
    let both = vec![index_signature(&arena), static_block(&arena, 1)];
    assert!(effects(&class(&arena, None, both)));
    let mut decorated = class(&arena, None, vec![]);
    if let Expression::ClassExpression { decorators, .. } = &mut decorated {
        decorators.push(decorator(&arena));
    }
    assert!(effects(&decorated));
    assert_eq!(decorated.value_type(&ctx), ValueType::Object);
    assert_eq!(decorated.primitive_is_symbol(&ctx), None);
    assert!(!remove(&mut decorated));
    assert!(remove(&mut class(&arena, Some(local()), vec![])));
    assert!(!remove(&mut class(&arena, Some(global()), vec![])));
}

#[test]
fn functions() {
    let arena = Allocator::default();
    let ast = AstBuilder::new(&arena);
    let ctx = ctx();
    let e = || Expression::FunctionExpression {
        span: AT,
        function: OpaqueFunction::new(function(&arena)),
    };
    assert!(!effects(&e()));
    assert_eq!(e().value_type(&ctx), ValueType::Object);
    assert_eq!(e().primitive_is_string(&ctx), None);
    assert!(remove(&mut e()));

    let declared = OpaqueFunction::new(function(&arena));
    assert_eq!(declared.read().params, FormalParameters { items: 0, rest: false });
    assert_eq!(declared.read().body, None);
    let mut node = function(&arena);
    let statements = ast.vec_from_iter([ast.statement_empty(SPAN), ast.statement_empty(SPAN)]);
    node.body = Some(ast.alloc_function_body(SPAN, ast.vec(), statements));
    let read = OpaqueFunction::new(node).read();
    assert_eq!(read.body, Some(FunctionBody { directives: 0, statements: 2 }));
    assert!(OpaqueFunction::new(function(&arena)).into_node().body.is_none());
}

#[test]
fn nodes_that_the_tree_has_variants_for_are_not_opaque() {
    let arena = Allocator::default();
    let ast = AstBuilder::new(&arena);
    assert!(OpaqueNode::new(ast.expression_null_literal(SPAN)).is_none());
    assert!(OpaqueNode::new(ast.expression_string_literal(SPAN, "a", None)).is_none());
    assert!(OpaqueNode::new(ast.expression_identifier(SPAN, "a")).is_none());
    let node = Node::FunctionExpression(ast.alloc(function(&arena)));
    assert!(OpaqueNode::new(node).is_none());
    let kind = FormalParameterKind::ArrowFormalParameters;
    let params = ast.formal_parameters(SPAN, kind, ast.vec(), NONE);
    let body = ast.function_body(SPAN, ast.vec(), ast.vec());
    let arrow = ast.expression_arrow_function(SPAN, false, false, NONE, params, NONE, body);
    assert!(OpaqueNode::new(arrow).is_none());
}

#[test]
fn side_effects_of_arithmetic() {
    let arena = Allocator::default();
    let ctx = ctx();
    let one = || number(&arena, 1.0);
    let big = |raw| Expression::Other { span: AT, node: big_int(&arena, raw).unwrap() };
    let arithmetic = |a, operator, b| binary(a, operator, b);
    assert!(!effects(&arithmetic(one(), BinaryOperator::Multiplication, one())));
    assert!(remove(&mut arithmetic(one(), BinaryOperator::Multiplication, one())));
    assert!(effects(&arithmetic(one(), BinaryOperator::Multiplication, local())));
    assert!(effects(&arithmetic(one(), BinaryOperator::Multiplication, big("1n"))));
    assert!(!effects(&arithmetic(big("1n"), BinaryOperator::Multiplication, big("1n"))));
    assert!(effects(&arithmetic(big("1n"), BinaryOperator::ShiftRightZeroFill, big("1n"))));
    assert!(!effects(&arithmetic(one(), BinaryOperator::ShiftRightZeroFill, one())));
    assert!(!effects(&arithmetic(big("1n"), BinaryOperator::Division, big("1n"))));
    assert!(effects(&arithmetic(big("1n"), BinaryOperator::Division, big("0n"))));
    assert!(effects(&arithmetic(big("1n"), BinaryOperator::Remainder, big("0n"))));
    assert!(!effects(&arithmetic(big("1n"), BinaryOperator::Exponential, big("0n"))));
    assert!(effects(&arithmetic(big("1n"), BinaryOperator::Exponential, big("-1n"))));
    let negated = || unary(UnaryOperator::UnaryNegation, big("1n"));
    assert!(effects(&arithmetic(big("1n"), BinaryOperator::Exponential, negated())));
    assert!(!effects(&arithmetic(big("1n"), BinaryOperator::Subtraction, negated())));
    assert!(effects(&arithmetic(one(), BinaryOperator::In, one())));
    assert!(!remove(&mut arithmetic(one(), BinaryOperator::In, one())));
    let object = || variable("Object", 1);
    assert!(!effects(&arithmetic(one(), BinaryOperator::Instanceof, object())));
    assert!(effects(&arithmetic(local(), BinaryOperator::Instanceof, object())));
    assert!(effects(&arithmetic(one(), BinaryOperator::Instanceof, variable("Object", 20))));
    assert!(effects(&arithmetic(one(), BinaryOperator::Instanceof, variable("Obj", 1))));
    let ty = |a, operator, b| arithmetic(a, operator, b).value_type(&ctx);
    assert_eq!(ty(one(), BinaryOperator::Subtraction, local()), ValueType::Number);
    assert_eq!(ty(local(), BinaryOperator::Subtraction, big("1n")), ValueType::BigInt);
    assert_eq!(ty(local(), BinaryOperator::Subtraction, local()), ValueType::Undetermined);
    assert_eq!(ty(local(), BinaryOperator::ShiftRightZeroFill, local()), ValueType::Number);
}

#[test]
fn side_effects_of_reads() {
    let arena = Allocator::default();
    assert!(!effects(&member(string("a"), "length")));
    assert!(!effects(&member(array(vec![item(local())]), "length")));
    assert!(effects(&member(array(vec![item(global())]), "length")));
    assert!(effects(&member(local(), "length")));
    assert!(effects(&member(string("a"), "size")));
    assert!(!effects(&index(string("a"), string("length"))));
    assert!(!effects(&index(string("a"), template(&["length"], vec![]))));
    assert!(effects(&index(string("a"), template(&["", ""], vec![string("length")]))));
    assert!(effects(&index(string("a"), local())));
    assert!(!effects(&index(array(vec![item(local())]), number(&arena, 0.0))));
    assert!(effects(&index(array(vec![item(local())]), number(&arena, 1.0))));
    assert!(effects(&index(local(), number(&arena, 0.0))));
}

#[test]
fn primitives_of_objects() {
    let ctx = ctx();
    let is_string = |e: Expression<'_>| e.primitive_is_string(&ctx);
    assert_eq!(is_string(object(name_key("a"), local())), Some(true));
    assert_eq!(is_string(object(private_key("toString"), local())), Some(true));
    assert_eq!(is_string(object(name_key("toString"), local())), None);
    assert_eq!(is_string(object(name_key("valueOf"), local())), None);
    let key = PropertyKey::Expression;
    assert_eq!(is_string(object(key(string("a")), local())), Some(true));
    assert_eq!(is_string(object(key(string("valueOf")), local())), None);
    assert_eq!(is_string(object(key(template(&["a"], vec![])), local())), Some(true));
    assert_eq!(is_string(object(key(template(&["toString"], vec![])), local())), None);
    assert_eq!(is_string(object(key(template(&["", ""], vec![null()])), local())), None);
    assert_eq!(is_string(object(key(null()), local())), None);
    assert_eq!(is_string(copies(local())), None);
    assert_eq!(is_string(copies(array(vec![]))), Some(true));
    assert_eq!(is_string(copies(object(name_key("a"), local()))), Some(true));
    assert_eq!(is_string(copies(object(name_key("valueOf"), local()))), None);
}
