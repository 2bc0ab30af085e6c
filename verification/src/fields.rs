//! The views of the tree keep every part of it in its place.
use crate::analysis::{primitive, primitive_is_string, primitive_is_symbol};
use crate::ast::{
    arguments_view, elements_view, expressions_view, members_view, no_span, properties_view,
    quasis_view, statements_view, Arg, Argument, ArrayExpressionElement, ArrowBody,
    Body, ClassElement, Element, Expr, Expression, Ident, Key, Member,
    ObjectPropertyKind, Prop, PropertyKey, Quasi, Span, Statement, Stmt, TemplateElement,
};
use crate::opaque::is_opaque;
use crate::rewrite::{blanked_string, is_empty_string, is_plain};
use crate::shape::{reads_as_big_int, shape_of, Shape};
use oxc_ast::ast::Expression as Node;
use oxc_ecmascript::constant_evaluation::ValueType;
use oxc_syntax::reference::ReferenceId;
use vstd::prelude::*;

verus! {

/// The view of an expression has its kind, and the views of its parts in their places.
pub proof fn law_expression_view(e: Expression<'_>)
    ensures
        match e {
            Expression::NullLiteral { span } => e@ == (Expr::Null { span }),
            Expression::StringLiteral { span, value, raw, lossy } => e@ == (Expr::Str {
                span,
                value: value@,
                raw: match raw {
                    Some(raw) => Some(raw@),
                    None => None,
                },
                lossy,
            }),
            Expression::Identifier(i) => e@ == Expr::Identifier(
                Ident { span: i.span, name: i.name@, reference_id: i.reference_id },
            ),
            Expression::TemplateLiteral { span, quasis, expressions } => e@ == (Expr::Template {
                span,
                quasis: quasis@.map_values(|q: TemplateElement| q@),
                expressions: expressions@.map_values(|x: Expression<'_>| x@),
            }),
            Expression::ArrayExpression { span, elements, trailing_comma } => e@ == (Expr::Array {
                span,
                elements: elements@.map_values(|x: ArrayExpressionElement<'_>| x@),
                trailing_comma,
            }),
            Expression::ObjectExpression { span, properties, trailing_comma } => e@
                == (Expr::Object {
                span,
                properties: properties@.map_values(|x: ObjectPropertyKind<'_>| x@),
                trailing_comma,
            }),
            Expression::UnaryExpression { span, operator, argument } => e@ == (Expr::Unary {
                span,
                operator,
                argument: Box::new(argument@),
            }),
            Expression::BinaryExpression { span, left, operator, right } => e@ == (Expr::Binary {
                span,
                left: Box::new(left@),
                operator,
                right: Box::new(right@),
            }),
            Expression::LogicalExpression { span, left, operator, right } => e@ == (Expr::Logical {
                span,
                left: Box::new(left@),
                operator,
                right: Box::new(right@),
            }),
            Expression::ConditionalExpression { span, test, consequent, alternate } => e@
                == (Expr::Conditional {
                span,
                test: Box::new(test@),
                consequent: Box::new(consequent@),
                alternate: Box::new(alternate@),
            }),
            Expression::SequenceExpression { span, expressions } => e@ == (Expr::Sequence {
                span,
                expressions: expressions@.map_values(|x: Expression<'_>| x@),
            }),
            Expression::CallExpression { span, callee, arguments, optional, pure } => e@
                == (Expr::Call {
                span,
                callee: Box::new(callee@),
                arguments: arguments@.map_values(|x: Argument<'_>| x@),
                optional,
                pure,
            }),
            Expression::NewExpression { span, callee, arguments, pure } => e@ == (Expr::New {
                span,
                callee: Box::new(callee@),
                arguments: arguments@.map_values(|x: Argument<'_>| x@),
                pure,
            }),
            Expression::StaticMemberExpression { span, object, property, optional } => e@
                == (Expr::StaticMember {
                span,
                object: Box::new(object@),
                property_span: property.span,
                property: property.name@,
                optional,
            }),
            Expression::ComputedMemberExpression { span, object, expression, optional } => e@
                == (Expr::ComputedMember {
                span,
                object: Box::new(object@),
                expression: Box::new(expression@),
                optional,
            }),
            Expression::ChainExpression { span, expression } => e@ == (Expr::Chain {
                span,
                expression: Box::new(expression@),
            }),
            Expression::FunctionExpression { span, function } => e@ == (Expr::Function {
                span,
                params: function.outline().params,
                body: function.outline().body,
                node: function@,
            }),
            Expression::ArrowFunctionExpression { span, is_async, body, function } => e@
                == (Expr::Arrow {
                span,
                is_async,
                params: function.params(),
                body: body@,
                node: function@,
            }),
            Expression::ParenthesizedExpression { span, expression } => e@
                == (Expr::Parenthesized { span, expression: Box::new(expression@) }),
            Expression::ClassExpression { span, decorators, super_class, elements, node } => e@
                == (Expr::Class {
                span,
                decorators: decorators@,
                super_class: match super_class {
                    Some(x) => Some(Box::new(x@)),
                    None => None,
                },
                elements: elements@.map_values(|x: ClassElement<'_>| x@),
                node,
            }),
            Expression::Other { span, node } => e@ == (Expr::Other { span, node: node@ }),
        },
{
    match e {
        Expression::TemplateLiteral { quasis, expressions, .. } => {
            assert(quasis_view(quasis@) =~= quasis@.map_values(|q: TemplateElement| q@));
            assert(expressions_view(expressions@) =~= expressions@.map_values(
                |x: Expression<'_>| x@,
            ));
        },
        Expression::ArrayExpression { elements, .. } => {
            assert(elements_view(elements@) =~= elements@.map_values(
                |x: ArrayExpressionElement<'_>| x@,
            ));
        },
        Expression::ObjectExpression { properties, .. } => {
            assert(properties_view(properties@) =~= properties@.map_values(
                |x: ObjectPropertyKind<'_>| x@,
            ));
        },
        Expression::SequenceExpression { expressions, .. } => {
            assert(expressions_view(expressions@) =~= expressions@.map_values(
                |x: Expression<'_>| x@,
            ));
        },
        Expression::CallExpression { arguments, .. } => {
            assert(arguments_view(arguments@) =~= arguments@.map_values(|x: Argument<'_>| x@));
        },
        Expression::NewExpression { arguments, .. } => {
            assert(arguments_view(arguments@) =~= arguments@.map_values(|x: Argument<'_>| x@));
        },
        Expression::ClassExpression { elements, .. } => {
            assert(members_view(elements@) =~= elements@.map_values(|x: ClassElement<'_>| x@));
        },
        _ => {},
    }
}

/// The views of the parts of literals and of arguments have their kinds and parts in their places.
pub proof fn law_part_views(
    element: ArrayExpressionElement<'_>,
    argument: Argument<'_>,
    key: PropertyKey<'_>,
    property: ObjectPropertyKind<'_>,
    quasi: TemplateElement,
)
    ensures
        match element {
            ArrayExpressionElement::SpreadElement { span, argument } => element@
                == (Element::Spread { span, argument: argument@ }),
            ArrayExpressionElement::Elision { span } => element@ == (Element::Elision { span }),
            ArrayExpressionElement::Expression(e) => element@ == Element::Expression(e@),
        },
        match argument {
            Argument::SpreadElement { span, argument: x } => argument@ == (Arg::Spread {
                span,
                argument: x@,
            }),
            Argument::Expression(e) => argument@ == Arg::Expression(e@),
        },
        match key {
            PropertyKey::StaticIdentifier { span, name } => key@ == (Key::Static {
                span,
                name: name@,
            }),
            PropertyKey::PrivateIdentifier { span, name } => key@ == (Key::Private {
                span,
                name: name@,
            }),
            PropertyKey::Expression(e) => key@ == Key::Expression(e@),
        },
        match property {
            ObjectPropertyKind::ObjectProperty {
                span,
                kind,
                key,
                value,
                method,
                shorthand,
                computed,
            } => property@ == (Prop::Property {
                span,
                kind,
                key: key@,
                value: value@,
                method,
                shorthand,
                computed,
            }),
            ObjectPropertyKind::SpreadProperty { span, argument } => property@ == (Prop::Spread {
                span,
                argument: argument@,
            }),
        },
        quasi@ == (Quasi {
            span: quasi.span,
            raw: quasi.raw@,
            cooked: match quasi.cooked {
                Some(cooked) => Some(cooked@),
                None => None,
            },
            tail: quasi.tail,
        }),
{
}

/// The views of the parts of functions and classes have their kinds and parts in their places.
pub proof fn law_body_views(
    body: ArrowBody<'_>,
    statement: Statement<'_>,
    element: ClassElement<'_>,
)
    ensures
        match body {
            ArrowBody::Expression(e) => body@ == Body::Expression(Box::new(e@)),
            ArrowBody::Block { directives, statements } => body@ == (Body::Block {
                directives: directives@,
                statements: statements@.map_values(|x: Statement<'_>| x@),
            }),
        },
        match statement {
            Statement::ExpressionStatement { span, expression } => statement@
                == (Stmt::Expression { span, expression: expression@ }),
            Statement::ReturnStatement { span, argument } => statement@ == (Stmt::Return {
                span,
                argument: match argument {
                    Some(e) => Some(e@),
                    None => None,
                },
            }),
            Statement::Other(node) => statement@ == Stmt::Other(node),
        },
        match element {
            ClassElement::StaticBlock { statements, node } => element@ == (Member::StaticBlock {
                statements: statements@,
                node,
            }),
            ClassElement::MethodDefinition { decorators, key, node } => element@
                == (Member::Method { decorators: decorators@, key: key@, node }),
            ClassElement::PropertyDefinition { decorators, key, value, is_static, node } => element@
                == (Member::Property {
                decorators: decorators@,
                key: key@,
                value: match value {
                    Some(e) => Some(e@),
                    None => None,
                },
                is_static,
                node,
            }),
            ClassElement::AccessorProperty { decorators, key, node } => element@
                == (Member::Accessor { decorators: decorators@, key: key@, node }),
            ClassElement::TSIndexSignature { node } => element@ == (Member::IndexSignature {
                node,
            }),
        },
{
    match body {
        ArrowBody::Block { statements, .. } => {
            assert(statements_view(statements@) =~= statements@.map_values(
                |x: Statement<'_>| x@,
            ));
        },
        _ => {},
    }
}

/// A node can be carried through if and only if it is a number, a boolean, a regular expression,
/// `this`, `super`, a meta property, a bigint that can be read, or of a kind without a shape.
pub proof fn law_opaque(node: Node<'_>)
    ensures
        is_opaque(node) == match shape_of(node) {
            Shape::Number(_)
            | Shape::Boolean(_)
            | Shape::RegExp(_)
            | Shape::This
            | Shape::Super
            | Shape::Meta { .. }
            | Shape::Other(_) => true,
            Shape::BigInt(raw) => reads_as_big_int(raw),
            _ => false,
        },
{
}

/// What is asked of a primitive is answered where it is known, and only there.
pub proof fn law_primitive_questions(shape: Shape, globals: Seq<ReferenceId>)
    ensures
        primitive_is_symbol(shape, globals) is None <==> primitive(shape, globals) is Undetermined,
        primitive_is_string(shape, globals) is None <==> primitive(shape, globals) is Undetermined,
        primitive_is_symbol(shape, globals) == Some(true) <==> primitive(shape, globals) is Symbol,
        primitive_is_string(shape, globals) == Some(true) <==> primitive(shape, globals) is String,
{
}

/// Blanking makes an empty string literal, in the same place, of what has no side effects and is
/// none already.
pub proof fn law_blanked(e: Expr<'_>, effects: bool)
    ensures
        ({
            let is_blank = e is Str && e->Str_value.len() == 0;
            let (blanked, changed) = blanked_string(e, effects);
            &&& is_empty_string(e) == is_blank
            &&& changed == !(effects || is_blank)
            &&& !changed ==> blanked == e
            &&& changed ==> blanked == (Expr::Str {
                span: e.span(),
                value: seq![],
                raw: None,
                lossy: false,
            })
        }),
{
}

/// A plain value is one that is computed without side effects and whose type is known, and is
/// neither that of objects nor that of bigints.
pub proof fn law_plain(ty: ValueType, effects: bool)
    ensures
        is_plain(ty, effects) == !(effects || ty is Object || ty is BigInt || ty is Undetermined),
{
}

/// What no source text stands for is at the beginning of it, and has no length.
pub proof fn law_no_span()
    ensures
        no_span() == (Span { start: 0, end: 0 }),
{
}

} // verus!
