//! The expression tree that the pass rewrites, and its mathematical view.
//!
//! A node holds as plain values what the pass reads of it. What the pass never looks into is
//! carried through as the syntax node that the parser built.
use crate::opaque::{OpaqueArrow, OpaqueFunction, OpaqueNode};
use oxc_ast::ast::AccessorProperty as AccessorNode;
use oxc_ast::ast::ArrowFunctionExpression as ArrowNode;
use oxc_ast::ast::Class as ClassNode;
use oxc_ast::ast::Decorator as DecoratorNode;
use oxc_ast::ast::Directive as DirectiveNode;
use oxc_ast::ast::Expression as Node;
use oxc_ast::ast::Function as FunctionNode;
use oxc_ast::ast::MethodDefinition as MethodNode;
use oxc_ast::ast::PropertyDefinition as PropertyDefinitionNode;
use oxc_ast::ast::PropertyKind;
use oxc_ast::ast::Statement as StatementNode;
use oxc_ast::ast::StaticBlock as StaticBlockNode;
use oxc_ast::ast::TSIndexSignature as IndexSignatureNode;
use oxc_syntax::operator::{BinaryOperator, LogicalOperator, UnaryOperator};
use oxc_syntax::reference::ReferenceId;
use vstd::prelude::*;

verus! {

/// A syntax node of the parser: opaque here.
#[verifier::external_type_specification]
#[verifier::external_body]
pub struct ExNode<'a>(Node<'a>);

/// A function of the parser's syntax tree: opaque here.
#[verifier::external_type_specification]
#[verifier::external_body]
pub struct ExFunctionNode<'a>(FunctionNode<'a>);

/// An arrow function of the parser's syntax tree: opaque here.
#[verifier::external_type_specification]
#[verifier::external_body]
pub struct ExArrowNode<'a>(ArrowNode<'a>);

/// A class of the parser's syntax tree: opaque here.
#[verifier::external_type_specification]
#[verifier::external_body]
pub struct ExClassNode<'a>(ClassNode<'a>);

/// A static block of a class of the parser's syntax tree: opaque here.
#[verifier::external_type_specification]
#[verifier::external_body]
pub struct ExStaticBlockNode<'a>(StaticBlockNode<'a>);

/// A method of a class of the parser's syntax tree: opaque here.
#[verifier::external_type_specification]
#[verifier::external_body]
pub struct ExMethodNode<'a>(MethodNode<'a>);

/// A property of a class of the parser's syntax tree: opaque here.
#[verifier::external_type_specification]
#[verifier::external_body]
pub struct ExPropertyDefinitionNode<'a>(PropertyDefinitionNode<'a>);

/// An accessor of a class of the parser's syntax tree: opaque here.
#[verifier::external_type_specification]
#[verifier::external_body]
pub struct ExAccessorNode<'a>(AccessorNode<'a>);

/// An index signature of a class of the parser's syntax tree: opaque here.
#[verifier::external_type_specification]
#[verifier::external_body]
pub struct ExIndexSignatureNode<'a>(IndexSignatureNode<'a>);

/// A decorator of the parser's syntax tree: opaque here.
#[verifier::external_type_specification]
#[verifier::external_body]
pub struct ExDecoratorNode<'a>(DecoratorNode<'a>);

/// A statement of the parser's syntax tree: opaque here.
#[verifier::external_type_specification]
#[verifier::external_body]
pub struct ExStatementNode<'a>(StatementNode<'a>);

/// A directive of the parser's syntax tree: opaque here.
#[verifier::external_type_specification]
#[verifier::external_body]
pub struct ExDirectiveNode<'a>(DirectiveNode<'a>);

/// The identity of a reference, as semantic analysis numbers them: opaque here.
#[verifier::external_type_specification]
#[verifier::external_body]
pub struct ExReferenceId(ReferenceId);

#[verifier::external_type_specification]
pub struct ExUnaryOperator(UnaryOperator);

#[verifier::external_type_specification]
pub struct ExBinaryOperator(BinaryOperator);

#[verifier::external_type_specification]
pub struct ExLogicalOperator(LogicalOperator);

#[verifier::external_type_specification]
pub struct ExPropertyKind(PropertyKind);

/// A range of bytes of the source text.
#[derive(Clone, Copy, PartialEq, Eq, Structural, Debug)]
pub struct Span {
    pub start: u32,
    pub end: u32,
}

/// A use of a variable.
#[derive(Debug)]
pub struct IdentifierReference {
    pub span: Span,
    pub name: String,
    /// `None` where semantic analysis gave the identifier no reference.
    pub reference_id: Option<ReferenceId>,
}

/// The name behind the dot of a member access.
#[derive(Debug)]
pub struct IdentifierName {
    pub span: Span,
    pub name: String,
}

/// One of the strings between the substitutions of a template literal.
#[derive(Debug)]
pub struct TemplateElement {
    pub span: Span,
    pub raw: String,
    pub cooked: Option<String>,
    pub tail: bool,
}

/// How many parameters a function declares, and whether it has a rest parameter.
#[derive(Clone, Copy, PartialEq, Eq, Structural, Debug)]
pub struct FormalParameters {
    pub items: usize,
    pub rest: bool,
}

/// How many directives and statements the body of a function has.
#[derive(Clone, Copy, PartialEq, Eq, Structural, Debug)]
pub struct FunctionBody {
    pub directives: usize,
    pub statements: usize,
}

/// A statement in the body of an arrow function.
#[derive(Debug)]
pub enum Statement<'a> {
    ExpressionStatement { span: Span, expression: Expression<'a> },
    ReturnStatement { span: Span, argument: Option<Expression<'a>> },
    Other(StatementNode<'a>),
}

/// The body of an arrow function.
#[derive(Debug)]
pub enum ArrowBody<'a> {
    /// `() => expression`
    Expression(Box<Expression<'a>>),
    /// `() => { statements }`
    Block { directives: Vec<DirectiveNode<'a>>, statements: Vec<Statement<'a>> },
}

#[derive(Debug)]
pub enum ArrayExpressionElement<'a> {
    SpreadElement { span: Span, argument: Expression<'a> },
    Elision { span: Span },
    Expression(Expression<'a>),
}

#[derive(Debug)]
pub enum Argument<'a> {
    SpreadElement { span: Span, argument: Expression<'a> },
    Expression(Expression<'a>),
}

#[derive(Debug)]
pub enum PropertyKey<'a> {
    StaticIdentifier { span: Span, name: String },
    PrivateIdentifier { span: Span, name: String },
    Expression(Expression<'a>),
}

#[derive(Debug)]
pub enum ObjectPropertyKind<'a> {
    ObjectProperty {
        span: Span,
        kind: PropertyKind,
        key: PropertyKey<'a>,
        value: Expression<'a>,
        method: bool,
        shorthand: bool,
        computed: bool,
    },
    SpreadProperty { span: Span, argument: Expression<'a> },
}

/// An element of a class. `node` stands for the rest of it: what is held beside it counts for
/// nothing in `node`.
#[allow(inconsistent_fields)]
#[derive(Debug)]
pub enum ClassElement<'a> {
    StaticBlock { statements: Vec<StatementNode<'a>>, node: StaticBlockNode<'a> },
    MethodDefinition {
        decorators: Vec<DecoratorNode<'a>>,
        key: PropertyKey<'a>,
        node: MethodNode<'a>,
    },
    PropertyDefinition {
        decorators: Vec<DecoratorNode<'a>>,
        key: PropertyKey<'a>,
        value: Option<Expression<'a>>,
        is_static: bool,
        node: PropertyDefinitionNode<'a>,
    },
    AccessorProperty {
        decorators: Vec<DecoratorNode<'a>>,
        key: PropertyKey<'a>,
        node: AccessorNode<'a>,
    },
    TSIndexSignature { node: IndexSignatureNode<'a> },
}

/// An expression.
#[allow(inconsistent_fields)]
#[derive(Debug)]
pub enum Expression<'a> {
    NullLiteral { span: Span },
    StringLiteral { span: Span, value: String, raw: Option<String>, lossy: bool },
    Identifier(IdentifierReference),
    TemplateLiteral {
        span: Span,
        quasis: Vec<TemplateElement>,
        expressions: Vec<Expression<'a>>,
    },
    ArrayExpression {
        span: Span,
        elements: Vec<ArrayExpressionElement<'a>>,
        trailing_comma: Option<Span>,
    },
    ObjectExpression {
        span: Span,
        properties: Vec<ObjectPropertyKind<'a>>,
        trailing_comma: Option<Span>,
    },
    UnaryExpression { span: Span, operator: UnaryOperator, argument: Box<Expression<'a>> },
    BinaryExpression {
        span: Span,
        left: Box<Expression<'a>>,
        operator: BinaryOperator,
        right: Box<Expression<'a>>,
    },
    LogicalExpression {
        span: Span,
        left: Box<Expression<'a>>,
        operator: LogicalOperator,
        right: Box<Expression<'a>>,
    },
    ConditionalExpression {
        span: Span,
        test: Box<Expression<'a>>,
        consequent: Box<Expression<'a>>,
        alternate: Box<Expression<'a>>,
    },
    SequenceExpression { span: Span, expressions: Vec<Expression<'a>> },
    CallExpression {
        span: Span,
        callee: Box<Expression<'a>>,
        arguments: Vec<Argument<'a>>,
        optional: bool,
        /// Whether a `/* @__PURE__ */` comment marks the call.
        pure: bool,
    },
    NewExpression {
        span: Span,
        callee: Box<Expression<'a>>,
        arguments: Vec<Argument<'a>>,
        /// Whether a `/* @__PURE__ */` comment marks the call.
        pure: bool,
    },
    StaticMemberExpression {
        span: Span,
        object: Box<Expression<'a>>,
        property: IdentifierName,
        optional: bool,
    },
    ComputedMemberExpression {
        span: Span,
        object: Box<Expression<'a>>,
        expression: Box<Expression<'a>>,
        optional: bool,
    },
    /// `expression` is a call or a member access, some link of which is optional.
    ChainExpression { span: Span, expression: Box<Expression<'a>> },
    FunctionExpression { span: Span, function: OpaqueFunction<'a> },
    /// `function` stands for the rest: its own body and `async` count for nothing.
    ArrowFunctionExpression {
        span: Span,
        is_async: bool,
        body: ArrowBody<'a>,
        function: OpaqueArrow<'a>,
    },
    ParenthesizedExpression { span: Span, expression: Box<Expression<'a>> },
    /// `node` stands for the rest: its own decorators, superclass and elements count for nothing.
    ClassExpression {
        span: Span,
        decorators: Vec<DecoratorNode<'a>>,
        super_class: Option<Box<Expression<'a>>>,
        elements: Vec<ClassElement<'a>>,
        node: ClassNode<'a>,
    },
    /// An expression of a kind that neither the pass nor the analyses look into.
    Other { span: Span, node: OpaqueNode<'a> },
}

/// View of an [`IdentifierReference`].
pub struct Ident {
    pub span: Span,
    pub name: Seq<char>,
    pub reference_id: Option<ReferenceId>,
}

/// View of a [`TemplateElement`].
pub struct Quasi {
    pub span: Span,
    pub raw: Seq<char>,
    pub cooked: Option<Seq<char>>,
    pub tail: bool,
}

/// View of a [`Statement`].
pub enum Stmt<'a> {
    Expression { span: Span, expression: Expr<'a> },
    Return { span: Span, argument: Option<Expr<'a>> },
    Other(StatementNode<'a>),
}

/// View of an [`ArrowBody`].
pub enum Body<'a> {
    Expression(Box<Expr<'a>>),
    Block { directives: Seq<DirectiveNode<'a>>, statements: Seq<Stmt<'a>> },
}

/// View of an [`ArrayExpressionElement`].
pub enum Element<'a> {
    Spread { span: Span, argument: Expr<'a> },
    Elision { span: Span },
    Expression(Expr<'a>),
}

/// View of an [`Argument`].
pub enum Arg<'a> {
    Spread { span: Span, argument: Expr<'a> },
    Expression(Expr<'a>),
}

/// View of a [`PropertyKey`].
pub enum Key<'a> {
    Static { span: Span, name: Seq<char> },
    Private { span: Span, name: Seq<char> },
    Expression(Expr<'a>),
}

/// View of an [`ObjectPropertyKind`].
pub enum Prop<'a> {
    Property {
        span: Span,
        kind: PropertyKind,
        key: Key<'a>,
        value: Expr<'a>,
        method: bool,
        shorthand: bool,
        computed: bool,
    },
    Spread { span: Span, argument: Expr<'a> },
}

/// View of a [`ClassElement`].
#[allow(inconsistent_fields)]
pub enum Member<'a> {
    StaticBlock { statements: Seq<StatementNode<'a>>, node: StaticBlockNode<'a> },
    Method { decorators: Seq<DecoratorNode<'a>>, key: Key<'a>, node: MethodNode<'a> },
    Property {
        decorators: Seq<DecoratorNode<'a>>,
        key: Key<'a>,
        value: Option<Expr<'a>>,
        is_static: bool,
        node: PropertyDefinitionNode<'a>,
    },
    Accessor { decorators: Seq<DecoratorNode<'a>>, key: Key<'a>, node: AccessorNode<'a> },
    IndexSignature { node: IndexSignatureNode<'a> },
}

/// View of an [`Expression`].
#[allow(inconsistent_fields)]
pub enum Expr<'a> {
    Null { span: Span },
    Str { span: Span, value: Seq<char>, raw: Option<Seq<char>>, lossy: bool },
    Identifier(Ident),
    Template { span: Span, quasis: Seq<Quasi>, expressions: Seq<Expr<'a>> },
    Array { span: Span, elements: Seq<Element<'a>>, trailing_comma: Option<Span> },
    Object { span: Span, properties: Seq<Prop<'a>>, trailing_comma: Option<Span> },
    Unary { span: Span, operator: UnaryOperator, argument: Box<Expr<'a>> },
    Binary { span: Span, left: Box<Expr<'a>>, operator: BinaryOperator, right: Box<Expr<'a>> },
    Logical { span: Span, left: Box<Expr<'a>>, operator: LogicalOperator, right: Box<Expr<'a>> },
    Conditional {
        span: Span,
        test: Box<Expr<'a>>,
        consequent: Box<Expr<'a>>,
        alternate: Box<Expr<'a>>,
    },
    Sequence { span: Span, expressions: Seq<Expr<'a>> },
    Call {
        span: Span,
        callee: Box<Expr<'a>>,
        arguments: Seq<Arg<'a>>,
        optional: bool,
        pure: bool,
    },
    New { span: Span, callee: Box<Expr<'a>>, arguments: Seq<Arg<'a>>, pure: bool },
    StaticMember {
        span: Span,
        object: Box<Expr<'a>>,
        property_span: Span,
        property: Seq<char>,
        optional: bool,
    },
    ComputedMember {
        span: Span,
        object: Box<Expr<'a>>,
        expression: Box<Expr<'a>>,
        optional: bool,
    },
    Chain { span: Span, expression: Box<Expr<'a>> },
    Function {
        span: Span,
        params: FormalParameters,
        body: Option<FunctionBody>,
        node: FunctionNode<'a>,
    },
    Arrow {
        span: Span,
        is_async: bool,
        params: FormalParameters,
        body: Body<'a>,
        node: ArrowNode<'a>,
    },
    Parenthesized { span: Span, expression: Box<Expr<'a>> },
    Class {
        span: Span,
        decorators: Seq<DecoratorNode<'a>>,
        super_class: Option<Box<Expr<'a>>>,
        elements: Seq<Member<'a>>,
        node: ClassNode<'a>,
    },
    Other { span: Span, node: Node<'a> },
}

/// View of an optional string.
pub open spec fn text_view(s: Option<String>) -> Option<Seq<char>> {
    match s {
        Some(s) => Some(s@),
        None => None,
    }
}

impl IdentifierReference {
    pub open spec fn view(&self) -> Ident {
        Ident { span: self.span, name: self.name@, reference_id: self.reference_id }
    }
}

impl TemplateElement {
    pub open spec fn view(&self) -> Quasi {
        Quasi {
            span: self.span,
            raw: self.raw@,
            cooked: text_view(self.cooked),
            tail: self.tail,
        }
    }
}

/// View of a list of expressions.
pub open spec fn expressions_view<'a>(s: Seq<Expression<'a>>) -> Seq<Expr<'a>>
    decreases s,
{
    Seq::new(s.len(), |i: int| if 0 <= i < s.len() { s[i].view() } else { arbitrary() })
}

/// View of a list of statements.
pub open spec fn statements_view<'a>(s: Seq<Statement<'a>>) -> Seq<Stmt<'a>>
    decreases s,
{
    Seq::new(s.len(), |i: int| if 0 <= i < s.len() { s[i].view() } else { arbitrary() })
}

/// View of a list of array elements.
pub open spec fn elements_view<'a>(s: Seq<ArrayExpressionElement<'a>>) -> Seq<Element<'a>>
    decreases s,
{
    Seq::new(s.len(), |i: int| if 0 <= i < s.len() { s[i].view() } else { arbitrary() })
}

/// View of a list of arguments.
pub open spec fn arguments_view<'a>(s: Seq<Argument<'a>>) -> Seq<Arg<'a>>
    decreases s,
{
    Seq::new(s.len(), |i: int| if 0 <= i < s.len() { s[i].view() } else { arbitrary() })
}

/// View of a list of properties.
pub open spec fn properties_view<'a>(s: Seq<ObjectPropertyKind<'a>>) -> Seq<Prop<'a>>
    decreases s,
{
    Seq::new(s.len(), |i: int| if 0 <= i < s.len() { s[i].view() } else { arbitrary() })
}

/// View of a list of elements of a class.
pub open spec fn members_view<'a>(s: Seq<ClassElement<'a>>) -> Seq<Member<'a>>
    decreases s,
{
    Seq::new(s.len(), |i: int| if 0 <= i < s.len() { s[i].view() } else { arbitrary() })
}

/// View of a list of template elements.
pub open spec fn quasis_view(s: Seq<TemplateElement>) -> Seq<Quasi> {
    Seq::new(s.len(), |i: int| s[i].view())
}

impl<'a> Statement<'a> {
    pub open spec fn view(&self) -> Stmt<'a>
        decreases self,
    {
        match self {
            Statement::ExpressionStatement { span, expression } => Stmt::Expression {
                span: *span,
                expression: expression.view(),
            },
            Statement::ReturnStatement { span, argument } => Stmt::Return {
                span: *span,
                argument: match argument {
                    Some(e) => Some(e.view()),
                    None => None,
                },
            },
            Statement::Other(node) => Stmt::Other(*node),
        }
    }
}

impl<'a> ArrowBody<'a> {
    pub open spec fn view(&self) -> Body<'a>
        decreases self,
    {
        match self {
            ArrowBody::Expression(e) => Body::Expression(Box::new(e.view())),
            ArrowBody::Block { directives, statements } => Body::Block {
                directives: directives@,
                statements: statements_view(statements@),
            },
        }
    }
}

impl<'a> ArrayExpressionElement<'a> {
    pub open spec fn view(&self) -> Element<'a>
        decreases self,
    {
        match self {
            ArrayExpressionElement::SpreadElement { span, argument } => Element::Spread {
                span: *span,
                argument: argument.view(),
            },
            ArrayExpressionElement::Elision { span } => Element::Elision { span: *span },
            ArrayExpressionElement::Expression(e) => Element::Expression(e.view()),
        }
    }
}

impl<'a> Argument<'a> {
    pub open spec fn view(&self) -> Arg<'a>
        decreases self,
    {
        match self {
            Argument::SpreadElement { span, argument } => Arg::Spread {
                span: *span,
                argument: argument.view(),
            },
            Argument::Expression(e) => Arg::Expression(e.view()),
        }
    }
}

impl<'a> PropertyKey<'a> {
    pub open spec fn view(&self) -> Key<'a>
        decreases self,
    {
        match self {
            PropertyKey::StaticIdentifier { span, name } => Key::Static {
                span: *span,
                name: name@,
            },
            PropertyKey::PrivateIdentifier { span, name } => Key::Private {
                span: *span,
                name: name@,
            },
            PropertyKey::Expression(e) => Key::Expression(e.view()),
        }
    }
}

impl<'a> ObjectPropertyKind<'a> {
    pub open spec fn view(&self) -> Prop<'a>
        decreases self,
    {
        match self {
            ObjectPropertyKind::ObjectProperty {
                span,
                kind,
                key,
                value,
                method,
                shorthand,
                computed,
            } => Prop::Property {
                span: *span,
                kind: *kind,
                key: key.view(),
                value: value.view(),
                method: *method,
                shorthand: *shorthand,
                computed: *computed,
            },
            ObjectPropertyKind::SpreadProperty { span, argument } => Prop::Spread {
                span: *span,
                argument: argument.view(),
            },
        }
    }
}

impl<'a> ClassElement<'a> {
    pub open spec fn view(&self) -> Member<'a>
        decreases self,
    {
        match self {
            ClassElement::StaticBlock { statements, node } => Member::StaticBlock {
                statements: statements@,
                node: *node,
            },
            ClassElement::MethodDefinition { decorators, key, node } => Member::Method {
                decorators: decorators@,
                key: key.view(),
                node: *node,
            },
            ClassElement::PropertyDefinition { decorators, key, value, is_static, node } =>
                Member::Property {
                decorators: decorators@,
                key: key.view(),
                value: match value {
                    Some(e) => Some(e.view()),
                    None => None,
                },
                is_static: *is_static,
                node: *node,
            },
            ClassElement::AccessorProperty { decorators, key, node } => Member::Accessor {
                decorators: decorators@,
                key: key.view(),
                node: *node,
            },
            ClassElement::TSIndexSignature { node } => Member::IndexSignature { node: *node },
        }
    }
}

impl<'a> Expression<'a> {
    pub open spec fn view(&self) -> Expr<'a>
        decreases self,
    {
        match self {
            Expression::NullLiteral { span } => Expr::Null { span: *span },
            Expression::StringLiteral { span, value, raw, lossy } => Expr::Str {
                span: *span,
                value: value@,
                raw: text_view(*raw),
                lossy: *lossy,
            },
            Expression::Identifier(i) => Expr::Identifier(i.view()),
            Expression::TemplateLiteral { span, quasis, expressions } => Expr::Template {
                span: *span,
                quasis: quasis_view(quasis@),
                expressions: expressions_view(expressions@),
            },
            Expression::ArrayExpression { span, elements, trailing_comma } => Expr::Array {
                span: *span,
                elements: elements_view(elements@),
                trailing_comma: *trailing_comma,
            },
            Expression::ObjectExpression { span, properties, trailing_comma } => Expr::Object {
                span: *span,
                properties: properties_view(properties@),
                trailing_comma: *trailing_comma,
            },
            Expression::UnaryExpression { span, operator, argument } => Expr::Unary {
                span: *span,
                operator: *operator,
                argument: Box::new(argument.view()),
            },
            Expression::BinaryExpression { span, left, operator, right } => Expr::Binary {
                span: *span,
                left: Box::new(left.view()),
                operator: *operator,
                right: Box::new(right.view()),
            },
            Expression::LogicalExpression { span, left, operator, right } => Expr::Logical {
                span: *span,
                left: Box::new(left.view()),
                operator: *operator,
                right: Box::new(right.view()),
            },
            Expression::ConditionalExpression { span, test, consequent, alternate } =>
                Expr::Conditional {
                span: *span,
                test: Box::new(test.view()),
                consequent: Box::new(consequent.view()),
                alternate: Box::new(alternate.view()),
            },
            Expression::SequenceExpression { span, expressions } => Expr::Sequence {
                span: *span,
                expressions: expressions_view(expressions@),
            },
            Expression::CallExpression { span, callee, arguments, optional, pure } => Expr::Call {
                span: *span,
                callee: Box::new(callee.view()),
                arguments: arguments_view(arguments@),
                optional: *optional,
                pure: *pure,
            },
            Expression::NewExpression { span, callee, arguments, pure } => Expr::New {
                span: *span,
                callee: Box::new(callee.view()),
                arguments: arguments_view(arguments@),
                pure: *pure,
            },
            Expression::StaticMemberExpression { span, object, property, optional } =>
                Expr::StaticMember {
                span: *span,
                object: Box::new(object.view()),
                property_span: property.span,
                property: property.name@,
                optional: *optional,
            },
            Expression::ComputedMemberExpression { span, object, expression, optional } =>
                Expr::ComputedMember {
                span: *span,
                object: Box::new(object.view()),
                expression: Box::new(expression.view()),
                optional: *optional,
            },
            Expression::ChainExpression { span, expression } => Expr::Chain {
                span: *span,
                expression: Box::new(expression.view()),
            },
            Expression::FunctionExpression { span, function } => Expr::Function {
                span: *span,
                params: function.outline().params,
                body: function.outline().body,
                node: function.view(),
            },
            Expression::ArrowFunctionExpression { span, is_async, body, function } => Expr::Arrow {
                span: *span,
                is_async: *is_async,
                params: function.params(),
                body: body.view(),
                node: function.view(),
            },
            Expression::ParenthesizedExpression { span, expression } => Expr::Parenthesized {
                span: *span,
                expression: Box::new(expression.view()),
            },
            Expression::ClassExpression { span, decorators, super_class, elements, node } =>
                Expr::Class {
                span: *span,
                decorators: decorators@,
                super_class: match super_class {
                    Some(e) => Some(Box::new(e.view())),
                    None => None,
                },
                elements: members_view(elements@),
                node: *node,
            },
            Expression::Other { span, node } => Expr::Other { span: *span, node: node.view() },
        }
    }
}

impl<'a> Expr<'a> {
    pub open spec fn span(self) -> Span {
        match self {
            Expr::Identifier(i) => i.span,
            Expr::Null { span, .. } => span,
            Expr::Str { span, .. } => span,
            Expr::Template { span, .. } => span,
            Expr::Array { span, .. } => span,
            Expr::Object { span, .. } => span,
            Expr::Unary { span, .. } => span,
            Expr::Binary { span, .. } => span,
            Expr::Logical { span, .. } => span,
            Expr::Conditional { span, .. } => span,
            Expr::Sequence { span, .. } => span,
            Expr::Call { span, .. } => span,
            Expr::New { span, .. } => span,
            Expr::StaticMember { span, .. } => span,
            Expr::ComputedMember { span, .. } => span,
            Expr::Chain { span, .. } => span,
            Expr::Function { span, .. } => span,
            Expr::Arrow { span, .. } => span,
            Expr::Parenthesized { span, .. } => span,
            Expr::Class { span, .. } => span,
            Expr::Other { span, .. } => span,
        }
    }
}

/// The position of what no source text stands for.
pub open spec fn no_span() -> Span {
    Span { start: 0, end: 0 }
}

impl Span {
    pub fn unspanned() -> (span: Span)
        ensures
            span == no_span(),
    {
        Span { start: 0, end: 0 }
    }
}

impl<'a> Expression<'a> {
    /// The position of the expression in the source text.
    pub fn span(&self) -> (span: Span)
        ensures
            span == self@.span(),
    {
        match self {
            Expression::Identifier(ident) => ident.span,
            Expression::NullLiteral { span, .. } => *span,
            Expression::StringLiteral { span, .. } => *span,
            Expression::TemplateLiteral { span, .. } => *span,
            Expression::ArrayExpression { span, .. } => *span,
            Expression::ObjectExpression { span, .. } => *span,
            Expression::UnaryExpression { span, .. } => *span,
            Expression::BinaryExpression { span, .. } => *span,
            Expression::LogicalExpression { span, .. } => *span,
            Expression::ConditionalExpression { span, .. } => *span,
            Expression::SequenceExpression { span, .. } => *span,
            Expression::CallExpression { span, .. } => *span,
            Expression::NewExpression { span, .. } => *span,
            Expression::StaticMemberExpression { span, .. } => *span,
            Expression::ComputedMemberExpression { span, .. } => *span,
            Expression::ChainExpression { span, .. } => *span,
            Expression::FunctionExpression { span, .. } => *span,
            Expression::ArrowFunctionExpression { span, .. } => *span,
            Expression::ParenthesizedExpression { span, .. } => *span,
            Expression::ClassExpression { span, .. } => *span,
            Expression::Other { span, .. } => *span,
        }
    }

    /// Moves the expression out, leaving `null` in its place.
    pub fn take(&mut self) -> (taken: Expression<'a>)
        ensures
            taken == *old(self),
            final(self)@ == (Expr::Null { span: no_span() }),
    {
        let mut taken = Expression::NullLiteral { span: Span::unspanned() };
        core::mem::swap(self, &mut taken);
        taken
    }
}

} // verus!
