use oxc_allocator::{Allocator, CloneIn};
use oxc_ast::ast::Argument as ArgumentNode;
use oxc_ast::ast::ArrayExpressionElement as ElementNode;
use oxc_ast::ast::CallExpression;
use oxc_ast::ast::ChainElement;
use oxc_ast::ast::Expression as Node;
use oxc_ast::ast::ObjectPropertyKind as PropertyNode;
use oxc_ast::ast::PropertyKey as KeyNode;
use oxc_ast::ast::Statement as StatementNode;
use oxc_parser::{ParseOptions, Parser};
use oxc_semantic::SemanticBuilder;
use oxc_span::{GetSpan, SourceType};
use oxc_syntax::es_target::ESTarget;
use unused_expression::ast::{
    Argument, ArrayExpressionElement, ArrowBody, Expression, IdentifierName, IdentifierReference,
    ObjectPropertyKind, PropertyKey, Span, Statement, TemplateElement,
};
use unused_expression::ctx::Ctx;
use unused_expression::opaque::{OpaqueArrow, OpaqueFunction, OpaqueNode};
use unused_expression::peephole::PeepholeOptimizations;

fn at(span: oxc_span::Span) -> Span {
    Span { start: span.start, end: span.end }
}

/// A source text and the arena that its syntax nodes live in.
#[derive(Clone, Copy)]
struct Source<'a> {
    arena: &'a Allocator,
    text: &'a str,
}

fn boxed<'a>(src: Source<'a>, e: &Node<'a>) -> Box<Expression<'a>> {
    Box::new(tree(src, e))
}

fn arguments<'a>(src: Source<'a>, args: &[ArgumentNode<'a>]) -> Vec<Argument<'a>> {
    args.iter()
        .map(|a| match a {
            ArgumentNode::SpreadElement(s) => Argument::SpreadElement {
                span: at(s.span),
                argument: tree(src, &s.argument),
            },
            _ => Argument::Expression(tree(src, a.to_expression())),
        })
        .collect()
}

fn call<'a>(src: Source<'a>, e: &CallExpression<'a>) -> Expression<'a> {
    Expression::CallExpression {
        span: at(e.span),
        callee: boxed(src, &e.callee),
        arguments: arguments(src, &e.arguments),
        optional: e.optional,
        pure: e.pure,
    }
}

fn other<'a>(src: Source<'a>, e: &Node<'a>) -> Expression<'a> {
    let node = OpaqueNode::new(e.clone_in_with_semantic_ids(src.arena)).unwrap();
    Expression::Other { span: at(e.span()), node }
}

fn statement<'a>(src: Source<'a>, s: &StatementNode<'a>) -> Statement<'a> {
    match s {
        StatementNode::ExpressionStatement(s) => Statement::ExpressionStatement {
            span: at(s.span),
            expression: tree(src, &s.expression),
        },
        StatementNode::ReturnStatement(s) => Statement::ReturnStatement {
            span: at(s.span),
            argument: s.argument.as_ref().map(|a| tree(src, a)),
        },
        _ => Statement::Other(s.clone_in_with_semantic_ids(src.arena)),
    }
}

/// The tree of a syntax node.
fn tree<'a>(src: Source<'a>, e: &Node<'a>) -> Expression<'a> {
    match e {
        Node::NullLiteral(e) => Expression::NullLiteral { span: at(e.span) },
        Node::StringLiteral(e) => Expression::StringLiteral {
            span: at(e.span),
            value: e.value.to_string(),
            raw: e.raw.map(|raw| raw.to_string()),
            lossy: e.lossy,
        },
        Node::Identifier(e) => Expression::Identifier(IdentifierReference {
            span: at(e.span),
            name: e.name.to_string(),
            reference_id: e.reference_id.get(),
        }),
        Node::TemplateLiteral(e) => Expression::TemplateLiteral {
            span: at(e.span),
            quasis: e
                .quasis
                .iter()
                .map(|q| TemplateElement {
                    span: at(q.span),
                    raw: q.value.raw.to_string(),
                    cooked: q.value.cooked.map(|cooked| cooked.to_string()),
                    tail: q.tail,
                })
                .collect(),
            expressions: e.expressions.iter().map(|e| tree(src, e)).collect(),
        },
        Node::ArrayExpression(e) => Expression::ArrayExpression {
            span: at(e.span),
            elements: e
                .elements
                .iter()
                .map(|el| match el {
                    ElementNode::SpreadElement(s) => ArrayExpressionElement::SpreadElement {
                        span: at(s.span),
                        argument: tree(src, &s.argument),
                    },
                    ElementNode::Elision(hole) => {
                        ArrayExpressionElement::Elision { span: at(hole.span) }
                    }
                    _ => ArrayExpressionElement::Expression(tree(src, el.to_expression())),
                })
                .collect(),
            trailing_comma: e.trailing_comma.map(at),
        },
        Node::ObjectExpression(e) => Expression::ObjectExpression {
            span: at(e.span),
            properties: e
                .properties
                .iter()
                .map(|p| match p {
                    PropertyNode::SpreadProperty(s) => ObjectPropertyKind::SpreadProperty {
                        span: at(s.span),
                        argument: tree(src, &s.argument),
                    },
                    PropertyNode::ObjectProperty(p) => ObjectPropertyKind::ObjectProperty {
                        span: at(p.span),
                        kind: p.kind,
                        key: match &p.key {
                            KeyNode::StaticIdentifier(k) => PropertyKey::StaticIdentifier {
                                span: at(k.span),
                                name: k.name.to_string(),
                            },
                            KeyNode::PrivateIdentifier(k) => PropertyKey::PrivateIdentifier {
                                span: at(k.span),
                                name: k.name.to_string(),
                            },
                            key => PropertyKey::Expression(tree(src, key.to_expression())),
                        },
                        value: tree(src, &p.value),
                        method: p.method,
                        shorthand: p.shorthand,
                        computed: p.computed,
                    },
                })
                .collect(),
            trailing_comma: e.trailing_comma.map(at),
        },
        Node::UnaryExpression(e) => Expression::UnaryExpression {
            span: at(e.span),
            operator: e.operator,
            argument: boxed(src, &e.argument),
        },
        Node::BinaryExpression(e) => Expression::BinaryExpression {
            span: at(e.span),
            left: boxed(src, &e.left),
            operator: e.operator,
            right: boxed(src, &e.right),
        },
        Node::LogicalExpression(e) => Expression::LogicalExpression {
            span: at(e.span),
            left: boxed(src, &e.left),
            operator: e.operator,
            right: boxed(src, &e.right),
        },
        Node::ConditionalExpression(e) => Expression::ConditionalExpression {
            span: at(e.span),
            test: boxed(src, &e.test),
            consequent: boxed(src, &e.consequent),
            alternate: boxed(src, &e.alternate),
        },
        Node::SequenceExpression(e) => Expression::SequenceExpression {
            span: at(e.span),
            expressions: e.expressions.iter().map(|e| tree(src, e)).collect(),
        },
        Node::CallExpression(e) => call(src, e),
        Node::NewExpression(e) => Expression::NewExpression {
            span: at(e.span),
            callee: boxed(src, &e.callee),
            arguments: arguments(src, &e.arguments),
            pure: e.pure,
        },
        Node::StaticMemberExpression(e) => Expression::StaticMemberExpression {
            span: at(e.span),
            object: boxed(src, &e.object),
            property: IdentifierName {
                span: at(e.property.span),
                name: e.property.name.to_string(),
            },
            optional: e.optional,
        },
        Node::ComputedMemberExpression(e) => Expression::ComputedMemberExpression {
            span: at(e.span),
            object: boxed(src, &e.object),
            expression: boxed(src, &e.expression),
            optional: e.optional,
        },
        Node::ChainExpression(chain) => {
            let link = match &chain.expression {
                ChainElement::CallExpression(e) => call(src, e),
                ChainElement::StaticMemberExpression(e) => Expression::StaticMemberExpression {
                    span: at(e.span),
                    object: boxed(src, &e.object),
                    property: IdentifierName {
                        span: at(e.property.span),
                        name: e.property.name.to_string(),
                    },
                    optional: e.optional,
                },
                ChainElement::ComputedMemberExpression(e) => Expression::ComputedMemberExpression {
                    span: at(e.span),
                    object: boxed(src, &e.object),
                    expression: boxed(src, &e.expression),
                    optional: e.optional,
                },
                _ => return other(src, e),
            };
            Expression::ChainExpression { span: at(chain.span), expression: Box::new(link) }
        }
        Node::FunctionExpression(f) => Expression::FunctionExpression {
            span: at(f.span),
            function: OpaqueFunction::new((**f).clone_in_with_semantic_ids(src.arena)),
        },
        Node::ArrowFunctionExpression(f) => Expression::ArrowFunctionExpression {
            span: at(f.span),
            is_async: src.text[f.span.start as usize..].starts_with("async"),
            body: match f.get_expression() {
                Some(x) => ArrowBody::Expression(boxed(src, x)),
                None => ArrowBody::Block {
                    directives: f
                        .body
                        .directives
                        .iter()
                        .map(|d| d.clone_in_with_semantic_ids(src.arena))
                        .collect(),
                    statements: f.body.statements.iter().map(|s| statement(src, s)).collect(),
                },
            },
            function: OpaqueArrow::new((**f).clone_in_with_semantic_ids(src.arena)),
        },
        _ => other(src, e),
    }
}

fn show_all(s: &[Expression<'_>], source: &str) -> String {
    s.iter().map(|e| show(e, source)).collect::<Vec<_>>().join(", ")
}

fn show_arguments(s: &[Argument<'_>], source: &str) -> String {
    s.iter()
        .map(|a| match a {
            Argument::SpreadElement { argument, .. } => format!("...{}", show(argument, source)),
            Argument::Expression(e) => show(e, source),
        })
        .collect::<Vec<_>>()
        .join(", ")
}

fn slice(span: Span, source: &str) -> String {
    let text = &source[span.start as usize..span.end as usize];
    text.split_whitespace().collect::<Vec<_>>().join(" ")
}

/// The expression written out, with every operation in parentheses.
fn show(e: &Expression<'_>, source: &str) -> String {
    match e {
        Expression::NullLiteral { .. } => "null".to_string(),
        Expression::StringLiteral { value, .. } => format!("{value:?}"),
        Expression::Identifier(i) => i.name.clone(),
        Expression::TemplateLiteral { quasis, expressions, .. } => {
            let mut text = String::from("`");
            for (i, q) in quasis.iter().enumerate() {
                text += &q.raw;
                assert_eq!(q.tail, i + 1 == quasis.len());
                if let Some(e) = expressions.get(i) {
                    text += &format!("${{{}}}", show(e, source));
                }
            }
            text + "`"
        }
        Expression::ArrayExpression { elements, .. } => {
            let elements = elements
                .iter()
                .map(|el| match el {
                    ArrayExpressionElement::SpreadElement { argument, .. } => {
                        format!("...{}", show(argument, source))
                    }
                    ArrayExpressionElement::Elision { .. } => String::new(),
                    ArrayExpressionElement::Expression(e) => show(e, source),
                })
                .collect::<Vec<_>>();
            format!("[{}]", elements.join(", "))
        }
        Expression::ObjectExpression { properties, .. } => {
            let properties = properties
                .iter()
                .map(|p| match p {
                    ObjectPropertyKind::SpreadProperty { argument, .. } => {
                        format!("...{}", show(argument, source))
                    }
                    ObjectPropertyKind::ObjectProperty { key, value, .. } => {
                        let key = match key {
                            PropertyKey::StaticIdentifier { name, .. } => name.clone(),
                            PropertyKey::PrivateIdentifier { name, .. } => format!("#{name}"),
                            PropertyKey::Expression(e) => format!("[{}]", show(e, source)),
                        };
                        format!("{key}: {}", show(value, source))
                    }
                })
                .collect::<Vec<_>>();
            format!("{{{}}}", properties.join(", "))
        }
        Expression::UnaryExpression { operator, argument, .. } => {
            format!("({} {})", operator.as_str(), show(argument, source))
        }
        Expression::BinaryExpression { left, operator, right, .. } => {
            format!("({} {} {})", show(left, source), operator.as_str(), show(right, source))
        }
        Expression::LogicalExpression { left, operator, right, .. } => {
            format!("({} {} {})", show(left, source), operator.as_str(), show(right, source))
        }
        Expression::ConditionalExpression { test, consequent, alternate, .. } => format!(
            "({} ? {} : {})",
            show(test, source),
            show(consequent, source),
            show(alternate, source)
        ),
        Expression::SequenceExpression { expressions, .. } => {
            if expressions.len() == 1 {
                show(&expressions[0], source)
            } else {
                format!("({})", show_all(expressions, source))
            }
        }
        Expression::CallExpression { callee, arguments, optional, .. } => format!(
            "{}{}({})",
            show(callee, source),
            if *optional { "?." } else { "" },
            show_arguments(arguments, source)
        ),
        Expression::NewExpression { callee, arguments, .. } => {
            format!("new {}({})", show(callee, source), show_arguments(arguments, source))
        }
        Expression::StaticMemberExpression { object, property, optional, .. } => format!(
            "{}{}{}",
            show(object, source),
            if *optional { "?." } else { "." },
            property.name
        ),
        Expression::ComputedMemberExpression { object, expression, optional, .. } => format!(
            "{}{}[{}]",
            show(object, source),
            if *optional { "?." } else { "" },
            show(expression, source)
        ),
        Expression::ChainExpression { expression, .. } => {
            format!("chain({})", show(expression, source))
        }
        Expression::ParenthesizedExpression { expression, .. } => show(expression, source),
        Expression::FunctionExpression { span, .. }
        | Expression::ArrowFunctionExpression { span, .. }
        | Expression::ClassExpression { span, .. }
        | Expression::Other { span, .. } => slice(*span, source),
    }
}

/// Simplifies an expression of which the value is used: comma expressions keep what all but the
/// last of their expressions leave.
fn simplify_used<'a>(target: ESTarget, e: &mut Expression<'a>, ctx: &Ctx) {
    match e {
        Expression::SequenceExpression { expressions, .. } => {
            let last = expressions.pop();
            expressions.retain_mut(|e| {
                !PeepholeOptimizations::new(target).remove_unused_expression(e, ctx)
            });
            expressions.extend(last);
        }
        Expression::CallExpression { arguments, .. } => {
            for a in arguments.iter_mut() {
                if let Argument::Expression(e) = a {
                    simplify_used(target, e, ctx);
                }
            }
        }
        _ => {}
    }
}

/// Removes what is unused of `e`, again and again until nothing more changes.
fn remove<'a>(target: ESTarget, e: &mut Expression<'a>, ctx: &Ctx) -> bool {
    loop {
        let mut pass = PeepholeOptimizations::new(target);
        if pass.remove_unused_expression(e, ctx) {
            return true;
        }
        if !pass.changed {
            return false;
        }
    }
}

/// The statements of a program, one string each.
fn program(source: &str, target: Option<ESTarget>) -> Vec<String> {
    let arena = Allocator::default();
    let options = ParseOptions { preserve_parens: false, ..ParseOptions::default() };
    let parsed = Parser::new(&arena, source, SourceType::mjs()).with_options(options).parse();
    assert!(!parsed.panicked, "{source}");
    let program = arena.alloc(parsed.program);
    let semantic = SemanticBuilder::new().build(program).semantic;
    let globals = semantic.scoping().root_unresolved_references_ids().flatten().collect();
    let ctx = Ctx { globals };
    let mut statements = vec![];
    for s in &program.body {
        match s {
            StatementNode::EmptyStatement(_) => {}
            StatementNode::ExpressionStatement(s) => {
                let mut e = tree(Source { arena: &arena, text: source }, &s.expression);
                let removed = target.is_some_and(|target| remove(target, &mut e, &ctx));
                if !removed {
                    statements.push(show(&e, source));
                }
            }
            StatementNode::VariableDeclaration(declaration) => {
                for d in &declaration.declarations {
                    let name = slice(at(d.id.span()), source);
                    match &d.init {
                        Some(init) => {
                            let mut e = tree(Source { arena: &arena, text: source }, init);
                            if let Some(target) = target {
                                simplify_used(target, &mut e, &ctx);
                            }
                            statements.push(format!("var {name} = {}", show(&e, source)));
                        }
                        None => statements.push(format!("var {name}")),
                    }
                }
            }
            s => statements.push(slice(at(s.span()), source)),
        }
    }
    statements
}

fn test(source: &str, expected: &str) {
    assert_eq!(program(source, Some(ESTarget::ESNext)), program(expected, None), "{source}");
}

fn test_same(source: &str) {
    test(source, source);
}

fn test_target(target: ESTarget, source: &str, expected: &str) {
    assert_eq!(program(source, Some(target)), program(expected, None), "{source}");
}

/// What one run of the pass leaves of an expression: whether it is removed, whether a rewriting
/// is recorded, and the expression.
fn outcome(source: &str) -> (bool, bool, String) {
    let arena = Allocator::default();
    let options = ParseOptions { preserve_parens: false, ..ParseOptions::default() };
    let parsed = Parser::new(&arena, source, SourceType::mjs()).with_options(options).parse();
    assert!(!parsed.panicked, "{source}");
    let program = arena.alloc(parsed.program);
    let semantic = SemanticBuilder::new().build(program).semantic;
    let globals = semantic.scoping().root_unresolved_references_ids().flatten().collect();
    let ctx = Ctx { globals };
    let Some(StatementNode::ExpressionStatement(s)) = program.body.last() else {
        panic!("{source}");
    };
    let mut e = tree(Source { arena: &arena, text: source }, &s.expression);
    let mut pass = PeepholeOptimizations::new(ESTarget::ESNext);
    let removed = pass.remove_unused_expression(&mut e, &ctx);
    (removed, pass.changed, show(&e, source))
}

#[test]
fn test_remove_unused_expression() {
    test("null", "");
    test("true", "");
    test("false", "");
    test("1", "");
    test("1n", "");
    test(";'s'", "");
    test("this", "");
    test("/asdf/", "");
    test("(function () {})", "");
    test("(() => {})", "");
    test("import.meta", "");
    test("var x; x", "var x");
    test("x", "x");
    test("void 0", "");
    test("void x", "x");
}

#[test]
fn test_new_constructor_side_effect() {
    test("new WeakSet()", "");
    test("new WeakSet(null)", "");
    test("new WeakSet(void 0)", "");
    test("new WeakSet([])", "");
    test_same("new WeakSet([x])");
    test_same("new WeakSet(x)");
    test("new WeakMap()", "");
    test("new WeakMap(null)", "");
    test("new WeakMap(void 0)", "");
    test("new WeakMap([])", "");
    test_same("new WeakMap([x])");
    test_same("new WeakMap(x)");
    test("new Date()", "");
    test("new Date('')", "");
    test("new Date(0)", "");
    test("new Date(null)", "");
    test("new Date(true)", "");
    test("new Date(false)", "");
    test("new Date(undefined)", "");
    test_same("new Date(x)");
    test("new Set()", "");
    test("new Set(null)", "");
    test("new Set(undefined)", "");
    test("new Set(void 0)", "");
    test_same("new Set(x)");
    test("new Map()", "");
    test("new Map(null)", "");
    test("new Map(undefined)", "");
    test("new Map(void 0)", "");
    test_same("new Map(x)");
}

#[test]
fn test_array_literal() {
    test("([])", "");
    test("([1])", "");
    test("([a])", "a");
    test("var a; ([a])", "var a;");
    test("([foo()])", "foo()");
    test("[[foo()]]", "foo()");
    test_same("baz.map((v) => [v])");
}

#[test]
fn test_array_literal_containing_spread() {
    test_same("([...c])");
    test("([4, ...c, a])", "[...c, a]");
    test("var a; ([4, ...c, a])", "var a; [...c]");
    test_same("([foo(), ...c, bar()])");
    test_same("([...a, b, ...c])");
    test("var b; ([...a, b, ...c])", "var b; [...a, ...c]");
    test_same("([...b, ...c])"); // It would also be fine if the spreads were split apart.
}

#[test]
fn test_fold_unary_expression_statement() {
    test("typeof x", "");
    test("typeof x?.y", "x?.y");
    test("typeof x.y", "x.y");
    test("typeof x.y.z()", "x.y.z()");
    test("void x", "x");
    test("void x?.y", "x?.y");
    test("void x.y", "x.y");
    test("void x.y.z()", "x.y.z()");

    test("!x", "x");
    test("!x?.y", "x?.y");
    test("!x.y", "x.y");
    test("!x.y.z()", "x.y.z()");
    test_same("-x.y.z()");

    test_same("delete x");
    test_same("delete x.y");
    test_same("delete x.y.z()");
    test_same("+0n"); // Uncaught TypeError: Cannot convert a BigInt value to a number
}

#[test]
fn test_fold_sequence_expr() {
    test("('foo', 'bar', 'baz')", "");
    test("('foo', 'bar', baz())", "baz()");
    test("('foo', bar(), baz())", "bar(), baz()");
    test("(() => {}, bar(), baz())", "bar(), baz()");
    test("(function k() {}, k(), baz())", "k(), baz()");
    test_same("(0, o.f)();");
    test("var obj = Object((null, 2, 3), 1, 2);", "var obj = Object(3, 1, 2);");
    test_same("(0 instanceof 0, foo)");
    test_same("(0 in 0, foo)");
    test_same(
        "React.useEffect(() => (isMountRef.current = !1, () => { isMountRef.current = !0; }), [])",
    );
}

#[test]
fn test_logical_expression() {
    test("var a; a != null && a.b()", "var a; a?.b()");
    test("var a; a == null || a.b()", "var a; a?.b()");
    test_same("a != null && a.b()"); // a may have a getter
    test_same("a == null || a.b()"); // a may have a getter
    test("var a; null != a && a.b()", "var a; a?.b()");
    test("var a; null == a || a.b()", "var a; a?.b()");
}

#[test]
fn test_object_literal() {
    test("({})", "");
    test("({a:1})", "");
    test("({a:foo()})", "foo()");
    test("({'a':foo()})", "foo()");
    // Object-spread may trigger getters.
    test_same("({...a})");
    test_same("({...foo()})");
    test("({ [{ foo: foo() }]: 0 })", "foo()");
    test("({ foo: { foo: foo() } })", "foo()");

    test("({ [bar()]: foo() })", "bar(), foo()");
    test("({ ...baz, [bar()]: foo() })", "({ ...baz }), bar(), foo()");
}

#[test]
fn test_fold_template_literal() {
    test("`a${b}c${d}e`", "`${b}${d}`");
    test("`stuff ${x} ${1}`", "`${x}`");
    test("`stuff ${1} ${y}`", "`${y}`");
    test("`stuff ${x} ${y}`", "`${x}${y}`");
    test("`stuff ${x ? 1 : 2} ${y}`", "x, `${y}`");
    test("`stuff ${x} ${y ? 1 : 2}`", "`${x}`, y");
    test("`stuff ${x} ${y ? 1 : 2} ${z}`", "`${x}`, y, `${z}`");

    test("`4${c}${+a}`", "`${c}`, +a");
    test("`${+foo}${c}${+bar}`", "+foo, `${c}`, +bar");
    test("`${a}${+b}${c}`", "`${a}`, +b, `${c}`");
}

#[test]
fn test_fold_conditional_expression() {
    test("(1, foo()) ? 1 : 2", "foo()");
    test("foo() ? 1 : 2", "foo()");
    test("foo() ? 1 : bar()", "foo() || bar()");
    test("foo() ? bar() : 2", "foo() && bar()");
    test_same("foo() ? bar() : baz()");
}

#[test]
fn test_fold_binary_expression() {
    test("var a, b; a === b", "var a, b;");
    test("var a, b; a() === b", "var a, b; a()");
    test("var a, b; a === b()", "var a, b; b()");
    test("var a, b; a() === b()", "var a, b; a(), b()");

    test("var a, b; a !== b", "var a, b;");
    test("var a, b; a == b", "var a, b;");
    test("var a, b; a != b", "var a, b;");
    test("var a, b; a < b", "var a, b;");
    test("var a, b; a > b", "var a, b;");
    test("var a, b; a <= b", "var a, b;");
    test("var a, b; a >= b", "var a, b;");

    test_same("var a, b; a + b");
    test("var a, b; 'a' + b", "var a, b; '' + b");
    test_same("var a, b; a + '' + b");
    test("var a, b, c; 'a' + (b === c)", "var a, b, c;");
    test("var a, b; 'a' + +b", "var a, b; '' + +b"); // can be improved to "var a, b; +b"
    test_same("var a, b; a + ('' + b)");
    test("var a, b, c; a + ('' + (b === c))", "var a, b, c; a + ''");
}

#[test]
fn test_fold_call_expression() {
    test_same("foo()");
    test("/* @__PURE__ */ foo()", "");
    test("/* @__PURE__ */ foo(a)", "a");
    test("/* @__PURE__ */ foo(a, b)", "a, b");
    test("/* @__PURE__ */ foo(...a)", "[...a]");
    test("/* @__PURE__ */ foo(...'a')", "");
    test("/* @__PURE__ */ new Foo()", "");
    test("/* @__PURE__ */ new Foo(a)", "a");
}

#[test]
fn test_fold_iife() {
    test_same("var k = () => {}");
    test_same("var k = function () {}");
    test("(() => {})()", "");
    test("(() => a())()", "a();");
    test("(() => { a() })()", "a();");
    test("(() => { return a() })()", "a();");
    test("(async () => {})()", "");
    test_same("(async () => { a() })()");
    test("(function() {})()", "");
    test("(function*() {})()", "");
    test("(async function() {})()", "");
    test_same("(function() { a() })()");
    test_same("(function*() { a() })()");
    test_same("(async function() { a() })()");
    test("(() => x)()", "x;");
    test("/* @__PURE__ */ (() => x)()", "");
    test("/* @__PURE__ */ (() => x)(y, z)", "y, z;");
}

/// The functions that an expression without branches calls, in order.
fn calls(e: &Expression<'_>, trace: &mut Vec<String>) {
    match e {
        Expression::CallExpression { callee, arguments, pure, .. }
        | Expression::NewExpression { callee, arguments, pure, .. } => {
            for a in arguments {
                match a {
                    Argument::SpreadElement { argument, .. } => {
                        calls(argument, trace);
                        trace.push("...".to_string());
                    }
                    Argument::Expression(e) => calls(e, trace),
                }
            }
            match &**callee {
                Expression::ArrowFunctionExpression {
                    body: ArrowBody::Expression(x), ..
                } => calls(x, trace),
                Expression::Identifier(i) if !pure => trace.push(i.name.clone()),
                _ => {}
            }
        }
        Expression::UnaryExpression { argument, .. } => calls(argument, trace),
        Expression::BinaryExpression { left, right, .. } => {
            calls(left, trace);
            calls(right, trace);
        }
        Expression::SequenceExpression { expressions, .. } => {
            expressions.iter().for_each(|e| calls(e, trace));
        }
        Expression::TemplateLiteral { expressions, .. } => {
            expressions.iter().for_each(|e| calls(e, trace));
        }
        Expression::ArrayExpression { elements, .. } => {
            for el in elements {
                match el {
                    ArrayExpressionElement::SpreadElement { argument, .. } => {
                        calls(argument, trace);
                        trace.push("...".to_string());
                    }
                    ArrayExpressionElement::Elision { .. } => {}
                    ArrayExpressionElement::Expression(e) => calls(e, trace),
                }
            }
        }
        Expression::ObjectExpression { properties, .. } => {
            for p in properties {
                match p {
                    ObjectPropertyKind::SpreadProperty { argument, .. } => {
                        calls(argument, trace);
                        trace.push("{...}".to_string());
                    }
                    ObjectPropertyKind::ObjectProperty { key, value, .. } => {
                        if let PropertyKey::Expression(e) = key {
                            calls(e, trace);
                        }
                        calls(value, trace);
                    }
                }
            }
        }
        _ => {}
    }
}

/// The calls of an expression before and after the pass.
fn traces(source: &str) -> (Vec<String>, Vec<String>) {
    let arena = Allocator::default();
    let options = ParseOptions { preserve_parens: false, ..ParseOptions::default() };
    let parsed = Parser::new(&arena, source, SourceType::mjs()).with_options(options).parse();
    let program = arena.alloc(parsed.program);
    let semantic = SemanticBuilder::new().build(program).semantic;
    let globals = semantic.scoping().root_unresolved_references_ids().flatten().collect();
    let ctx = Ctx { globals };
    let Some(StatementNode::ExpressionStatement(s)) = program.body.last() else {
        panic!("{source}");
    };
    let mut e = tree(Source { arena: &arena, text: source }, &s.expression);
    let (mut before, mut after) = (vec![], vec![]);
    calls(&e, &mut before);
    if !remove(ESTarget::ESNext, &mut e, &ctx) {
        calls(&e, &mut after);
    }
    (before, after)
}

#[test]
fn keeps_the_calls_in_order() {
    for source in [
        "[f(), 1, [g()], ...h(), , i()]",
        "({ a: f(), [g()]: [h(), 2], ...i(), b: 3, c: j() })",
        "`a${f()}b${1}c${+g()}d${h()}`",
        "(f(), 1, void g(), typeof h(), !i())",
        "f() === g() < h()",
        "'a' + f() + 'b' + g()",
        "/* @__PURE__ */ p(f(), ...g(), [h()])",
        "/* @__PURE__ */ new P(f(), ...g(), [h()])",
        "(() => f(g(), h()))()",
        "(1, 'a', null)",
    ] {
        let (before, after) = traces(source);
        assert_eq!(before, after, "{source}");
    }
    assert_eq!(traces("[f(), ...g()]").1, ["f", "g", "..."]);
}

#[test]
fn reports_what_it_did() {
    assert_eq!(outcome("var x; x"), (true, false, "x".to_string()));
    assert_eq!(outcome("x"), (false, false, "x".to_string()));
    assert_eq!(outcome("NaN"), (true, false, "NaN".to_string()));
    assert_eq!(outcome("Infinity"), (true, false, "Infinity".to_string()));
    assert_eq!(outcome("undefined"), (true, false, "undefined".to_string()));
    assert_eq!(outcome("void x"), (false, true, "x".to_string()));
    assert_eq!(outcome("typeof x"), (true, false, "(typeof x)".to_string()));
    assert_eq!(outcome("a() && 1"), (false, true, "a()".to_string()));
    assert_eq!(outcome("a && 1"), (false, true, "a".to_string()));
    assert_eq!(outcome("var a; a && 1"), (false, true, "a".to_string()));
    assert_eq!(outcome("1 - 2"), (true, false, "(1 - 2)".to_string()));
    assert_eq!(outcome("a - 2"), (false, false, "(a - 2)".to_string()));
    assert_eq!(outcome("a() ? b() : c()"), (false, false, "(a() ? b() : c())".to_string()));
    assert_eq!(outcome("(a(), 1, b())"), (false, true, "(a(), b())".to_string()));
    assert_eq!(outcome("(a(), b())"), (false, false, "(a(), b())".to_string()));
}

#[test]
fn unwraps_without_recording_it() {
    assert_eq!(outcome("[a()]"), (false, false, "a()".to_string()));
    assert_eq!(outcome("[a(), b()]"), (false, false, "(a(), b())".to_string()));
    assert_eq!(outcome("[a(), 1]"), (false, true, "a()".to_string()));
    assert_eq!(outcome("(() => a())()"), (false, false, "a()".to_string()));
    assert_eq!(outcome("(() => { return })()"), (true, false, "() => { return }()".to_string()));
}

#[test]
fn settles_when_nothing_is_recorded() {
    for source in ["[a()]", "[a(), b()]", "[[a()], ...b]", "(() => [a(), b()])()", "a && [b()]"] {
        let (removed, changed, first) = outcome(source);
        assert!(!removed && !changed, "{source}");
        assert_eq!(outcome(&first), (false, false, first.clone()), "{source}");
    }
}

#[test]
fn removes_a_sequence_of_removable_expressions_only() {
    assert!(outcome("var a; (a, null, 'b')").0);
    assert!(!outcome("var a; (a, b, 'b')").0);
}

#[test]
fn leaves_of_a_wrapped_expression_what_it_leaves_of_the_expression() {
    for inner in ["a()", "[1, a(), 2]", "x.y", "a() ? 1 : b()", "null"] {
        let (removed, _, expr) = outcome(&format!("({inner})"));
        for wrapped in ["void ({})", "!({})", "typeof ({})"] {
            let (r, changed, e) = outcome(&wrapped.replace("{}", inner));
            assert_eq!((r, e), (removed, expr.clone()), "{wrapped} {inner}");
            assert!(changed);
        }
        for wrapped in ["(() => ({}))()", "(() => { ({}) })()", "(() => { return ({}) })()"] {
            let (r, _, e) = outcome(&wrapped.replace("{}", inner).replace("{ }", ""));
            assert_eq!((r, e), (removed, expr.clone()), "{wrapped} {inner}");
        }
    }
}

#[test]
fn calls_of_functions_on_the_spot() {
    test("((...args) => {})()", "");
    test("(function (...args) {})()", "");
    test("((a = foo()) => bar())()", "bar()");
    test("(() => { 'use strict'; a() })()", "a()");
    test_same("(() => { 'use strict' })()");
    test_same("((a) => {})()");
    test_same("(() => { a(); b() })()");
    test_same("(() => { if (a) b() })()");
    test_same("(() => a())(b)");
    test_same("(async () => a())()");
    test_same("(function () { return a() })()");
    test_same("(() => {})?.()");
}

#[test]
fn pure_calls() {
    test("/* @__PURE__ */ foo(a(), 1, b())", "a(), b()");
    test("/* @__PURE__ */ new Foo(a(), ...b)", "a(), [...b]");
    test("/* @__PURE__ */ new Foo(...[a()])", "[...[a()]]");
    test("/* @__PURE__ */ foo(null)", "");
    test("/* @__PURE__ */ foo(...[null])", "");
    test_same("foo(a, 1)");
    test_same("new Foo(a)");
    test("a && /* @__PURE__ */ foo(b())", "a && b()");
    test("a ? /* @__PURE__ */ foo(b()) : /* @__PURE__ */ foo(1)", "a && b()");
    let chain = outcome("var a; a != null && (/* @__PURE__ */ a() && 1)");
    assert_eq!(chain, (false, true, "chain(a?.())".to_string()));
}

#[test]
fn constructors() {
    test_same("new Foo()");
    test_same("var Map; new Map()");
    test_same("new Map(...a)");
    test_same("new Map(null, null)");
    test_same("new Map([])");
    test_same("new Set([])");
    test_same("new WeakMap(null, null)");
    test_same("new Date(null, null)");
    test_same("new Date(a.b)");
    test_same("new Date({})");
    test("new Date(NaN)", "");
    test("new Date(!0)", "");
    test("new Date(typeof a)", "");
    test("new WeakMap(undefined)", "");
    test("new WeakSet([])", "");
}

#[test]
fn arrays() {
    test("[,]", "");
    test("[, a(), ,]", "a()");
    test("[...'abc']", "");
    test("[...[1, 2]]", "");
    test("[...`a`]", "");
    test_same("[...[a()]]");
    test_same("[...`${a}`]");
    test("[1, ...'abc', a()]", "a()");
    test_same("[...a, b()]");
}

#[test]
fn objects() {
    test("({ a, b })", "a, b");
    test("var a; ({ a })", "var a;");
    test("({ get a() { return b() } })", "");
    test("({ ...a, b: 1 })", "({ ...a })");
    test("({ b: 1, ...a })", "({ ...a })");
    test("({ ...a, b: 1, ...c })", "({ ...a }), ({ ...c })");
    test("({ ...a, ...b, c: d() })", "({ ...a, ...b }), d()");
    test("({ [`a`]: 1, [null]: 2 })", "");
    test_same("({ ...a, ...b })");
}

#[test]
fn templates() {
    test("`a`", "");
    test("``", "");
    test("`${null}`", "");
    test("`a${'b'}c`", "");
    test_same("`${a}`");
    test_same("`${a}${b}`");
    test("`${a} `", "`${a}`");
    test("`${a}${1}${b}`", "`${a}${b}`");
    test("`${a}${[b()]}${c}`", "`${a}`, b(), `${c}`");
    test("`${{}}`", "");
    test("`${a === b()}`", "a, b()");
    test_same("`${{ toString: a }}`");
}

#[test]
fn logical_operations() {
    test("a && (b, 1)", "a && b");
    test("a ?? 1", "a");
    test("a ?? b()", "a ?? b()");
    test("a() || b() || 1", "a() || b()");
    test("!!a && b()", "a && b()");
    test("!!!!a || b()", "a || b()");
    test("!!a ?? b()", "!!a ?? b()");
    test("(a ? !!b : c) && d()", "(a ? b : c) && d()");
    test("(!!a && !!b) || c()", "(a && b) || c()");
    test("!a && b()", "!a && b()");
}

#[test]
fn optional_chains() {
    test("var a; a != null && a.b.c()", "var a; a?.b.c()");
    test("var a; a != null && a[b]", "var a; a?.[b]");
    test("var a; a != null && a()", "var a; a?.()");
    test("var a; a != null && a.b?.c()", "var a; a?.b?.c()");
    test("var a, b; a != null && b.c()", "var a, b; a != null && b.c()");
    test("var a; a !== null && a.b()", "var a; a !== null && a.b()");
    test("var a; a != null || a.b()", "var a; a != null || a.b()");
    test("var a; a == null && a.b()", "var a; a == null && a.b()");
    test("var a; a != 1 && a.b()", "var a; a != 1 && a.b()");
    test("var a; a != null && [1, a.b()]", "var a; a?.b()");
    test("var a; a != null && a.b(c, ...d)[e]()", "var a; a?.b(c, ...d)[e]()");
    test("var a; a != null && a?.b", "var a; a?.b");
    test("var a; a == null || a.b", "var a; a?.b");
}

#[test]
fn optional_chains_only_where_the_target_has_them() {
    let source = "var a; a != null && a.b()";
    for target in [
        ESTarget::ES5,
        ESTarget::ES2015,
        ESTarget::ES2016,
        ESTarget::ES2017,
        ESTarget::ES2018,
        ESTarget::ES2019,
    ] {
        test_target(target, source, source);
    }
    for target in [ESTarget::ES2020, ESTarget::ES2021, ESTarget::ES2022, ESTarget::ESNext] {
        test_target(target, source, "var a; a?.b()");
    }
    test_target(ESTarget::ES5, "var a; a?.b() && 1", "var a; a?.b()");
}

#[test]
fn conditional_expressions() {
    test("(a(), b()) ? 1 : c()", "a(), b() || c()");
    test("a() ? b() || c() : 1", "a() && (b() || c())");
    test("a() ? 1 : b() || c()", "(a() || b()) || c()");
    test("a() ? b() && c() : 1", "(a() && b()) && c()");
    test("var a; a ? 1 : 2", "var a;");
    test("a() ? [1] : [b()]", "a() || b()");
    test("a() ? [c(), 1] : [b()]", "a() ? c() : b()");
}

#[test]
fn string_additions() {
    test("'a' + 'b'", "");
    test("'a' + 1", "");
    test("'' + 'b'", "");
    test("1 + 2", "1 + 2");
    test("a + 'b'", "a + ''");
    test("'a' + b + 'c'", "'' + b");
    test("a() + 'b'", "a() + ''");
    test("'a' + b()", "'' + b()");
    test("`a${b}` + c", "`a${b}` + c");
    test("`a` + c", "'' + c");
    test("[] + c", "'' + c");
    test("1 - a", "1 - a");
    test("1 * 2", "");
}

#[test]
fn leaves_of_a_wrapper_what_it_leaves_of_the_wrapped() {
    for inner in ["a()", "[1, a(), 2]", "x.y", "a() ? 1 : b()", "null", "a", "(a(), b())"] {
        let (removed, _, expr) = outcome(&format!("({inner})"));
        for wrapped in [
            "void (%)",
            "!(%)",
            "[(%)]",
            "({ k: (%) })",
            "(%) ? 1 : 2",
            "(%) === 1",
            "1 < (%)",
            "/* @__PURE__ */ f((%))",
            "/* @__PURE__ */ new F((%))",
        ] {
            let (r, _, e) = outcome(&wrapped.replace('%', inner));
            assert_eq!(r, removed, "{wrapped} {inner}");
            if !r {
                assert_eq!(e, expr, "{wrapped} {inner}");
            }
        }
    }
}

#[test]
fn removes_leaves_without_side_effects() {
    for source in
        ["1", "true", "1n", "/a/", "this", "import.meta", "(function () {})", "(() => a())", "null"]
    {
        let (removed, changed, _) = outcome(source);
        assert_eq!((removed, changed), (true, false), "{source}");
    }
    test_same("a = 1");
    test_same("a++");
    test_same("import('a')");
}
