//! The size of an expression: what every recursion of the pass makes smaller.
use crate::ast::{Arg, Body, Element, Expr, Key, Prop, Stmt};
use vstd::prelude::*;

verus! {

pub open spec fn expressions_size<'a>(s: Seq<Expr<'a>>) -> nat
    decreases s,
{
    if s.len() == 0 {
        0
    } else {
        expressions_size(s.drop_last()) + s.last().size() + 1
    }
}

pub open spec fn statements_size<'a>(s: Seq<Stmt<'a>>) -> nat
    decreases s,
{
    if s.len() == 0 {
        0
    } else {
        statements_size(s.drop_last()) + s.last().size() + 1
    }
}

pub open spec fn elements_size<'a>(s: Seq<Element<'a>>) -> nat
    decreases s,
{
    if s.len() == 0 {
        0
    } else {
        elements_size(s.drop_last()) + s.last().size() + 1
    }
}

pub open spec fn arguments_size<'a>(s: Seq<Arg<'a>>) -> nat
    decreases s,
{
    if s.len() == 0 {
        0
    } else {
        arguments_size(s.drop_last()) + s.last().size() + 1
    }
}

pub open spec fn properties_size<'a>(s: Seq<Prop<'a>>) -> nat
    decreases s,
{
    if s.len() == 0 {
        0
    } else {
        properties_size(s.drop_last()) + s.last().size() + 1
    }
}

impl<'a> Stmt<'a> {
    pub open spec fn size(self) -> nat
        decreases self,
    {
        match self {
            Stmt::Expression { expression, .. } => expression.size() + 1,
            Stmt::Return { argument: Some(argument), .. } => argument.size() + 1,
            Stmt::Return { argument: None, .. } => 1,
            Stmt::Other(_) => 1,
        }
    }
}

impl<'a> Body<'a> {
    pub open spec fn size(self) -> nat
        decreases self,
    {
        match self {
            Body::Expression(e) => e.size() + 1,
            Body::Block { statements, .. } => statements_size(statements) + 1,
        }
    }
}

impl<'a> Element<'a> {
    pub open spec fn size(self) -> nat
        decreases self,
    {
        match self {
            Element::Spread { argument, .. } => argument.size() + 1,
            Element::Elision { .. } => 1,
            Element::Expression(e) => e.size() + 1,
        }
    }
}

impl<'a> Arg<'a> {
    /// An argument outweighs the array literal that holds it as its only element.
    pub open spec fn size(self) -> nat
        decreases self,
    {
        match self {
            Arg::Spread { argument, .. } => argument.size() + 4,
            Arg::Expression(e) => e.size() + 4,
        }
    }
}

impl<'a> Key<'a> {
    pub open spec fn size(self) -> nat
        decreases self,
    {
        match self {
            Key::Static { .. } => 1,
            Key::Private { .. } => 1,
            Key::Expression(e) => e.size() + 1,
        }
    }
}

impl<'a> Prop<'a> {
    pub open spec fn size(self) -> nat
        decreases self,
    {
        match self {
            Prop::Property { key, value, .. } => key.size() + value.size() + 1,
            Prop::Spread { argument, .. } => argument.size() + 1,
        }
    }
}

impl<'a> Expr<'a> {
    pub open spec fn size(self) -> nat
        decreases self,
    {
        match self {
            Expr::Null { .. } => 1,
            Expr::Str { .. } => 1,
            Expr::Identifier(_) => 1,
            Expr::Template { expressions, .. } => expressions_size(expressions) + 1,
            Expr::Array { elements, .. } => elements_size(elements) + 1,
            Expr::Object { properties, .. } => properties_size(properties) + 1,
            Expr::Unary { argument, .. } => argument.size() + 1,
            Expr::Binary { left, right, .. } => left.size() + right.size() + 1,
            Expr::Logical { left, right, .. } => left.size() + right.size() + 1,
            Expr::Conditional { test, consequent, alternate, .. } => test.size()
                + consequent.size() + alternate.size() + 1,
            Expr::Sequence { expressions, .. } => expressions_size(expressions) + 1,
            Expr::Call { callee, arguments, .. } => callee.size() + arguments_size(arguments) + 1,
            Expr::New { callee, arguments, .. } => callee.size() + arguments_size(arguments) + 1,
            Expr::StaticMember { object, .. } => object.size() + 1,
            Expr::ComputedMember { object, expression, .. } => object.size() + expression.size()
                + 1,
            Expr::Chain { expression, .. } => expression.size() + 1,
            Expr::Parenthesized { expression, .. } => expression.size() + 1,
            Expr::Class { .. } => 1,
            Expr::Function { .. } => 1,
            Expr::Arrow { body, .. } => body.size() + 1,
            Expr::Other { .. } => 1,
        }
    }
}

/// An expression of a list is smaller than the list.
pub proof fn lemma_expression_size(s: Seq<Expr<'_>>, i: int)
    requires
        0 <= i < s.len(),
    ensures
        s[i].size() < expressions_size(s),
    decreases s.len(),
{
    if i < s.len() - 1 {
        lemma_expression_size(s.drop_last(), i);
    }
}

/// An element of a list is smaller than the list.
pub proof fn lemma_element_size(s: Seq<Element<'_>>, i: int)
    requires
        0 <= i < s.len(),
    ensures
        s[i].size() < elements_size(s),
    decreases s.len(),
{
    if i < s.len() - 1 {
        lemma_element_size(s.drop_last(), i);
    }
}

/// An argument of a list is smaller than the list.
pub proof fn lemma_list_argument_size(s: Seq<Arg<'_>>, i: int)
    requires
        0 <= i < s.len(),
    ensures
        s[i].size() < arguments_size(s),
    decreases s.len(),
{
    if i < s.len() - 1 {
        lemma_list_argument_size(s.drop_last(), i);
    }
}

/// A property of a list is smaller than the list.
pub proof fn lemma_property_size(s: Seq<Prop<'_>>, i: int)
    requires
        0 <= i < s.len(),
    ensures
        s[i].size() < properties_size(s),
    decreases s.len(),
{
    if i < s.len() - 1 {
        lemma_property_size(s.drop_last(), i);
    }
}

} // verus!
