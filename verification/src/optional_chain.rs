//! Turning a chain of calls and member accesses that starts at a variable into an optional one.
use crate::ast::{no_span, Expr, Expression};
use vstd::prelude::*;

verus! {

/// Whether `e` is a variable called `name`.
pub open spec fn is_specific_id(e: Expr<'_>, name: Seq<char>) -> bool {
    match e {
        Expr::Identifier(i) => i.name == name,
        _ => false,
    }
}

/// The chain of links `e` with its start, a variable called `name`, replaced by `id`, and the
/// first link made optional. `None` where `e` does not start at that variable.
pub open spec fn guarded_links<'a>(name: Seq<char>, id: Expr<'a>, e: Expr<'a>) -> Option<Expr<'a>>
    decreases e,
{
    match e {
        Expr::StaticMember { span, object, property_span, property, optional } => if is_specific_id(
            *object,
            name,
        ) {
            Some(
                Expr::StaticMember {
                    span,
                    object: Box::new(id),
                    property_span,
                    property,
                    optional: true,
                },
            )
        } else {
            match guarded_links(name, id, *object) {
                Some(object) => Some(
                    Expr::StaticMember {
                        span,
                        object: Box::new(object),
                        property_span,
                        property,
                        optional,
                    },
                ),
                None => None,
            }
        },
        Expr::ComputedMember { span, object, expression, optional } => if is_specific_id(
            *object,
            name,
        ) {
            Some(
                Expr::ComputedMember { span, object: Box::new(id), expression, optional: true },
            )
        } else {
            match guarded_links(name, id, *object) {
                Some(object) => Some(
                    Expr::ComputedMember { span, object: Box::new(object), expression, optional },
                ),
                None => None,
            }
        },
        Expr::Call { span, callee, arguments, optional, pure } => if is_specific_id(
            *callee,
            name,
        ) {
            Some(Expr::Call { span, callee: Box::new(id), arguments, optional: true, pure })
        } else {
            match guarded_links(name, id, *callee) {
                Some(callee) => Some(
                    Expr::Call { span, callee: Box::new(callee), arguments, optional, pure },
                ),
                None => None,
            }
        },
        _ => None,
    }
}

/// `e` made to do nothing where `id`, the variable called `name` that it starts at, is null or
/// undefined. `None` where `e` does not start at that variable.
pub open spec fn guarded<'a>(name: Seq<char>, id: Expr<'a>, e: Expr<'a>) -> Option<Expr<'a>> {
    match e {
        Expr::Chain { span, expression } => match guarded_links(name, id, *expression) {
            Some(links) => Some(Expr::Chain { span, expression: Box::new(links) }),
            None => None,
        },
        _ => match guarded_links(name, id, e) {
            Some(links) => Some(Expr::Chain { span: e.span(), expression: Box::new(links) }),
            None => None,
        },
    }
}

impl<'a> Expression<'a> {
    /// Whether the expression is a variable called `name`.
    pub fn is_specific_id(&self, name: &String) -> (is: bool)
        ensures
            is == is_specific_id(self@, name@),
    {
        match self {
            Expression::Identifier(ident) => ident.name == *name,
            _ => false,
        }
    }
}

fn inject_into_links<'a>(
    name: &String,
    id: &mut Expression<'a>,
    e: &mut Expression<'a>,
) -> (injected: bool)
    ensures
        injected == (guarded_links(name@, old(id)@, old(e)@) is Some),
        injected ==> Some(final(e)@) == guarded_links(name@, old(id)@, old(e)@),
        injected ==> final(id)@ == (Expr::Null { span: no_span() }),
        !injected ==> final(e)@ == old(e)@ && final(id)@ == old(id)@,
    decreases old(e)@.size(),
{
    match e {
        Expression::StaticMemberExpression { object, optional, .. } => {
            if object.is_specific_id(name) {
                **object = id.take();
                *optional = true;
                true
            } else {
                inject_into_links(name, id, object)
            }
        },
        Expression::ComputedMemberExpression { object, optional, .. } => {
            if object.is_specific_id(name) {
                **object = id.take();
                *optional = true;
                true
            } else {
                inject_into_links(name, id, object)
            }
        },
        Expression::CallExpression { callee, optional, .. } => {
            if callee.is_specific_id(name) {
                **callee = id.take();
                *optional = true;
                true
            } else {
                inject_into_links(name, id, callee)
            }
        },
        _ => false,
    }
}

/// Makes `e` do nothing where `id`, the variable called `name`, is null or undefined, provided
/// that `e` is a chain that starts at that variable. `id` moves into the chain. Tells whether
/// `e` is such a chain.
pub fn inject_optional_chaining_if_matched<'a>(
    name: &String,
    id: &mut Expression<'a>,
    e: &mut Expression<'a>,
) -> (injected: bool)
    ensures
        injected == (guarded(name@, old(id)@, old(e)@) is Some),
        injected ==> Some(final(e)@) == guarded(name@, old(id)@, old(e)@),
        injected ==> final(id)@ == (Expr::Null { span: no_span() }),
        !injected ==> final(e)@ == old(e)@ && final(id)@ == old(id)@,
{
    match e {
        Expression::ChainExpression { expression, .. } => inject_into_links(name, id, expression),
        _ => {
            let span = e.span();
            if inject_into_links(name, id, e) {
                let links = e.take();
                *e = Expression::ChainExpression { span, expression: Box::new(links) };
                true
            } else {
                false
            }
        },
    }
}

} // verus!
