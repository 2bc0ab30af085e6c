//! What is left of literals of which the value is not used.
use crate::ast::{
    elements_view, expressions_view, properties_view, quasis_view, ArrayExpressionElement, Element,
    Expression, ObjectPropertyKind, PropertyKey, Span, TemplateElement,
};
use crate::calls::sequence_of;
use crate::ctx::Ctx;
use crate::measure::{
    elements_size, expressions_size, lemma_element_size, lemma_expression_size, lemma_property_size,
    properties_size,
};
use crate::peephole::PeepholeOptimizations;
use crate::rewrite::{
    all_spread, bare_template, converts_to_string, element_expressions, empty_quasi, has_spread,
    is_bare_template, kept_elements, kept_key, kept_properties, kept_substitutions, unused_array,
    unused_if, unused_object, unused_template, with_object, with_template, Env,
};
use vstd::prelude::*;

verus! {

/// A template literal of `expressions` alone, with empty strings between them.
fn bare_template_literal<'a>(span: Span, expressions: Vec<Expression<'a>>) -> (r: Expression<'a>)
    ensures
        r@ == bare_template(span, expressions_view(expressions@)),
{
    let mut quasis: Vec<TemplateElement> = Vec::new();
    for i in 0..expressions.len()
        invariant
            quasis@.len() == i,
            forall|j: int| 0 <= j < i ==> (#[trigger] quasis@[j])@ == empty_quasi(span, false),
    {
        quasis.push(empty_template_element(span, false));
    }
    quasis.push(empty_template_element(span, true));
    assert(quasis_view(quasis@) =~= bare_template(
        span,
        expressions_view(expressions@),
    )->Template_quasis);
    Expression::TemplateLiteral { span, quasis, expressions }
}

/// An empty string of a template literal.
fn empty_template_element(span: Span, tail: bool) -> (r: TemplateElement)
    ensures
        r@ == empty_quasi(span, tail),
{
    proof {
        reveal_strlit("");
    }
    let raw = "".to_owned();
    let cooked = "".to_owned();
    assert(raw@ =~= seq![]);
    assert(cooked@ =~= seq![]);
    TemplateElement { span, raw, cooked: Some(cooked), tail }
}

/// Whether every one of `expressions` has to be converted to a string and `quasis` are empty.
fn is_bare<'a>(
    quasis: &Vec<TemplateElement>,
    expressions: &Vec<Expression<'a>>,
    ctx: &Ctx,
) -> (r: bool)
    ensures
        forall|env: Env|
            env.globals == ctx@ ==> r == #[trigger] is_bare_template(
                quasis_view(quasis@),
                expressions_view(expressions@),
                env,
            ),
{
    let ghost q = quasis_view(quasis@);
    let ghost s = expressions_view(expressions@);
    for i in 0..expressions.len()
        invariant
            s == expressions_view(expressions@),
            q == quasis_view(quasis@),
            forall|env: Env, j: int|
                env.globals == ctx@ && 0 <= j < i ==> !#[trigger] converts_to_string(s[j], env),
    {
        assert(expressions@[i as int]@ == s[i as int]);
        if expressions[i].converts_to_string(ctx) {
            return false;
        }
    }
    for i in 0..quasis.len()
        invariant
            q == quasis_view(quasis@),
            forall|j: int| 0 <= j < i ==> (#[trigger] q[j]).raw.len() == 0,
    {
        proof {
            reveal_strlit("");
            assert(q[i as int].raw.len() == 0 ==> q[i as int].raw =~= ""@);
        }
        if quasis[i].raw != "".to_owned() {
            assert(q[i as int].raw.len() != 0);
            return false;
        }
    }
    true
}

/// Whether every property is a spread.
fn are_all_spread<'a>(properties: &Vec<ObjectPropertyKind<'a>>) -> (r: bool)
    ensures
        r == all_spread(properties_view(properties@)),
{
    let ghost s = properties_view(properties@);
    for i in 0..properties.len()
        invariant
            s == properties_view(properties@),
            forall|j: int| 0 <= j < i ==> #[trigger] s[j] is Spread,
    {
        assert(properties@[i as int]@ == s[i as int]);
        match &properties[i] {
            ObjectPropertyKind::SpreadProperty { .. } => {},
            ObjectPropertyKind::ObjectProperty { .. } => {
                assert(s[i as int] !is Spread);
                return false;
            },
        }
    }
    true
}

/// Whether some element is a spread.
fn is_any_spread<'a>(elements: &Vec<ArrayExpressionElement<'a>>) -> (r: bool)
    ensures
        r == has_spread(elements_view(elements@)),
{
    let ghost s = elements_view(elements@);
    for i in 0..elements.len()
        invariant
            s == elements_view(elements@),
            forall|j: int| 0 <= j < i ==> #[trigger] s[j] !is Spread,
    {
        assert(elements@[i as int]@ == s[i as int]);
        match &elements[i] {
            ArrayExpressionElement::SpreadElement { .. } => {
                assert(s[i as int] is Spread);
                return true;
            },
            _ => {},
        }
    }
    false
}

/// The expressions of elements that are all expressions.
fn into_expressions<'a>(elements: Vec<ArrayExpressionElement<'a>>) -> (r: Vec<Expression<'a>>)
    requires
        forall|i: int| 0 <= i < elements@.len() ==> #[trigger] elements@[i]@ is Expression,
    ensures
        expressions_view(r@) == element_expressions(elements_view(elements@)),
{
    let ghost s = elements@;
    let mut r: Vec<Expression<'a>> = Vec::new();
    for element in it: elements
        invariant
            s == it.seq(),
            s == elements@,
            r@.len() == it.index(),
            forall|i: int| 0 <= i < s.len() ==> #[trigger] s[i]@ is Expression,
            forall|j: int|
                0 <= j < r@.len() ==> s[j]@ == Element::Expression((#[trigger] r@[j])@),
    {
        assert(s[it.index() as int]@ is Expression);
        match element {
            ArrayExpressionElement::Expression(e) => r.push(e),
            _ => {},
        }
    }
    assert(expressions_view(r@) =~= element_expressions(elements_view(s)));
    r
}

impl PeepholeOptimizations {
    /// `[1, a(), ...b]` to `[a(), ...b]`; `[a(), b()]` to `a(), b()`.
    pub(crate) fn fold_array_expression<'a>(
        &mut self,
        e: &mut Expression<'a>,
        ctx: &Ctx,
    ) -> (removed: bool)
        ensures
            final(e)@ == unused_if(old(e)@ is Array, old(e)@, old(self).env(*ctx)).expr,
            removed == unused_if(old(e)@ is Array, old(e)@, old(self).env(*ctx)).removed,
            *final(self) == old(self).after(
                unused_if(old(e)@ is Array, old(e)@, old(self).env(*ctx)),
            ),
        decreases old(e)@.size(), 0nat,
    {
        let ghost env = self.env(*ctx);
        let ghost pass = *self;
        let ghost whole = e@;
        match e.take() {
            Expression::ArrayExpression { span, elements, trailing_comma } => {
                let ghost s = elements_view(elements@);
                let ghost o = unused_array(span, s, trailing_comma, env);
                let old_len = elements.len();
                let mut needed: Vec<ArrayExpressionElement<'a>> = Vec::new();
                for el in it: elements
                    invariant
                        s == elements_view(it.seq()),
                        env == self.env(*ctx),
                        pass.target == self.target,
                        self.changed == (pass.changed || kept_elements(
                            s.take(it.index() as int),
                            env,
                        ).changed),
                        elements_view(needed@) == kept_elements(
                            s.take(it.index() as int),
                            env,
                        ).elements,
                        forall|j: int|
                            0 <= j < needed@.len() ==> (#[trigger] needed@[j])@ !is Elision,
                        whole.size() > elements_size(s),
                        whole == old(e)@,
                {
                    let ghost i = it.index() as int;
                    let ghost before = needed@;
                    proof {
                        lemma_element_size(s, i);
                        assert(s.take(i + 1).drop_last() =~= s.take(i));
                        assert(s.take(i + 1).last() == s[i]);
                        let step = kept_elements(s.take(i + 1), env);
                    }
                    assert(el@ == s[i]);
                    match el {
                        ArrayExpressionElement::SpreadElement { span: spread_span, argument } => {
                            if argument.spread_may_have_side_effects(ctx) {
                                needed.push(
                                    ArrayExpressionElement::SpreadElement {
                                        span: spread_span,
                                        argument,
                                    },
                                );
                                assert(elements_view(needed@) =~= elements_view(before).push(s[i]));
                            }
                        },
                        ArrayExpressionElement::Elision { .. } => {},
                        ArrayExpressionElement::Expression(mut expr) => {
                            assert(s[i].size() == expr@.size() + 1);
                            if !self.remove_unused_expression(&mut expr, ctx) {
                                needed.push(ArrayExpressionElement::Expression(expr));
                                assert(elements_view(needed@) =~= elements_view(before).push(
                                    Element::Expression(expr@),
                                ));
                            }
                        },
                    }
                }
                assert(s.take(s.len() as int) =~= s);
                let ghost kept = elements_view(needed@);
                if needed.len() != old_len {
                    self.mark_current_function_as_changed();
                }
                if needed.len() == 0 {
                    *e = Expression::ArrayExpression { span, elements: needed, trailing_comma };
                    return true;
                }
                if is_any_spread(&needed) {
                    *e = Expression::ArrayExpression { span, elements: needed, trailing_comma };
                    return false;
                }
                assert forall|j: int| 0 <= j < needed@.len() implies (
                #[trigger] needed@[j])@ is Expression by {
                    assert(kept[j] !is Spread);
                }
                let expressions = into_expressions(needed);
                *e = sequence_of(span, expressions);
                false
            },
            other => {
                *e = other;
                false
            },
        }
    }

    /// `` `${1}2${a}3` `` to `` `${a}` ``.
    pub(crate) fn fold_template_literal<'a>(
        &mut self,
        e: &mut Expression<'a>,
        ctx: &Ctx,
    ) -> (removed: bool)
        ensures
            final(e)@ == unused_if(old(e)@ is Template, old(e)@, old(self).env(*ctx)).expr,
            removed == unused_if(old(e)@ is Template, old(e)@, old(self).env(*ctx)).removed,
            *final(self) == old(self).after(
                unused_if(old(e)@ is Template, old(e)@, old(self).env(*ctx)),
            ),
        decreases old(e)@.size(), 0nat,
    {
        let ghost env = self.env(*ctx);
        let ghost pass = *self;
        let ghost whole = e@;
        match e.take() {
            Expression::TemplateLiteral { span, quasis, expressions } => {
                let ghost s = expressions_view(expressions@);
                let ghost o = unused_template(span, quasis_view(quasis@), s, env);
                if expressions.len() == 0 {
                    *e = Expression::TemplateLiteral { span, quasis, expressions };
                    return true;
                }
                if is_bare(&quasis, &expressions, ctx) {
                    *e = Expression::TemplateLiteral { span, quasis, expressions };
                    return false;
                }
                let mut transformed: Vec<Expression<'a>> = Vec::new();
                let mut pending: Vec<Expression<'a>> = Vec::new();
                for el in it: expressions
                    invariant
                        s == expressions_view(it.seq()),
                        env == self.env(*ctx),
                        pass.target == self.target,
                        self.changed == (pass.changed || kept_substitutions(
                            s.take(it.index() as int),
                            env,
                        ).changed),
                        expressions_view(transformed@) == kept_substitutions(
                            s.take(it.index() as int),
                            env,
                        ).exprs,
                        expressions_view(pending@) == kept_substitutions(
                            s.take(it.index() as int),
                            env,
                        ).pending,
                        whole.size() > expressions_size(s),
                        whole == old(e)@,
                {
                    let ghost i = it.index() as int;
                    let ghost before = expressions_view(transformed@);
                    let ghost waiting = expressions_view(pending@);
                    proof {
                        lemma_expression_size(s, i);
                        assert(s.take(i + 1).drop_last() =~= s.take(i));
                        assert(s.take(i + 1).last() == s[i]);
                        let step = kept_substitutions(s.take(i + 1), env);
                    }
                    assert(el@ == s[i]);
                    let mut el = el;
                    if !el.converts_to_string(ctx) {
                        pending.push(el);
                        assert(expressions_view(pending@) =~= waiting.push(s[i]));
                    } else if !self.remove_unused_expression(&mut el, ctx) {
                        if pending.len() > 0 {
                            transformed.push(bare_template_literal(el.span(), pending));
                            pending = Vec::new();
                        }
                        assert(expressions_view(transformed@) =~= with_template(
                            el@.span(),
                            before,
                            waiting,
                        ));
                        let ghost flushed = expressions_view(transformed@);
                        transformed.push(el);
                        assert(expressions_view(transformed@) =~= flushed.push(el@));
                        assert(expressions_view(pending@) =~= seq![]);
                    }
                }
                assert(s.take(s.len() as int) =~= s);
                let ghost before = expressions_view(transformed@);
                let ghost waiting = expressions_view(pending@);
                if pending.len() > 0 {
                    transformed.push(bare_template_literal(span, pending));
                }
                assert(expressions_view(transformed@) =~= with_template(span, before, waiting));
                if transformed.len() == 0 {
                    let expressions: Vec<Expression<'a>> = Vec::new();
                    assert(expressions_view(expressions@) =~= seq![]);
                    *e = Expression::TemplateLiteral { span, quasis, expressions };
                    return true;
                }
                *e = sequence_of(span, transformed);
                self.mark_current_function_as_changed();
                false
            },
            other => {
                *e = other;
                false
            },
        }
    }

    /// `({ a: 1, [b()]: c() })` to `b(), c()`.
    pub(crate) fn fold_object_expression<'a>(
        &mut self,
        e: &mut Expression<'a>,
        ctx: &Ctx,
    ) -> (removed: bool)
        ensures
            final(e)@ == unused_if(old(e)@ is Object, old(e)@, old(self).env(*ctx)).expr,
            removed == unused_if(old(e)@ is Object, old(e)@, old(self).env(*ctx)).removed,
            *final(self) == old(self).after(
                unused_if(old(e)@ is Object, old(e)@, old(self).env(*ctx)),
            ),
        decreases old(e)@.size(), 0nat,
    {
        let ghost env = self.env(*ctx);
        let ghost pass = *self;
        let ghost whole = e@;
        match e.take() {
            Expression::ObjectExpression { span, properties, trailing_comma } => {
                let ghost s = properties_view(properties@);
                let ghost o = unused_object(span, s, trailing_comma, env);
                if properties.len() == 0 {
                    *e = Expression::ObjectExpression { span, properties, trailing_comma };
                    return true;
                }
                if are_all_spread(&properties) {
                    *e = Expression::ObjectExpression { span, properties, trailing_comma };
                    return false;
                }
                let mut transformed: Vec<Expression<'a>> = Vec::new();
                let mut pending: Vec<ObjectPropertyKind<'a>> = Vec::new();
                for prop in it: properties
                    invariant
                        s == properties_view(it.seq()),
                        env == self.env(*ctx),
                        pass.target == self.target,
                        self.changed == (pass.changed || kept_properties(
                            s.take(it.index() as int),
                            env,
                        ).changed),
                        expressions_view(transformed@) == kept_properties(
                            s.take(it.index() as int),
                            env,
                        ).exprs,
                        properties_view(pending@) == kept_properties(
                            s.take(it.index() as int),
                            env,
                        ).pending,
                        whole.size() > properties_size(s),
                        whole == old(e)@,
                {
                    let ghost i = it.index() as int;
                    let ghost before = expressions_view(transformed@);
                    let ghost waiting = properties_view(pending@);
                    proof {
                        lemma_property_size(s, i);
                        assert(s.take(i + 1).drop_last() =~= s.take(i));
                        assert(s.take(i + 1).last() == s[i]);
                        let step = kept_properties(s.take(i + 1), env);
                    }
                    assert(prop@ == s[i]);
                    match prop {
                        ObjectPropertyKind::SpreadProperty { span: spread_span, argument } => {
                            pending.push(
                                ObjectPropertyKind::SpreadProperty { span: spread_span, argument },
                            );
                            assert(properties_view(pending@) =~= waiting.push(s[i]));
                        },
                        ObjectPropertyKind::ObjectProperty {
                            span: prop_span,
                            key,
                            mut value,
                            ..
                        } => {
                            assert(s[i].size() == key@.size() + value@.size() + 1);
                            if pending.len() > 0 {
                                transformed.push(
                                    Expression::ObjectExpression {
                                        span: prop_span,
                                        properties: pending,
                                        trailing_comma: None,
                                    },
                                );
                                pending = Vec::new();
                            }
                            assert(expressions_view(transformed@) =~= with_object(
                                prop_span,
                                before,
                                waiting,
                            ));
                            assert(properties_view(pending@) =~= seq![]);
                            let ghost flushed = expressions_view(transformed@);
                            let ghost k = kept_key(flushed, key@, env);
                            match key {
                                PropertyKey::StaticIdentifier { .. }
                                | PropertyKey::PrivateIdentifier { .. } => {},
                                PropertyKey::Expression(mut expr) => {
                                    if !self.remove_unused_expression(&mut expr, ctx) {
                                        transformed.push(expr);
                                        assert(expressions_view(transformed@) =~= flushed.push(
                                            expr@,
                                        ));
                                    }
                                },
                            }
                            assert(expressions_view(transformed@) == k.exprs);
                            if !self.remove_unused_expression(&mut value, ctx) {
                                transformed.push(value);
                                assert(expressions_view(transformed@) =~= k.exprs.push(value@));
                            }
                        },
                    }
                }
                assert(s.take(s.len() as int) =~= s);
                let ghost before = expressions_view(transformed@);
                let ghost waiting = properties_view(pending@);
                if pending.len() > 0 {
                    transformed.push(
                        Expression::ObjectExpression {
                            span,
                            properties: pending,
                            trailing_comma: None,
                        },
                    );
                }
                assert(expressions_view(transformed@) =~= with_object(span, before, waiting));
                if transformed.len() == 0 {
                    let properties: Vec<ObjectPropertyKind<'a>> = Vec::new();
                    assert(properties_view(properties@) =~= seq![]);
                    *e = Expression::ObjectExpression { span, properties, trailing_comma };
                    return true;
                }
                *e = sequence_of(span, transformed);
                self.mark_current_function_as_changed();
                false
            },
            other => {
                *e = other;
                false
            },
        }
    }
}

} // verus!
