//! Queries on element trees and the template identifier generator.

use vstd::prelude::*;
use crate::ast::{AttributeValue, ElementName, JsxAttribute, JsxChild, JsxElement};
use crate::jsx::{template_name, JSXTransformer};
use crate::text::{append_escaped, escape};

verus! {

/// The attribute's value is computed at runtime: an embedded expression or a spread.
pub open spec fn attribute_is_dynamic(a: JsxAttribute) -> bool {
    match a {
        JsxAttribute::Spread(_) => true,
        JsxAttribute::Attribute(_, Some(AttributeValue::Expression(_))) => true,
        _ => false,
    }
}

/// How many of the first `k` attributes are dynamic.
pub open spec fn dynamic_attribute_count(attrs: Seq<JsxAttribute>, k: nat) -> nat
    decreases k,
{
    if k == 0 || k > attrs.len() {
        0
    } else {
        dynamic_attribute_count(attrs, (k - 1) as nat) + if attribute_is_dynamic(attrs[k - 1]) {
            1nat
        } else {
            0nat
        }
    }
}

/// The dynamic parts of an element tree: its dynamic attributes and expression containers
/// (empty ones included), counted through nested elements.
pub open spec fn dynamic_count(e: JsxElement) -> nat
    decreases e, 1nat,
{
    dynamic_attribute_count(e.attributes@, e.attributes@.len()) + children_dynamic_count(
        e.children@,
        e.children@.len(),
    )
}

/// The dynamic parts among the first `k` children.
pub open spec fn children_dynamic_count(cs: Seq<JsxChild>, k: nat) -> nat
    decreases cs, k,
{
    if k == 0 || k > cs.len() {
        0
    } else {
        children_dynamic_count(cs, (k - 1) as nat) + match cs[k - 1] {
            JsxChild::Expression(_) => 1nat,
            JsxChild::Element(c) => dynamic_count(c),
            _ => 0nat,
        }
    }
}

/// `n` capped at `usize::MAX`.
pub open spec fn capped(n: nat) -> nat {
    if n > usize::MAX {
        usize::MAX as nat
    } else {
        n
    }
}

fn add_capped(a: usize, b: usize) -> (r: usize)
    ensures
        r == if a + b > usize::MAX {
            usize::MAX as int
        } else {
            a + b
        },
{
    if a > usize::MAX - b {
        usize::MAX
    } else {
        a + b
    }
}

/// Helpers on element trees.
pub struct AstUtils;

impl AstUtils {
    /// Whether the tree holds any dynamic attribute or embedded expression.
    pub fn has_dynamic_content(element: &JsxElement) -> (r: bool)
        ensures
            r == (dynamic_count(*element) > 0),
    {
        Self::count_dynamic_expressions(element) > 0
    }

    /// The number of dynamic attributes and embedded expressions in the tree, capped at
    /// `usize::MAX`.
    pub fn count_dynamic_expressions(element: &JsxElement) -> (r: usize)
        ensures
            r == capped(dynamic_count(*element)),
        decreases element, 1nat,
    {
        let mut count: usize = 0;
        let mut i: usize = 0;
        while i < element.attributes.len()
            invariant
                i <= element.attributes.len(),
                count == capped(dynamic_attribute_count(element.attributes@, i as nat)),
            decreases element.attributes.len() - i,
        {
            let d: usize = match &element.attributes[i] {
                JsxAttribute::Spread(_) => 1,
                JsxAttribute::Attribute(_, Some(AttributeValue::Expression(_))) => 1,
                _ => 0,
            };
            count = add_capped(count, d);
            i = i + 1;
        }
        let c = Self::count_children(&element.children);
        add_capped(count, c)
    }

    fn count_children(children: &Vec<JsxChild>) -> (r: usize)
        ensures
            r == capped(children_dynamic_count(children@, children@.len())),
        decreases children, 0nat,
    {
        let mut count: usize = 0;
        let mut i: usize = 0;
        while i < children.len()
            invariant
                i <= children.len(),
                count == capped(children_dynamic_count(children@, i as nat)),
            decreases children.len() - i,
        {
            let d: usize = match &children[i] {
                JsxChild::Expression(_) => 1,
                JsxChild::Element(c) => Self::count_dynamic_expressions(c),
                _ => 0,
            };
            count = add_capped(count, d);
            i = i + 1;
        }
        count
    }

    /// The tag name as written: `name`, or `ns:name`; none for member and `this` names.
    pub fn get_element_name(element: &JsxElement) -> (r: Option<String>)
        ensures
            match element.name {
                ElementName::Identifier(n) => r matches Some(s) && s@ == n@,
                ElementName::IdentifierReference(n) => r matches Some(s) && s@ == n@,
                ElementName::NamespacedName(a, b) => r matches Some(s) && s@ == a@ + ":"@ + b@,
                _ => r is None,
            },
    {
        match &element.name {
            ElementName::Identifier(n) => Some(n.clone()),
            ElementName::IdentifierReference(n) => Some(n.clone()),
            ElementName::NamespacedName(a, b) => {
                let mut s = a.clone();
                s.append(":");
                s.append(b.as_str());
                Some(s)
            },
            _ => None,
        }
    }

    /// Whether the element was written without a closing tag.
    pub fn is_self_closing(element: &JsxElement) -> (r: bool)
        ensures
            r == !element.has_closing,
    {
        !element.has_closing
    }
}

/// Hands out template identifiers in order: `_tmpl$`, then `_tmpl$2`, `_tmpl$3`, ...
pub struct TemplateGenerator {
    template_counter: usize,
}

impl TemplateGenerator {
    pub fn new() -> (r: Self)
        ensures
            r.count() == 0,
    {
        TemplateGenerator { template_counter: 0 }
    }

    /// How many identifiers were handed out.
    pub closed spec fn count(&self) -> nat {
        self.template_counter as nat
    }

    /// The next identifier.
    pub fn get_next_template_name(&mut self) -> (r: String)
        requires
            old(self).count() < usize::MAX,
        ensures
            final(self).count() == old(self).count() + 1,
            r@ == template_name(final(self).count()),
    {
        let k = self.template_counter;
        self.template_counter = k + 1;
        JSXTransformer::template_name_at(k)
    }

    /// Escapes backslashes, double quotes and line breaks for a JavaScript string.
    pub fn escape_template_string(input: &str) -> (r: String)
        ensures
            r@ == escape(input@),
    {
        let mut r = String::new();
        append_escaped(&mut r, input);
        assert(r@ =~= escape(input@));
        r
    }
}

} // verus!
