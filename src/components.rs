//! Classification of tag names: plain elements, the built-in structural
//! components, user components and the shapes that cannot be lowered.

use vstd::prelude::*;
use crate::ast::{AttributeName, ElementName, JsxAttribute, JsxElement};
use crate::text::str_eq;

verus! {

/// The built-in structural components.
#[derive(Clone, Copy, Debug, PartialEq, Eq, Structural)]
pub enum ComponentKind {
    /// `Show`
    Conditional,
    /// `For`
    Iteration,
    /// `Switch`: the multi-way branch.
    Switch,
    /// `Match`: one branch of a `Switch`.
    Match,
    /// `Suspense`
    AsyncBoundary,
    /// `Portal`
    Portal,
    /// `Dynamic`
    DynamicTag,
}

/// Tag-name shapes that no lowering handles.
#[derive(Clone, Copy, Debug, PartialEq, Eq, Structural)]
pub enum UnsupportedShape {
    NamespacedName,
    MemberExpression,
    ThisExpression,
}

/// An attribute that a structural component cannot do without.
#[derive(Clone, Copy, Debug, PartialEq, Eq, Structural)]
pub enum RequiredProp {
    When,
    Each,
    Component,
}

/// What a tag name stands for.
#[derive(Clone, Copy, Debug, PartialEq, Eq, Structural)]
pub enum NodeCategory {
    PlainElement,
    StructuralComponent(ComponentKind),
    UserComponent,
    Unsupported(UnsupportedShape),
}

/// Why a component cannot be lowered.
#[derive(Debug, PartialEq)]
pub enum ComponentError {
    /// A tag name of an unsupported shape, with the name itself and where the element stands.
    UnsupportedComponent { shape: UnsupportedShape, name: ElementName, start: usize, end: usize },
    MissingRequiredProp(ComponentKind, RequiredProp),
}

/// The error for element `e`, whose tag name has the unsupported `shape`.
pub open spec fn unsupported_error(e: JsxElement, shape: UnsupportedShape) -> ComponentError {
    ComponentError::UnsupportedComponent { shape, name: e.name, start: e.start, end: e.end }
}

/// A copy of a tag name.
pub fn copy_name(n: &ElementName) -> (r: ElementName)
    ensures
        r == *n,
{
    match n {
        ElementName::Identifier(s) => ElementName::Identifier(s.clone()),
        ElementName::IdentifierReference(s) => ElementName::IdentifierReference(s.clone()),
        ElementName::NamespacedName(a, b) => ElementName::NamespacedName(a.clone(), b.clone()),
        ElementName::MemberExpression(s) => ElementName::MemberExpression(s.clone()),
        ElementName::ThisExpression => ElementName::ThisExpression,
    }
}

/// The error for `element`, whose tag name has the unsupported `shape`.
pub fn unsupported(element: &JsxElement, shape: UnsupportedShape) -> (r: ComponentError)
    ensures
        r == unsupported_error(*element, shape),
{
    ComponentError::UnsupportedComponent {
        shape,
        name: copy_name(&element.name),
        start: element.start,
        end: element.end,
    }
}

/// The structural component that a capitalised name denotes, if any.
pub open spec fn structural_kind(name: Seq<char>) -> Option<ComponentKind> {
    if name == "Show"@ {
        Some(ComponentKind::Conditional)
    } else if name == "For"@ {
        Some(ComponentKind::Iteration)
    } else if name == "Switch"@ {
        Some(ComponentKind::Switch)
    } else if name == "Match"@ {
        Some(ComponentKind::Match)
    } else if name == "Suspense"@ {
        Some(ComponentKind::AsyncBoundary)
    } else if name == "Portal"@ {
        Some(ComponentKind::Portal)
    } else if name == "Dynamic"@ {
        Some(ComponentKind::DynamicTag)
    } else {
        None
    }
}

/// The category of a tag name: a built-in structural name is a structural component in
/// either identifier form; other lower-case tags are plain elements.
pub open spec fn category(name: ElementName) -> NodeCategory {
    match name {
        ElementName::Identifier(n) => match structural_kind(n@) {
            Some(k) => NodeCategory::StructuralComponent(k),
            None => NodeCategory::PlainElement,
        },
        ElementName::IdentifierReference(n) => match structural_kind(n@) {
            Some(k) => NodeCategory::StructuralComponent(k),
            None => NodeCategory::UserComponent,
        },
        ElementName::NamespacedName(_, _) => NodeCategory::Unsupported(
            UnsupportedShape::NamespacedName,
        ),
        ElementName::MemberExpression(_) => NodeCategory::Unsupported(
            UnsupportedShape::MemberExpression,
        ),
        ElementName::ThisExpression => NodeCategory::Unsupported(UnsupportedShape::ThisExpression),
    }
}

/// The attribute that each structural component must be given.
pub open spec fn required_prop(kind: ComponentKind) -> Option<RequiredProp> {
    match kind {
        ComponentKind::Conditional => Some(RequiredProp::When),
        ComponentKind::Iteration => Some(RequiredProp::Each),
        ComponentKind::Match => Some(RequiredProp::When),
        ComponentKind::DynamicTag => Some(RequiredProp::Component),
        _ => None,
    }
}

/// The attribute name that a required prop is written as.
pub open spec fn prop_name(p: RequiredProp) -> Seq<char> {
    match p {
        RequiredProp::When => "when"@,
        RequiredProp::Each => "each"@,
        RequiredProp::Component => "component"@,
    }
}

/// The attribute list holds a plain attribute called `name`.
pub open spec fn has_attribute(attrs: Seq<JsxAttribute>, name: Seq<char>) -> bool {
    exists|i: int|
        0 <= i < attrs.len() && (#[trigger] attrs[i] matches JsxAttribute::Attribute(
            AttributeName::Identifier(n),
            _,
        ) && n@ == name)
}

/// The error that lowering a component of this category meets before it looks at the children.
pub open spec fn component_check(e: JsxElement) -> Option<ComponentError> {
    let attrs = e.attributes@;
    match category(e.name) {
        NodeCategory::Unsupported(shape) => Some(unsupported_error(e, shape)),
        NodeCategory::StructuralComponent(k) => match required_prop(k) {
            Some(p) => if has_attribute(attrs, prop_name(p)) {
                None
            } else {
                Some(ComponentError::MissingRequiredProp(k, p))
            },
            None => None,
        },
        _ => None,
    }
}

/// The structural component that a capitalised name denotes, if any.
pub fn structural_kind_of(name: &str) -> (r: Option<ComponentKind>)
    ensures
        r == structural_kind(name@),
{
    if str_eq(name, "Show") {
        Some(ComponentKind::Conditional)
    } else if str_eq(name, "For") {
        Some(ComponentKind::Iteration)
    } else if str_eq(name, "Switch") {
        Some(ComponentKind::Switch)
    } else if str_eq(name, "Match") {
        Some(ComponentKind::Match)
    } else if str_eq(name, "Suspense") {
        Some(ComponentKind::AsyncBoundary)
    } else if str_eq(name, "Portal") {
        Some(ComponentKind::Portal)
    } else if str_eq(name, "Dynamic") {
        Some(ComponentKind::DynamicTag)
    } else {
        None
    }
}

/// Classifies a tag name.
pub fn classify(name: &ElementName) -> (r: NodeCategory)
    ensures
        r == category(*name),
{
    match name {
        ElementName::Identifier(n) => match structural_kind_of(n.as_str()) {
            Some(k) => NodeCategory::StructuralComponent(k),
            None => NodeCategory::PlainElement,
        },
        ElementName::IdentifierReference(n) => match structural_kind_of(n.as_str()) {
            Some(k) => NodeCategory::StructuralComponent(k),
            None => NodeCategory::UserComponent,
        },
        ElementName::NamespacedName(_, _) => NodeCategory::Unsupported(
            UnsupportedShape::NamespacedName,
        ),
        ElementName::MemberExpression(_) => NodeCategory::Unsupported(
            UnsupportedShape::MemberExpression,
        ),
        ElementName::ThisExpression => NodeCategory::Unsupported(UnsupportedShape::ThisExpression),
    }
}

fn prop_name_str(p: RequiredProp) -> (r: &'static str)
    ensures
        r@ == prop_name(p),
{
    match p {
        RequiredProp::When => "when",
        RequiredProp::Each => "each",
        RequiredProp::Component => "component",
    }
}

/// Whether the attribute list holds a plain attribute called `name`.
pub fn find_attribute(attrs: &Vec<JsxAttribute>, name: &str) -> (r: bool)
    ensures
        r == has_attribute(attrs@, name@),
{
    let mut i: usize = 0;
    while i < attrs.len()
        invariant
            i <= attrs.len(),
            forall|k: int|
                0 <= k < i ==> !(#[trigger] attrs@[k] matches JsxAttribute::Attribute(
                    AttributeName::Identifier(n),
                    _,
                ) && n@ == name@),
        decreases attrs.len() - i,
    {
        match &attrs[i] {
            JsxAttribute::Attribute(AttributeName::Identifier(n), _) => {
                if str_eq(n.as_str(), name) {
                    return true;
                }
            },
            _ => {},
        }
        i = i + 1;
    }
    false
}

/// Checks the tag-name shape and the required attribute of a component.
pub fn check_component(element: &JsxElement) -> (r: Option<ComponentError>)
    ensures
        r == component_check(*element),
{
    let attrs = &element.attributes;
    match classify(&element.name) {
        NodeCategory::Unsupported(shape) => Some(unsupported(element, shape)),
        NodeCategory::StructuralComponent(k) => {
            let p = match k {
                ComponentKind::Conditional => Some(RequiredProp::When),
                ComponentKind::Iteration => Some(RequiredProp::Each),
                ComponentKind::Match => Some(RequiredProp::When),
                ComponentKind::DynamicTag => Some(RequiredProp::Component),
                _ => None,
            };
            match p {
                Some(p) => if find_attribute(attrs, prop_name_str(p)) {
                    None
                } else {
                    Some(ComponentError::MissingRequiredProp(k, p))
                },
                None => None,
            }
        },
        _ => None,
    }
}

/// Lowers the built-in structural components and user components.
pub struct ComponentTransformer;

impl ComponentTransformer {
    pub fn new() -> (r: Self) {
        ComponentTransformer
    }

    /// Whether a tag name is one of the built-in structural components.
    pub fn is_dom_expressions_component(name: &ElementName) -> (r: bool)
        ensures
            r == (category(*name) is StructuralComponent),
    {
        match classify(name) {
            NodeCategory::StructuralComponent(_) => true,
            _ => false,
        }
    }

    /// The name of a component, or the error naming a tag of unsupported shape.
    pub fn get_component_name(&self, element: &JsxElement) -> (r: Result<String, ComponentError>)
        ensures
            match element.name {
                ElementName::Identifier(n) => r == Ok::<String, ComponentError>(n),
                ElementName::IdentifierReference(n) => r == Ok::<String, ComponentError>(n),
                _ => r == Err::<String, ComponentError>(
                    unsupported_error(*element, category(element.name)->Unsupported_0),
                ),
            },
    {
        match &element.name {
            ElementName::Identifier(n) => Ok(n.clone()),
            ElementName::IdentifierReference(n) => Ok(n.clone()),
            _ => match classify(&element.name) {
                NodeCategory::Unsupported(shape) => Err(unsupported(element, shape)),
                _ => Err(unsupported(element, UnsupportedShape::ThisExpression)),
            },
        }
    }
}

} // verus!
