//! Classification of event-handler attributes: delegated DOM events, directly
//! bound DOM events and lifecycle hooks.

use vstd::prelude::*;
use crate::ast::{AttributeName, AttributeValue, JsxAttribute, JsxExpression};
use crate::jsx::{plain_expression_text, plain_text};
use crate::text::str_eq;

verus! {

/// What `str::to_lowercase` gives for these characters.
pub uninterp spec fn lower_of(s: Seq<char>) -> Seq<char>;

/// Relies on `str::to_lowercase`: the result depends on the characters alone.
#[verifier::external_body]
fn lowercase(s: &str) -> (r: String)
    ensures
        r@ == lower_of(s@),
{
    s.to_lowercase()
}

/// `name` has the shape `on<EventName>` with a non-empty event name.
pub open spec fn is_event_attribute_spec(name: Seq<char>) -> bool {
    name.len() > 2 && name[0] == 'o' && name[1] == 'n'
}

/// The common bubbling DOM events that are bound once at the document and dispatched by name.
pub open spec fn is_delegated_name(event: Seq<char>) -> bool {
    ||| event == "click"@
    ||| event == "input"@
    ||| event == "change"@
    ||| event == "submit"@
    ||| event == "focus"@
    ||| event == "blur"@
    ||| event == "keydown"@
    ||| event == "keyup"@
}

/// The lifecycle hooks, which are attributes of the `on` shape but no DOM events.
pub open spec fn is_lifecycle_name(name: Seq<char>) -> bool {
    name == "onMount"@ || name == "onCleanup"@
}

/// The event name of an event attribute: what follows `on`, lower-cased.
pub open spec fn event_name_of(attr_name: Seq<char>) -> Seq<char> {
    lower_of(attr_name.subrange(2, attr_name.len() as int))
}

/// How a DOM event handler is bound.
#[derive(Debug)]
pub enum EventHandling {
    /// Bound once at the document and dispatched by name.
    Delegated { event_name: String, handler: String },
    /// Bound on the element itself.
    Direct { event_name: String, handler: String },
}

/// A lifecycle hook with its callback's source text.
#[derive(Debug)]
pub enum LifecycleEvent {
    Mount(String),
    Cleanup(String),
}

/// Why an attribute is not a bindable event handler.
#[derive(Debug)]
pub enum EventError {
    NotAnEvent(String),
    InvalidEventName(String),
    InvalidHandler(String),
    UnsupportedEvent(String),
}

/// The handler text of an attribute value, when it is a non-empty embedded expression.
pub open spec fn handler_of(value: Option<AttributeValue>) -> Option<Seq<char>> {
    match value {
        Some(AttributeValue::Expression(x)) => if x is Empty {
            None
        } else {
            plain_text(x)
        },
        _ => None,
    }
}

/// Classifies event handler attributes and decides how events are bound.
pub struct EventTransformer {
    /// When false, every DOM event is bound directly.
    pub delegation: bool,
}

impl EventTransformer {
    pub fn new() -> (r: Self)
        ensures
            r.delegation,
    {
        EventTransformer { delegation: true }
    }

    pub fn with_delegation(delegation: bool) -> (r: Self)
        ensures
            r.delegation == delegation,
    {
        EventTransformer { delegation }
    }

    /// Whether an attribute name is an event handler (`on` followed by at least one character).
    pub fn is_event_attribute(attr_name: &str) -> (r: bool)
        ensures
            r == is_event_attribute_spec(attr_name@),
    {
        let n = attr_name.unicode_len();
        n > 2 && attr_name.get_char(0) == 'o' && attr_name.get_char(1) == 'n'
    }

    /// Whether an already lower-cased event name is one of the delegated events.
    pub fn is_delegated_lowercase(event_name: &str) -> (r: bool)
        ensures
            r == is_delegated_name(event_name@),
    {
        str_eq(event_name, "click") || str_eq(event_name, "input") || str_eq(event_name, "change")
            || str_eq(event_name, "submit") || str_eq(event_name, "focus") || str_eq(
            event_name,
            "blur",
        ) || str_eq(event_name, "keydown") || str_eq(event_name, "keyup")
    }

    /// Whether an event, in any letter case, is one of the delegated events.
    pub fn is_delegated_event(event_name: &str) -> (r: bool)
        ensures
            r == is_delegated_name(lower_of(event_name@)),
    {
        let lower = lowercase(event_name);
        Self::is_delegated_lowercase(lower.as_str())
    }

    /// Whether an attribute name is a lifecycle hook rather than a DOM event.
    pub fn is_lifecycle_attribute(attr_name: &str) -> (r: bool)
        ensures
            r == is_lifecycle_name(attr_name@),
    {
        str_eq(attr_name, "onMount") || str_eq(attr_name, "onCleanup")
    }

    /// The event name of an event attribute (`onClick` gives `click`).
    pub fn extract_event_name(&self, attr_name: &str) -> (r: Result<String, EventError>)
        ensures
            is_event_attribute_spec(attr_name@) ==> r is Ok && r->Ok_0@ == event_name_of(
                attr_name@,
            ),
            !is_event_attribute_spec(attr_name@) ==> (r matches Err(EventError::InvalidEventName(
                n,
            )) && n@ == attr_name@),
    {
        if !Self::is_event_attribute(attr_name) {
            return Err(EventError::InvalidEventName(String::from_str(attr_name)));
        }
        let n = attr_name.unicode_len();
        let rest = attr_name.substring_char(2, n);
        Ok(lowercase(rest))
    }

    /// Classifies an event attribute as a delegated or a directly bound DOM event, with the
    /// source text of its handler. Lifecycle hooks are refused, so they never reach either
    /// binding path.
    pub fn transform_event_handler(&self, attribute: &JsxAttribute) -> (r: Result<
        EventHandling,
        EventError,
    >)
        ensures
            match *attribute {
                JsxAttribute::Attribute(AttributeName::Identifier(name), value) => {
                    if !is_event_attribute_spec(name@) {
                        r matches Err(EventError::NotAnEvent(n)) && n@ == name@
                    } else if is_lifecycle_name(name@) {
                        r matches Err(EventError::UnsupportedEvent(n)) && n@ == name@
                    } else {
                        match handler_of(value) {
                            None => r matches Err(EventError::InvalidHandler(n)) && n@ == name@,
                            Some(h) => if self.delegation && is_delegated_name(
                                event_name_of(name@),
                            ) {
                                r matches Ok(EventHandling::Delegated { event_name, handler })
                                    && event_name@ == event_name_of(name@) && handler@ == h
                            } else {
                                r matches Ok(EventHandling::Direct { event_name, handler })
                                    && event_name@ == event_name_of(name@) && handler@ == h
                            },
                        }
                    }
                },
                _ => r matches Err(EventError::NotAnEvent(_)),
            },
    {
        let name = match attribute {
            JsxAttribute::Attribute(AttributeName::Identifier(name), _) => name,
            _ => {
                return Err(EventError::NotAnEvent(String::new()));
            },
        };
        if !Self::is_event_attribute(name.as_str()) {
            return Err(EventError::NotAnEvent(name.clone()));
        }
        if Self::is_lifecycle_attribute(name.as_str()) {
            return Err(EventError::UnsupportedEvent(name.clone()));
        }
        let handler = match attribute {
            JsxAttribute::Attribute(_, Some(AttributeValue::Expression(x))) => match x {
                JsxExpression::Empty => {
                    return Err(EventError::InvalidHandler(name.clone()));
                },
                _ => match plain_expression_text(x) {
                    Some(t) => t,
                    None => {
                        return Err(EventError::InvalidHandler(name.clone()));
                    },
                },
            },
            _ => {
                return Err(EventError::InvalidHandler(name.clone()));
            },
        };
        let event_name = match self.extract_event_name(name.as_str()) {
            Ok(e) => e,
            Err(x) => {
                return Err(x);
            },
        };
        if self.delegation && Self::is_delegated_lowercase(event_name.as_str()) {
            Ok(EventHandling::Delegated { event_name, handler })
        } else {
            Ok(EventHandling::Direct { event_name, handler })
        }
    }

    /// Recognises the lifecycle hooks `onMount` and `onCleanup`, with their callback text.
    pub fn transform_lifecycle_event(&self, attribute: &JsxAttribute) -> (r: Result<
        LifecycleEvent,
        EventError,
    >)
        ensures
            match *attribute {
                JsxAttribute::Attribute(AttributeName::Identifier(name), value) => {
                    if !is_lifecycle_name(name@) {
                        r matches Err(EventError::NotAnEvent(n)) && n@ == name@
                    } else {
                        match handler_of(value) {
                            None => r matches Err(EventError::InvalidHandler(n)) && n@ == name@,
                            Some(h) => if name@ == "onMount"@ {
                                r matches Ok(LifecycleEvent::Mount(c)) && c@ == h
                            } else {
                                r matches Ok(LifecycleEvent::Cleanup(c)) && c@ == h
                            },
                        }
                    }
                },
                _ => r matches Err(EventError::NotAnEvent(_)),
            },
    {
        let name = match attribute {
            JsxAttribute::Attribute(AttributeName::Identifier(name), _) => name,
            _ => {
                return Err(EventError::NotAnEvent(String::new()));
            },
        };
        if !Self::is_lifecycle_attribute(name.as_str()) {
            return Err(EventError::NotAnEvent(name.clone()));
        }
        let callback = match attribute {
            JsxAttribute::Attribute(_, Some(AttributeValue::Expression(x))) => match x {
                JsxExpression::Empty => {
                    return Err(EventError::InvalidHandler(name.clone()));
                },
                _ => match plain_expression_text(x) {
                    Some(t) => t,
                    None => {
                        return Err(EventError::InvalidHandler(name.clone()));
                    },
                },
            },
            _ => {
                return Err(EventError::InvalidHandler(name.clone()));
            },
        };
        if str_eq(name.as_str(), "onMount") {
            Ok(LifecycleEvent::Mount(callback))
        } else {
            Ok(LifecycleEvent::Cleanup(callback))
        }
    }

    /// The statement that registers a delegated handler on the template root.
    pub fn generate_delegated_binding(&self, event_name: &str, handler: &str) -> (r: String)
        ensures
            r@ == "_el$.$$"@ + event_name@ + " = "@ + handler@ + ";"@,
    {
        let mut r = String::from_str("_el$.$$");
        r.append(event_name);
        r.append(" = ");
        r.append(handler);
        r.append(";");
        r
    }

    /// The statement that binds a handler on the template root itself.
    pub fn generate_direct_binding(&self, event_name: &str, handler: &str) -> (r: String)
        ensures
            r@ == "_el$.addEventListener(\""@ + event_name@ + "\", "@ + handler@ + ");"@,
    {
        let mut r = String::from_str("_el$.addEventListener(\"");
        r.append(event_name);
        r.append("\", ");
        r.append(handler);
        r.append(");");
        r
    }
}

} // verus!
