use oxc_transform_jsx_dom_expressions::ast::{
    AttributeName, AttributeValue, ElementName, JsxAttribute, JsxExpression,
};
use oxc_transform_jsx_dom_expressions::components::{
    classify, ComponentError, ComponentTransformer, NodeCategory, ComponentKind, UnsupportedShape,
};
use oxc_transform_jsx_dom_expressions::events::{
    EventError, EventHandling, EventTransformer, LifecycleEvent,
};
use oxc_transform_jsx_dom_expressions::ast::JsxElement;

fn s(x: &str) -> String {
    x.to_string()
}

fn handler_attr(name: &str, handler: &str) -> JsxAttribute {
    JsxAttribute::Attribute(
        AttributeName::Identifier(s(name)),
        Some(AttributeValue::Expression(JsxExpression::Identifier(s(handler)))),
    )
}

#[test]
fn test_component_transformer_creation() {
    let _transformer = ComponentTransformer::new();
    assert!(ComponentTransformer::is_dom_expressions_component(&ElementName::IdentifierReference(s("For"))));
}

#[test]
fn test_dom_expressions_component_detection() {
    for name in ["Show", "For", "Switch", "Match", "Suspense", "Portal", "Dynamic"] {
        assert!(ComponentTransformer::is_dom_expressions_component(&ElementName::IdentifierReference(s(name))));
    }
    assert!(!ComponentTransformer::is_dom_expressions_component(&ElementName::IdentifierReference(s("Counter"))));
    assert!(!ComponentTransformer::is_dom_expressions_component(&ElementName::Identifier(s("div"))));
    assert!(ComponentTransformer::is_dom_expressions_component(&ElementName::Identifier(s("Show"))));
    assert!(!ComponentTransformer::is_dom_expressions_component(&ElementName::ThisExpression));
    assert_eq!(classify(&ElementName::IdentifierReference(s("Suspense"))), NodeCategory::StructuralComponent(ComponentKind::AsyncBoundary));
    assert_eq!(classify(&ElementName::IdentifierReference(s("Counter"))), NodeCategory::UserComponent);
    assert_eq!(classify(&ElementName::Identifier(s("span"))), NodeCategory::PlainElement);
}

#[test]
fn test_get_component_name() {
    let t = ComponentTransformer::new();
    let named = JsxElement { name: ElementName::IdentifierReference(s("Show")), attributes: vec![], children: vec![], has_closing: false, start: 0, end: 0 };
    assert_eq!(t.get_component_name(&named).unwrap(), "Show");
    let this = JsxElement { name: ElementName::ThisExpression, attributes: vec![], children: vec![], has_closing: false, start: 0, end: 0 };
    assert_eq!(
        t.get_component_name(&this),
        Err(ComponentError::UnsupportedComponent {
            shape: UnsupportedShape::ThisExpression,
            name: ElementName::ThisExpression,
            start: 0,
            end: 0,
        })
    );
}

#[test]
fn test_event_attribute_detection() {
    assert!(EventTransformer::is_event_attribute("onClick"));
    assert!(EventTransformer::is_event_attribute("onSubmit"));
    assert!(EventTransformer::is_event_attribute("onMount"));
    assert!(!EventTransformer::is_event_attribute("class"));
    assert!(!EventTransformer::is_event_attribute("id"));
    assert!(!EventTransformer::is_event_attribute("on"));
}

#[test]
fn test_delegated_event_detection() {
    assert!(EventTransformer::is_delegated_event("click"));
    assert!(EventTransformer::is_delegated_event("input"));
    assert!(EventTransformer::is_delegated_event("submit"));
    assert!(!EventTransformer::is_delegated_event("mount"));
    assert!(!EventTransformer::is_delegated_event("resize"));
}

#[test]
fn test_delegated_event_in_any_case() {
    assert!(EventTransformer::is_delegated_event("KeyDown"));
    assert!(!EventTransformer::is_delegated_lowercase("KeyDown"));
    assert!(EventTransformer::is_delegated_lowercase("keydown"));
}

#[test]
fn test_event_name_extraction() {
    let transformer = EventTransformer::new();
    assert_eq!(transformer.extract_event_name("onClick").unwrap(), "click");
    assert_eq!(transformer.extract_event_name("onSubmit").unwrap(), "submit");
    assert_eq!(transformer.extract_event_name("onKeyDown").unwrap(), "keydown");
    assert!(transformer.extract_event_name("class").is_err());
    assert!(transformer.extract_event_name("on").is_err());
}

#[test]
fn test_on_click_is_delegated() {
    let t = EventTransformer::new();
    match t.transform_event_handler(&handler_attr("onClick", "handleClick")) {
        Ok(EventHandling::Delegated { event_name, handler }) => {
            assert_eq!(event_name, "click");
            assert_eq!(handler, "handleClick");
        },
        _ => panic!("onClick must be delegated"),
    }
}

#[test]
fn test_without_delegation_events_are_direct() {
    let t = EventTransformer::with_delegation(false);
    assert!(matches!(
        t.transform_event_handler(&handler_attr("onClick", "go")),
        Ok(EventHandling::Direct { .. })
    ));
    let t = EventTransformer::new();
    match t.transform_event_handler(&handler_attr("onScroll", "onScrolled")) {
        Ok(EventHandling::Direct { event_name, .. }) => assert_eq!(event_name, "scroll"),
        _ => panic!("onScroll is bound directly"),
    }
}

#[test]
fn test_lifecycle_hooks_are_not_dom_events() {
    let t = EventTransformer::new();
    assert!(matches!(
        t.transform_event_handler(&handler_attr("onMount", "init")),
        Err(EventError::UnsupportedEvent(_))
    ));
    assert!(matches!(
        t.transform_event_handler(&handler_attr("onCleanup", "done")),
        Err(EventError::UnsupportedEvent(_))
    ));
    match t.transform_lifecycle_event(&handler_attr("onMount", "init")) {
        Ok(LifecycleEvent::Mount(c)) => assert_eq!(c, "init"),
        _ => panic!("onMount is a lifecycle hook"),
    }
    assert!(matches!(t.transform_lifecycle_event(&handler_attr("onCleanup", "done")), Ok(LifecycleEvent::Cleanup(_))));
    assert!(matches!(t.transform_lifecycle_event(&handler_attr("onClick", "x")), Err(EventError::NotAnEvent(_))));
}

#[test]
fn test_event_errors() {
    let t = EventTransformer::new();
    assert!(matches!(t.transform_event_handler(&handler_attr("class", "x")), Err(EventError::NotAnEvent(_))));
    let no_value = JsxAttribute::Attribute(AttributeName::Identifier(s("onInput")), None);
    assert!(matches!(t.transform_event_handler(&no_value), Err(EventError::InvalidHandler(_))));
    assert!(matches!(t.extract_event_name("x"), Err(EventError::InvalidEventName(_))));
}

#[test]
fn test_binding_statements() {
    let t = EventTransformer::new();
    assert_eq!(t.generate_delegated_binding("click", "go"), "_el$.$$click = go;");
    assert_eq!(t.generate_direct_binding("scroll", "go"), "_el$.addEventListener(\"scroll\", go);");
}
