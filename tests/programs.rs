use oxc_transform_jsx_dom_expressions::ast::{
    CodePiece,
    AttributeName, AttributeValue, ElementName, Expression, JsxAttribute, JsxChild, JsxElement,
    JsxExpression, Program, Statement,
};
use oxc_transform_jsx_dom_expressions::jsx::JSXTransformer;
use oxc_transform_jsx_dom_expressions::{
    DomExpressionsTransform, DomExpressionsTransformOptions, ModuleFormat,
};

fn s(x: &str) -> String {
    x.to_string()
}

fn other(text: &str) -> JsxExpression {
    JsxExpression::Other(vec![CodePiece::Text(text.to_string())])
}

fn el(tag: &str, attributes: Vec<JsxAttribute>, children: Vec<JsxChild>) -> JsxElement {
    JsxElement { name: ElementName::Identifier(s(tag)), attributes, children, has_closing: true, start: 0, end: 0 }
}

fn comp(name: &str, attributes: Vec<JsxAttribute>, children: Vec<JsxChild>) -> JsxElement {
    JsxElement { name: ElementName::IdentifierReference(s(name)), attributes, children, has_closing: true, start: 0, end: 0 }
}

fn attr_expr(n: &str, e: JsxExpression) -> JsxAttribute {
    JsxAttribute::Attribute(AttributeName::Identifier(s(n)), Some(AttributeValue::Expression(e)))
}

fn text(t: &str) -> JsxChild {
    JsxChild::Text(s(t))
}

/// `function App() { <before> return <tree>; }`, where `before` is one declaration whose
/// initialiser is a call, as the parser front end describes it.
fn app(before: Option<&str>, tree_src: &str, tree: Option<JsxElement>) -> Program {
    let mut source = s("function App() {\n");
    let mut body = Vec::new();
    if let Some(b) = before {
        source.push_str("  ");
        source.push_str(b);
        source.push('\n');
        body.push(Statement::Variable(vec![Some(Expression::Call(vec![Expression::Other(vec![])]))]));
    }
    source.push_str("  return ");
    let start = source.chars().count();
    source.push_str(tree_src);
    let end = source.chars().count();
    source.push_str(";\n}\n");
    let ret = match tree {
        Some(t) => Expression::Element(t, start, end),
        None => Expression::Other(vec![]),
    };
    body.push(Statement::Return(Some(ret)));
    Program { source, body: vec![Statement::Function(body)] }
}

fn run(program: &Program, options: DomExpressionsTransformOptions) -> String {
    DomExpressionsTransform::new(options).transform_program(program).unwrap()
}

#[test]
fn test_jsx_with_event_handlers() {
    let tree = el("button", vec![attr_expr("onClick", JsxExpression::Identifier(s("handleClick")))], vec![text("Click me")]);
    let program = app(
        Some("const handleClick = () => console.log(\"clicked\");"),
        "<button onClick={handleClick}>Click me</button>",
        Some(tree),
    );
    let output = run(&program, DomExpressionsTransformOptions::default());
    assert!(output.contains("function App"));
    assert!(output.contains("handleClick"));
    assert!(!output.is_empty());
}

#[test]
fn test_solid_components() {
    let tree = comp(
        "Show",
        vec![attr_expr("when", other("show()"))],
        vec![text("\n  "), JsxChild::Element(el("div", vec![], vec![text("Shown content")])), text("\n")],
    );
    let program = app(
        Some("const [show, setShow] = createSignal(true);"),
        "<Show when={show()}>\n  <div>Shown content</div>\n</Show>",
        Some(tree),
    );
    let output = run(&program, DomExpressionsTransformOptions::default());
    assert!(output.contains("function App"));
    assert!(output.contains("createSignal"));
    assert!(!output.is_empty());
    assert!(output.contains("return _$createComponent(Show, { when: show(), children: _tmpl$() });"));
    assert!(output.starts_with("import { template as _$template, createComponent as _$createComponent } from \"r-dom\";\n"));
}

#[test]
fn test_for_component() {
    let tree = comp(
        "For",
        vec![attr_expr("each", JsxExpression::Identifier(s("items")))],
        vec![
            text("\n  "),
            JsxChild::Expression(JsxExpression::Other(vec![
                CodePiece::Text(s("(item) => ")),
                CodePiece::Element(el("div", vec![], vec![JsxChild::Expression(JsxExpression::Identifier(s("item")))])),
            ])),
            text("\n"),
        ],
    );
    let program = app(
        Some("const items = [1, 2, 3];"),
        "<For each={items}>\n  {(item) => <div>{item}</div>}\n</For>",
        Some(tree),
    );
    let output = run(&program, DomExpressionsTransformOptions::default());
    assert!(output.contains("function App"));
    assert!(output.contains("items"));
    assert!(!output.is_empty());
    assert!(output.contains(
        "_$createComponent(For, { each: items, children: (item) => (() => {\n  var _el$ = _tmpl$();\n  _$insert(_el$, item, null);\n  return _el$;\n})() })"
    ));
    assert!(output.contains("var _tmpl$ = /*#__PURE__*/ _$template(`<div></div>`);"));
    assert!(!output.contains("<div>{item}</div>"));
}

#[test]
fn test_nested_components() {
    let tree = el(
        "div",
        vec![],
        vec![
            text("\n  "),
            JsxChild::Element(comp("Header", vec![], vec![JsxChild::Element(el("h1", vec![], vec![text("Title")]))])),
            text("\n  "),
            JsxChild::Element(comp("Main", vec![], vec![JsxChild::Element(el("p", vec![], vec![text("Content")]))])),
            text("\n"),
        ],
    );
    let program = app(None, "<div>...</div>", Some(tree));
    let output = run(&program, DomExpressionsTransformOptions::default());
    assert!(output.contains("function App"));
    assert!(!output.is_empty());
    assert!(output.contains("var _tmpl$ = /*#__PURE__*/ _$template(`<div>     </div>`);"));
    assert!(output.contains("var _tmpl$2 = /*#__PURE__*/ _$template(`<h1>Title</h1>`);"));
    assert!(output.contains("var _tmpl$3 = /*#__PURE__*/ _$template(`<p>Content</p>`);"));
    assert!(output.contains("_$insert(_el$, _$createComponent(Header, { children: _tmpl$2() }), null);"));
    assert!(output.contains("_$insert(_el$, _$createComponent(Main, { children: _tmpl$3() }), null);"));
}

#[test]
fn test_fragment() {
    let program = app(None, "<>\n  <div>First</div>\n  <div>Second</div>\n</>", None);
    let output = run(&program, DomExpressionsTransformOptions::default());
    assert!(output.contains("function App"));
    assert!(!output.is_empty());
}

#[test]
fn test_development_mode() {
    let tree = el("div", vec![], vec![text("Development mode")]);
    let program = app(None, "<div>Development mode</div>", Some(tree));
    let options = DomExpressionsTransformOptions { hydratable: false, delegation: true, ..Default::default() };
    let output = run(&program, options);
    assert!(output.contains("function App"));
    assert!(!output.is_empty());
}

#[test]
fn test_hydratable_mode() {
    let tree = el("div", vec![], vec![text("Hydratable content")]);
    let program = app(None, "<div>Hydratable content</div>", Some(tree));
    let options = DomExpressionsTransformOptions { hydratable: true, ..Default::default() };
    let output = run(&program, options);
    assert!(output.contains("function App"));
    assert!(!output.is_empty());
}

#[test]
fn test_cjs_module_format() {
    let tree = el("div", vec![], vec![text("CommonJS module")]);
    let program = app(None, "<div>CommonJS module</div>", Some(tree));
    let options = DomExpressionsTransformOptions { context_to_custom_elements: true, ..Default::default() };
    let output = run(&program, options);
    assert!(output.contains("function App"));
    assert!(!output.is_empty());
    let tree = el("div", vec![], vec![text("CommonJS module")]);
    let program = app(None, "<div>CommonJS module</div>", Some(tree));
    let options = DomExpressionsTransformOptions { module_format: ModuleFormat::Cjs, ..Default::default() };
    let output = run(&program, options);
    assert!(output.starts_with("const { template: _$template } = require(\"r-dom\");\n"));
}

#[test]
fn mod_test_dom_expressions_transform_creation() {
    let transform = DomExpressionsTransform::new(DomExpressionsTransformOptions::default());
    assert!(transform.options.delegation);
    assert_eq!(transform.options.static_marker, "$$");
}

#[test]
fn mod_new_test_dom_expressions_transform_creation() {
    let options = DomExpressionsTransformOptions { hydratable: true, ..Default::default() };
    let transform = DomExpressionsTransform::new(options);
    assert!(transform.options.hydratable);
    assert!(transform.options.memo_wrapper && transform.options.wrap_conditionals);
}

#[test]
fn mod_new_test_template_name_generation() {
    let mut jsx = JSXTransformer::new();
    assert_eq!(jsx.get_next_template_name(), "_tmpl$");
    assert_eq!(jsx.get_next_template_name(), "_tmpl$2");
    assert_eq!(jsx.get_current_template_name(), "_tmpl$2");
}

#[test]
fn jsx_new_test_jsx_transformer_creation() {
    let jsx = JSXTransformer::new();
    assert_eq!(jsx.template_count(), 0);
    assert_eq!(jsx.get_current_template_name(), "_tmpl$");
}

#[test]
fn jsx_old_test_jsx_transformer_creation() {
    let jsx = JSXTransformer::new();
    assert!(jsx.get_templates().is_empty());
}

#[test]
fn jsx_old_test_template_counter_increment() {
    let mut jsx = JSXTransformer::new();
    jsx.get_next_template_name();
    assert_eq!(jsx.template_count(), 1);
}

#[test]
fn test_jsx_transformer_template_insertion() {
    let mut jsx = JSXTransformer::new();
    let name = jsx.register_template(s("<div>Hello</div>"));
    assert_eq!(name, "_tmpl$");
    let templates = jsx.get_templates();
    assert_eq!(templates.len(), 1);
    assert_eq!(templates[0], (s("_tmpl$"), s("<div>Hello</div>")));
    assert_eq!(
        jsx.create_template_declaration("_tmpl$", "<div>Hello</div>"),
        "var _tmpl$ = /*#__PURE__*/ _$template(`<div>Hello</div>`);"
    );
}

#[test]
fn test_required_imports_listing() {
    let mut jsx = JSXTransformer::new();
    assert_eq!(jsx.get_required_imports(), vec![s("template as _$template")]);
    jsx.add_dynamic_attribute("style", "{ color: c() }");
    assert_eq!(
        jsx.get_required_imports(),
        vec![s("template as _$template"), s("effect as _$effect"), s("style as _$style")]
    );
}
