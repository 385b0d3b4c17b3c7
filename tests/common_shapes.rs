use oxc_transform_jsx_dom_expressions::ast::{
    CodePiece,
    AttributeName, AttributeValue, ElementName, Expression, JsxAttribute, JsxChild, JsxElement,
    JsxExpression, Program, Statement,
};
use oxc_transform_jsx_dom_expressions::components::{ComponentError, ComponentKind, RequiredProp, UnsupportedShape};
use oxc_transform_jsx_dom_expressions::jsx::{InvalidShape, JSXTransformer, TransformError};
use oxc_transform_jsx_dom_expressions::{
    DomExpressionsTransform, DomExpressionsTransformOptions, ModuleFormat, SolidJsTransformer,
    SolidTransformOptions,
};

fn s(x: &str) -> String {
    x.to_string()
}

fn other(text: &str) -> JsxExpression {
    JsxExpression::Other(vec![CodePiece::Text(text.to_string())])
}

fn el(tag: &str, attributes: Vec<JsxAttribute>, children: Vec<JsxChild>) -> JsxElement {
    JsxElement { name: ElementName::Identifier(s(tag)), attributes, children, has_closing: true, start: 0, end: 0 }
}

fn comp(name: &str, attributes: Vec<JsxAttribute>, children: Vec<JsxChild>) -> JsxElement {
    JsxElement {
        name: ElementName::IdentifierReference(s(name)),
        attributes,
        children,
        has_closing: true,
        start: 0,
        end: 0,
    }
}

fn text(t: &str) -> JsxChild {
    JsxChild::Text(s(t))
}

fn ident(n: &str) -> JsxExpression {
    JsxExpression::Identifier(s(n))
}

fn attr_str(n: &str, v: &str) -> JsxAttribute {
    JsxAttribute::Attribute(AttributeName::Identifier(s(n)), Some(AttributeValue::StringLiteral(s(v))))
}

fn attr_expr(n: &str, e: JsxExpression) -> JsxAttribute {
    JsxAttribute::Attribute(AttributeName::Identifier(s(n)), Some(AttributeValue::Expression(e)))
}

/// A program `function App() { return <tree>; }` whose tree is written as `tree_src`.
fn app_returning(tree_src: &str, tree: JsxElement) -> Program {
    let source = format!("function App() {{\n  return {};\n}}\n", tree_src);
    let start = source.find(tree_src).unwrap();
    let end = start + tree_src.chars().count();
    Program {
        source,
        body: vec![Statement::Function(vec![Statement::Return(Some(Expression::Element(
            tree, start, end,
        )))])],
    }
}

#[test]
fn test_transformer_creation() {
    let transformer = SolidJsTransformer::new();
    assert!(!transformer.options.development);
    assert!(!transformer.options.hydratable);
}

#[test]
fn test_transformer_with_options() {
    let options = SolidTransformOptions { development: true, hydratable: true, ..Default::default() };
    let transformer = SolidJsTransformer::with_options(options);
    assert!(transformer.options.development);
    assert!(transformer.options.hydratable);
}

#[test]
fn test_dom_fixtures_simple_elements() {
    let tree = el("div", vec![], vec![text("Hello World")]);
    let program = app_returning("<div>Hello World</div>", tree);
    let mut transformer = DomExpressionsTransform::new(DomExpressionsTransformOptions::default());
    let out = transformer.transform_program(&program).unwrap();
    assert_eq!(
        out,
        "import { template as _$template } from \"r-dom\";\n\
         var _tmpl$ = /*#__PURE__*/ _$template(`<div>Hello World</div>`);\n\
         function App() {\n  return _tmpl$();\n}\n"
    );
}

#[test]
fn test_simple_jsx_element() {
    let tree = el("div", vec![], vec![text("Hello World")]);
    let program = app_returning("<div>Hello World</div>", tree);
    let out = SolidJsTransformer::new().transform_program(&program).unwrap();
    assert!(out.contains("_tmpl$"));
    assert!(out.contains("template("));
    assert!(out.contains("<div>Hello World</div>"));
    assert!(out.contains("var _tmpl$ = /*#__PURE__*/ _$template(`<div>Hello World</div>`);"));
    assert!(out.contains("return _tmpl$();"));
}

#[test]
fn test_simple_element_fixture_detailed() {
    let tree = el("div", vec![], vec![text("Hello World")]);
    let program = app_returning("<div>Hello World</div>", tree);
    let out = SolidJsTransformer::new().transform_program(&program).unwrap();
    assert!(out.contains("_tmpl$"));
    assert!(out.contains("template(`<div>Hello World</div>`)"));
}

#[test]
fn test_jsx_with_attributes() {
    let tree = el(
        "div",
        vec![attr_str("class", "container"), attr_str("id", "main")],
        vec![text("Content")],
    );
    let program = app_returning("<div class=\"container\" id=\"main\">Content</div>", tree);
    let out = SolidJsTransformer::new().transform_program(&program).unwrap();
    assert!(out.contains("_tmpl$"));
    assert!(out.contains("template("));
    assert!(out.contains("class=container"));
    assert!(out.contains("id=main"));
    assert!(out.contains("Content"));
    assert!(!out.contains("_$setAttribute"));
}

#[test]
fn test_static_attributes_inlined_in_order() {
    let tree = el(
        "div",
        vec![attr_str("class", "container"), attr_str("id", "main")],
        vec![text("Content")],
    );
    let mut jsx = JSXTransformer::new();
    let info = jsx.extract_template_with_dynamics_and_text(&tree).unwrap();
    assert_eq!(info.html, "<div class=container id=main>Content</div>");
    assert!(info.dynamic_attributes.is_empty());
    assert!(!info.has_dynamic_content);
}

#[test]
fn test_jsx_with_dynamic_content() {
    let tree = el("div", vec![], vec![text("Hello "), JsxChild::Expression(ident("name")), text("!")]);
    let mut jsx = JSXTransformer::new();
    let info = jsx.extract_template_with_dynamics_and_text(&tree).unwrap();
    assert_eq!(info.html, "<div>Hello !</div>");
    assert_eq!(info.text_insertions.len(), 1);
    assert_eq!(info.text_insertions[0].expression, "name");
    assert!(matches!(
        info.text_insertions[0].position,
        oxc_transform_jsx_dom_expressions::jsx::InsertionPosition::AtEnd
    ));
    let mut jsx = JSXTransformer::new();
    let code = jsx.transform_jsx_element(&tree).unwrap();
    assert_eq!(
        code,
        "(() => {\n  var _el$ = _tmpl$();\n  _$insert(_el$, name, null);\n  return _el$;\n})()"
    );
    assert!(jsx.imports().insert);
}

#[test]
fn test_dynamic_content_program() {
    let tree = el("div", vec![], vec![text("Hello "), JsxChild::Expression(ident("name")), text("!")]);
    let program = app_returning("<div>Hello {name}!</div>", tree);
    let out = SolidJsTransformer::new().transform_program(&program).unwrap();
    assert!(out.starts_with("import { template as _$template, insert as _$insert } from \"r-dom\";\n"));
    assert!(out.contains("var _tmpl$ = /*#__PURE__*/ _$template(`<div>Hello !</div>`);\n"));
    assert!(out.contains("function App"));
}

#[test]
fn test_first_expression_goes_before_first_child() {
    let tree = el("p", vec![], vec![JsxChild::Expression(ident("count")), text(" items")]);
    let mut jsx = JSXTransformer::new();
    let code = jsx.transform_jsx_element(&tree).unwrap();
    assert_eq!(
        code,
        "(() => {\n  var _el$ = _tmpl$();\n  _$insert(_el$, count, _el$.firstChild);\n  return _el$;\n})()"
    );
    assert_eq!(jsx.template_html(0), "<p>items</p>");
}

#[test]
fn test_whitespace_text_rules() {
    let tree = el(
        "div",
        vec![],
        vec![
            JsxChild::Element(el("b", vec![], vec![text("a")])),
            text("\n    "),
            JsxChild::Element(el("i", vec![], vec![text("b")])),
            text(" "),
            JsxChild::Element(el("u", vec![], vec![])),
        ],
    );
    let mut jsx = JSXTransformer::new();
    let info = jsx.extract_template_with_dynamics_and_text(&tree).unwrap();
    assert_eq!(info.html, "<div><b>a</b> <i>b</i> <u></u></div>");
}

#[test]
fn test_self_closing_element() {
    let tree = JsxElement {
        name: ElementName::Identifier(s("input")),
        attributes: vec![JsxAttribute::Attribute(AttributeName::Identifier(s("disabled")), None)],
        children: vec![],
        has_closing: false,
        start: 0,
        end: 0,
    };
    let mut jsx = JSXTransformer::new();
    let info = jsx.extract_template_with_dynamics_and_text(&tree).unwrap();
    assert_eq!(info.html, "<input disabled>");
}

#[test]
fn test_quoting_heuristic() {
    let tree = el("a", vec![attr_str("title", "two words"), attr_str("alt", "")], vec![]);
    let mut jsx = JSXTransformer::new();
    let info = jsx.extract_template_with_dynamics_and_text(&tree).unwrap();
    assert_eq!(info.html, "<a title=\"two words\" alt=\"\"></a>");
}

#[test]
fn test_dynamic_attribute_bindings() {
    let tree = el(
        "div",
        vec![
            attr_expr("title", ident("label")),
            attr_expr("class", other("cls()")),
            attr_expr("style", other("{ color: c() }")),
            attr_expr("classList", other("{ active: on }")),
        ],
        vec![],
    );
    let mut jsx = JSXTransformer::new();
    let code = jsx.transform_jsx_element(&tree).unwrap();
    assert_eq!(
        code,
        "(() => {\n  var _el$ = _tmpl$();\n\
         \x20 _$setAttribute(_el$, \"title\", label);\n\
         \x20 _$effect(() => _$setAttribute(_el$, \"class\", cls()));\n\
         \x20 _$effect(_$p => _$style(_el$, { color: c() }, _$p));\n\
         \x20 _$classList(_el$, { active: on });\n\
         \x20 return _el$;\n})()"
    );
    assert_eq!(jsx.template_html(0), "<div></div>");
    let imports = jsx.imports();
    assert!(imports.set_attribute && imports.effect && imports.style && imports.class_list);
    assert!(!imports.insert && !imports.create_component);
}

#[test]
fn test_string_literal_expression_is_escaped() {
    let tree = el("div", vec![attr_expr("title", JsxExpression::StringLiteral(s("say \"hi\"")))], vec![]);
    let mut jsx = JSXTransformer::new();
    let info = jsx.extract_template_with_dynamics_and_text(&tree).unwrap();
    assert_eq!(info.dynamic_attributes[0].expression, "\"say \\\"hi\\\"\"");
}

#[test]
fn test_template_identifiers_in_order_without_dedup() {
    let mut jsx = JSXTransformer::new();
    let a = el("span", vec![], vec![text("x")]);
    assert_eq!(jsx.transform_jsx_element(&a).unwrap(), "_tmpl$()");
    assert_eq!(jsx.transform_jsx_element(&a).unwrap(), "_tmpl$2()");
    assert_eq!(jsx.transform_jsx_element(&a).unwrap(), "_tmpl$3()");
    assert_eq!(jsx.template_count(), 3);
    assert_eq!(jsx.template_html(0), jsx.template_html(1));
}

#[test]
fn test_two_identical_trees_in_one_program() {
    let source = s("const a = <b>x</b>;\nconst c = <b>x</b>;\n");
    let program = Program {
        source,
        body: vec![
            Statement::Variable(vec![Some(Expression::Element(el("b", vec![], vec![text("x")]), 10, 18))]),
            Statement::Variable(vec![Some(Expression::Element(el("b", vec![], vec![text("x")]), 30, 38))]),
        ],
    };
    let out = SolidJsTransformer::new().transform_program(&program).unwrap();
    assert_eq!(
        out,
        "import { template as _$template } from \"r-dom\";\n\
         var _tmpl$ = /*#__PURE__*/ _$template(`<b>x</b>`);\n\
         var _tmpl$2 = /*#__PURE__*/ _$template(`<b>x</b>`);\n\
         const a = _tmpl$();\nconst c = _tmpl$2();\n"
    );
}

#[test]
fn test_show_component_lowering() {
    let tree = comp(
        "Show",
        vec![attr_expr("when", other("count() > 5"))],
        vec![text("\n  "), JsxChild::Element(el("p", vec![], vec![text("High count!")])), text("\n")],
    );
    let mut jsx = JSXTransformer::new();
    let code = jsx.transform_jsx_element(&tree).unwrap();
    assert_eq!(code, "_$createComponent(Show, { when: count() > 5, children: _tmpl$() })");
    assert_eq!(jsx.template_html(0), "<p>High count!</p>");
    assert!(jsx.imports().create_component);
}

#[test]
fn test_component_with_several_children_and_no_props() {
    let tree = comp("Switch", vec![], vec![text("a"), JsxChild::Expression(ident("b"))]);
    let mut jsx = JSXTransformer::new();
    let code = jsx.transform_jsx_element(&tree).unwrap();
    assert_eq!(code, "_$createComponent(Switch, { children: [\"a\", b] })");
    let empty = comp("Counter", vec![], vec![]);
    assert_eq!(jsx.transform_jsx_element(&empty).unwrap(), "_$createComponent(Counter, {})");
}

#[test]
fn test_nested_component_becomes_insertion() {
    let inner = comp("For", vec![attr_expr("each", other("items()"))], vec![
        JsxChild::Expression(other("(item) => item")),
    ]);
    let tree = el("ul", vec![], vec![JsxChild::Element(inner)]);
    let mut jsx = JSXTransformer::new();
    let code = jsx.transform_jsx_element(&tree).unwrap();
    assert_eq!(
        code,
        "(() => {\n  var _el$ = _tmpl$();\n  _$insert(_el$, _$createComponent(For, { each: items(), children: (item) => item }), null);\n  return _el$;\n})()"
    );
    assert_eq!(jsx.template_html(0), "<ul></ul>");
}

#[test]
fn test_missing_required_prop() {
    let tree = comp("Show", vec![], vec![text("x")]);
    let mut jsx = JSXTransformer::new();
    assert_eq!(
        jsx.transform_jsx_element(&tree),
        Err(TransformError::Component(ComponentError::MissingRequiredProp(
            ComponentKind::Conditional,
            RequiredProp::When
        )))
    );
}

#[test]
fn test_unsupported_namespaced_tag_fails_program() {
    let tree = JsxElement {
        name: ElementName::NamespacedName(s("svg"), s("rect")),
        attributes: vec![attr_str("x", "1")],
        children: vec![],
        has_closing: false,
        start: 26,
        end: 43,
    };
    let program = app_returning("<svg:rect x=\"1\"/>", tree);
    assert_eq!(
        SolidJsTransformer::new().transform_program(&program),
        Err(TransformError::Component(ComponentError::UnsupportedComponent {
            shape: UnsupportedShape::NamespacedName,
            name: ElementName::NamespacedName(s("svg"), s("rect")),
            start: 26,
            end: 43,
        }))
    );
}

#[test]
fn test_unsupported_member_tag_inside_element() {
    let inner = JsxElement {
        name: ElementName::MemberExpression(s("ui.Button")),
        attributes: vec![],
        children: vec![],
        has_closing: false,
        start: 0,
        end: 0,
    };
    let tree = el("div", vec![], vec![JsxChild::Element(inner)]);
    let mut jsx = JSXTransformer::new();
    assert_eq!(
        jsx.transform_jsx_element(&tree),
        Err(TransformError::Component(ComponentError::UnsupportedComponent {
            shape: UnsupportedShape::MemberExpression,
            name: ElementName::MemberExpression(s("ui.Button")),
            start: 0,
            end: 0,
        }))
    );
}

#[test]
fn test_spread_shapes_are_invalid() {
    let mut jsx = JSXTransformer::new();
    let a = el("div", vec![JsxAttribute::Spread(ident("props"))], vec![]);
    assert_eq!(jsx.transform_jsx_element(&a), Err(TransformError::InvalidJSX(InvalidShape::SpreadAttribute)));
    let b = el("div", vec![], vec![JsxChild::Spread(ident("items"))]);
    assert_eq!(jsx.transform_jsx_element(&b), Err(TransformError::InvalidJSX(InvalidShape::SpreadChild)));
}

#[test]
fn test_overlapping_ranges_are_refused() {
    let source = s("f(<a/>);\n");
    let leaf = || JsxElement { name: ElementName::Identifier(s("a")), attributes: vec![], children: vec![], has_closing: false, start: 0, end: 0 };
    let program = Program {
        source,
        body: vec![Statement::Expression(Expression::Call(vec![
            Expression::Element(leaf(), 2, 6),
            Expression::Element(leaf(), 4, 6),
        ]))],
    };
    assert_eq!(
        SolidJsTransformer::new().transform_program(&program),
        Err(TransformError::InvalidJSX(InvalidShape::SourceRange))
    );
}

#[test]
fn test_program_without_element_trees_is_unchanged() {
    let program = Program { source: s("let x = 1;\n"), body: vec![Statement::Other(vec![])] };
    assert_eq!(SolidJsTransformer::new().transform_program(&program).unwrap(), "let x = 1;\n");
}

#[test]
fn test_walk_reaches_nested_positions() {
    let source = s("render(() => (<i/>), root);\nx = <b/>;\n");
    let leaf = |t: &str| JsxElement { name: ElementName::Identifier(s(t)), attributes: vec![], children: vec![], has_closing: false, start: 0, end: 0 };
    let program = Program {
        source,
        body: vec![
            Statement::Expression(Expression::Call(vec![
                Expression::ArrowExpression(Box::new(Expression::Parenthesized(Box::new(
                    Expression::Element(leaf("i"), 14, 18),
                )))),
                Expression::Other(vec![]),
            ])),
            Statement::Expression(Expression::Assignment(Box::new(Expression::Element(leaf("b"), 32, 36)))),
        ],
    };
    let options = SolidTransformOptions { module_format: ModuleFormat::Cjs, ..Default::default() };
    let out = SolidJsTransformer::with_options(options).transform_program(&program).unwrap();
    assert_eq!(
        out,
        "const { template: _$template } = require(\"r-dom\");\n\
         var _tmpl$ = /*#__PURE__*/ _$template(`<i>`);\n\
         var _tmpl$2 = /*#__PURE__*/ _$template(`<b>`);\n\
         render(() => (_tmpl$()), root);\nx = _tmpl$2();\n"
    );
}

#[test]
fn test_nested_dynamic_content_is_refused() {
    let inner = el("p", vec![], vec![JsxChild::Expression(ident("x"))]);
    let tree = el("div", vec![], vec![JsxChild::Element(inner)]);
    let mut jsx = JSXTransformer::new();
    assert_eq!(
        jsx.transform_jsx_element(&tree),
        Err(TransformError::InvalidJSX(InvalidShape::NestedDynamicContent))
    );
    let inner = el("p", vec![attr_expr("title", ident("t"))], vec![]);
    let tree = el("div", vec![], vec![JsxChild::Element(inner)]);
    assert_eq!(
        JSXTransformer::new().transform_jsx_element(&tree),
        Err(TransformError::InvalidJSX(InvalidShape::NestedDynamicContent))
    );
}

#[test]
fn test_element_inside_attribute_expression_is_compiled() {
    let fallback = JsxExpression::Other(vec![CodePiece::Element(el("p", vec![], vec![text("Loading")]))]);
    let tree = comp("Suspense", vec![attr_expr("fallback", fallback)], vec![]);
    let mut jsx = JSXTransformer::new();
    assert_eq!(jsx.transform_jsx_element(&tree).unwrap(), "_$createComponent(Suspense, { fallback: _tmpl$() })");
    assert_eq!(jsx.template_html(0), "<p>Loading</p>");
}

#[test]
fn test_map_callback_in_child_is_compiled() {
    let items = JsxExpression::Other(vec![
        CodePiece::Text(s("items.map(i => ")),
        CodePiece::Element(el("li", vec![], vec![text("x")])),
        CodePiece::Text(s(")")),
    ]);
    let tree = el("ul", vec![], vec![JsxChild::Expression(items)]);
    let mut jsx = JSXTransformer::new();
    let code = jsx.transform_jsx_element(&tree).unwrap();
    assert_eq!(
        code,
        "(() => {\n  var _el$ = _tmpl$();\n  _$insert(_el$, items.map(i => _tmpl$2()), null);\n  return _el$;\n})()"
    );
    assert_eq!(jsx.template_html(0), "<ul></ul>");
    assert_eq!(jsx.template_html(1), "<li>x</li>");
}

#[test]
fn test_element_inside_other_program_expression() {
    let source = s("x = c ? <a/> : null;\n");
    let leaf = JsxElement { name: ElementName::Identifier(s("a")), attributes: vec![], children: vec![], has_closing: false, start: 0, end: 0 };
    let program = Program {
        source,
        body: vec![Statement::Expression(Expression::Assignment(Box::new(Expression::Other(vec![
            Expression::Element(leaf, 8, 12),
        ]))))],
    };
    let out = SolidJsTransformer::new().transform_program(&program).unwrap();
    assert!(out.ends_with("x = c ? _tmpl$() : null;\n"));
}

#[test]
fn test_class_list_binding_follows_name() {
    let tree = el("div", vec![attr_expr("classList", other("{ on: active() }"))], vec![]);
    let mut jsx = JSXTransformer::new();
    assert_eq!(
        jsx.transform_jsx_element(&tree).unwrap(),
        "(() => {\n  var _el$ = _tmpl$();\n  _$effect(_$p => _$classList(_el$, { on: active() }, _$p));\n  return _el$;\n})()"
    );
}

#[test]
fn test_event_bindings_in_wrapper() {
    let tree = el(
        "button",
        vec![attr_expr("onClick", ident("go")), attr_expr("onScroll", ident("moved"))],
        vec![text("Go")],
    );
    let mut jsx = JSXTransformer::new();
    assert_eq!(
        jsx.transform_jsx_element(&tree).unwrap(),
        "(() => {\n  var _el$ = _tmpl$();\n  _el$.$$click = go;\n  _el$.addEventListener(\"scroll\", moved);\n  return _el$;\n})()"
    );
    assert!(!jsx.imports().set_attribute);
    let mut direct = JSXTransformer::with_delegation(false);
    assert_eq!(
        direct.transform_jsx_element(&tree).unwrap(),
        "(() => {\n  var _el$ = _tmpl$();\n  _el$.addEventListener(\"click\", go);\n  _el$.addEventListener(\"scroll\", moved);\n  return _el$;\n})()"
    );
}

#[test]
fn test_delegation_option_reaches_program() {
    let tree = el("button", vec![attr_expr("onClick", ident("go"))], vec![]);
    let program = app_returning("<button onClick={go}></button>", tree);
    let options = DomExpressionsTransformOptions { delegation: false, ..Default::default() };
    let out = DomExpressionsTransform::new(options).transform_program(&program).unwrap();
    assert!(out.contains("_el$.addEventListener(\"click\", go);"));
}

#[test]
fn test_unsupported_tag_leaves_registry_unchanged() {
    // A `this` tag inside a conditional statement is reached and refused too
    let program = Program {
        source: s("if (c) { x = <this/>; }\n"),
        body: vec![Statement::Other(vec![Expression::Element(
            JsxElement { name: ElementName::ThisExpression, attributes: vec![], children: vec![], has_closing: false, start: 13, end: 20 },
            13,
            20,
        )])],
    };
    assert!(SolidJsTransformer::new().transform_program(&program).is_err());
    let tree = JsxElement { name: ElementName::ThisExpression, attributes: vec![], children: vec![], has_closing: false, start: 0, end: 0 };
    let mut jsx = JSXTransformer::new();
    assert!(jsx.transform_jsx_element(&tree).is_err());
    assert_eq!(jsx.template_count(), 0);
}
