use oxc_transform_jsx_dom_expressions::ast::{
    CodePiece,
    AttributeName, AttributeValue, ElementName, JsxAttribute, JsxChild, JsxElement, JsxExpression,
};
use oxc_transform_jsx_dom_expressions::jsx::{
    generate_dynamic_wrapper, make_dynamic_attribute, JSXTransformer,
};
use oxc_transform_jsx_dom_expressions::optimization::{OptimizationPass, OptimizationResult, TemplateOptimizer};
use oxc_transform_jsx_dom_expressions::utils::{AstUtils, TemplateGenerator};
use oxc_transform_jsx_dom_expressions::text::trim_str;

fn s(x: &str) -> String {
    x.to_string()
}

fn other(text: &str) -> JsxExpression {
    JsxExpression::Other(vec![CodePiece::Text(text.to_string())])
}

fn sample() -> JsxElement {
    JsxElement {
        name: ElementName::Identifier(s("div")),
        attributes: vec![
            JsxAttribute::Attribute(AttributeName::Identifier(s("id")), Some(AttributeValue::StringLiteral(s("a")))),
            JsxAttribute::Attribute(
                AttributeName::Identifier(s("title")),
                Some(AttributeValue::Expression(JsxExpression::Identifier(s("t")))),
            ),
        ],
        children: vec![
            JsxChild::Text(s("x")),
            JsxChild::Expression(JsxExpression::Identifier(s("y"))),
            JsxChild::Element(JsxElement {
                name: ElementName::Identifier(s("span")),
                attributes: vec![JsxAttribute::Spread(JsxExpression::Identifier(s("p")))],
                children: vec![],
                has_closing: false,
                start: 0,
                end: 0,
            }),
        ],
        has_closing: true,
        start: 0,
        end: 0,
    }
}

#[test]
fn test_optimization_pass_creation() {
    let optimizer = OptimizationPass::new();
    assert!(optimizer.eliminate_dead_code);
    assert!(optimizer.deduplicate_templates);
    assert!(optimizer.fold_constants);
    assert!(optimizer.remove_unused_imports);
}

#[test]
fn test_optimization_result_default() {
    let result = OptimizationResult::default();
    assert_eq!(result.dead_code_eliminated, 0);
    assert_eq!(result.templates_deduplicated, 0);
    assert_eq!(result.constants_folded, 0);
    assert_eq!(result.imports_removed, 0);
}

#[test]
fn test_template_optimizer() {
    let template = "<div>test</div>";
    let optimized = TemplateOptimizer::optimize_template_string(template);
    assert!(optimized.is_empty() || !optimized.is_empty());
    assert_eq!(optimized, template);
    assert!(TemplateOptimizer::can_merge_templates("<b>x</b>", "<b>x</b>"));
    assert!(!TemplateOptimizer::can_merge_templates("<b>x</b>", "<b>y</b>"));
}

#[test]
fn test_content_analysis() {
    let pass = OptimizationPass::new();
    let a = pass.analyze_jsx_content(&sample());
    assert!(!a.is_static);
    assert_eq!(a.dynamic_children, 1);
    assert_eq!(a.static_attributes, 1);
    assert_eq!(a.dynamic_attributes, 1);
    assert!(pass.is_constant_expression(&JsxExpression::NumericLiteral(s("1"))));
    assert!(!pass.is_constant_expression(&JsxExpression::Identifier(s("x"))));
}

#[test]
fn ast_utils_test_ast_utils() {
    let e = sample();
    assert!(AstUtils::has_dynamic_content(&e));
    assert_eq!(AstUtils::count_dynamic_expressions(&e), 3);
}

#[test]
fn ast_utils_new_test_ast_utils() {
    let e = sample();
    assert_eq!(AstUtils::get_element_name(&e), Some(s("div")));
    let ns = JsxElement {
        name: ElementName::NamespacedName(s("svg"), s("g")),
        attributes: vec![],
        children: vec![JsxChild::Text(s("plain"))],
        has_closing: false,
        start: 0,
        end: 0,
    };
    assert_eq!(AstUtils::get_element_name(&ns), Some(s("svg:g")));
    assert!(AstUtils::is_self_closing(&ns));
    assert!(!AstUtils::is_self_closing(&e));
    assert!(!AstUtils::has_dynamic_content(&ns));
    let note = JsxElement {
        name: ElementName::Identifier(s("div")),
        attributes: vec![],
        children: vec![JsxChild::Expression(JsxExpression::Empty)],
        has_closing: true,
        start: 0,
        end: 0,
    };
    assert!(AstUtils::has_dynamic_content(&note));
    assert_eq!(AstUtils::count_dynamic_expressions(&note), 1);
}

#[test]
fn test_template_generator() {
    let mut generator = TemplateGenerator::new();
    assert_eq!(generator.get_next_template_name(), "_tmpl$");
    assert_eq!(generator.get_next_template_name(), "_tmpl$2");
}

#[test]
fn test_escape_template_string() {
    assert_eq!(TemplateGenerator::escape_template_string("hello \"world\""), "hello \\\"world\\\"");
    assert_eq!(TemplateGenerator::escape_template_string("line1\nline2"), "line1\\nline2");
    assert_eq!(TemplateGenerator::escape_template_string("a\\b\tc\r"), "a\\\\b\\tc\\r");
}

#[test]
fn jsx_test_jsx_transformer_creation() {
    let transformer = JSXTransformer::new();
    assert_eq!(transformer.template_count(), 0);
}

#[test]
fn jsx_new_test_template_counter_increment() {
    let mut transformer = JSXTransformer::new();
    assert_eq!(transformer.get_next_template_name(), "_tmpl$");
    assert_eq!(transformer.get_next_template_name(), "_tmpl$2");
}

#[test]
fn mod_test_template_name_generation() {
    assert_eq!(JSXTransformer::template_name_at(0), "_tmpl$");
    assert_eq!(JSXTransformer::template_name_at(1), "_tmpl$2");
    assert_eq!(JSXTransformer::template_name_at(11), "_tmpl$12");
}

#[test]
fn test_template_generation_basic() {
    let transformer = JSXTransformer::new();
    assert_eq!(transformer.template_count(), 0);
    let imports = transformer.imports();
    assert!(!imports.insert && !imports.set_attribute);
}

#[test]
fn test_generate_dynamic_wrapper_attributes_only() {
    let attrs = vec![make_dynamic_attribute(s("href"), s("url"))];
    assert_eq!(
        generate_dynamic_wrapper("_tmpl$4", &attrs, true),
        "(() => {\n  var _el$ = _tmpl$4();\n  _$setAttribute(_el$, \"href\", url);\n  return _el$;\n})()"
    );
    assert_eq!(generate_dynamic_wrapper("_tmpl$4", &vec![], true), "_tmpl$4()");
}

#[test]
fn test_dynamic_attribute_kinds() {
    let a = make_dynamic_attribute(s("style"), s("{ color: c }"));
    assert!(a.is_style_object && !a.is_class_list && !a.requires_effect);
    let b = make_dynamic_attribute(s("style"), s("styles()"));
    assert!(!b.is_style_object && b.requires_effect);
    let c = make_dynamic_attribute(s("classList"), s("{ a: b }"));
    assert!(c.is_class_list && !c.is_style_object);
}

#[test]
fn test_stringify_expression() {
    let mut jsx = JSXTransformer::new();
    assert_eq!(jsx.stringify_expression(&JsxExpression::Identifier(s("name"))).unwrap(), "name");
    assert_eq!(jsx.stringify_expression(&JsxExpression::NumericLiteral(s("0x1F"))).unwrap(), "0x1F");
    assert_eq!(jsx.stringify_expression(&JsxExpression::StringLiteral(s("a"))).unwrap(), "\"a\"");
    assert_eq!(jsx.stringify_expression(&other("a + b(c)")).unwrap(), "a + b(c)");
    assert_eq!(jsx.template_count(), 0);
}

#[test]
fn test_trim() {
    assert_eq!(trim_str("  a b \n"), "a b");
    assert_eq!(trim_str("\u{3000}x\u{A0}"), "x");
    assert_eq!(trim_str("   "), "");
}
