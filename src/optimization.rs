//! Static analysis of element trees and template comparison.

use vstd::prelude::*;
use crate::ast::{AttributeValue, JsxAttribute, JsxChild, JsxElement, JsxExpression};
use crate::text::str_eq;
use crate::utils::{dynamic_attribute_count, dynamic_count, AstUtils};

verus! {

/// Which passes run.
pub struct OptimizationPass {
    pub eliminate_dead_code: bool,
    pub deduplicate_templates: bool,
    pub fold_constants: bool,
    pub remove_unused_imports: bool,
}

/// What the passes changed.
#[derive(Debug)]
pub struct OptimizationResult {
    pub dead_code_eliminated: usize,
    pub templates_deduplicated: usize,
    pub constants_folded: usize,
    pub imports_removed: usize,
}

impl Default for OptimizationResult {
    fn default() -> (r: Self)
        ensures
            r.dead_code_eliminated == 0,
            r.templates_deduplicated == 0,
            r.constants_folded == 0,
            r.imports_removed == 0,
    {
        OptimizationResult {
            dead_code_eliminated: 0,
            templates_deduplicated: 0,
            constants_folded: 0,
            imports_removed: 0,
        }
    }
}

/// The static and dynamic parts of the top level of one element.
#[derive(Debug)]
pub struct ContentAnalysis {
    /// Nothing in the whole tree is dynamic.
    pub is_static: bool,
    /// Expression containers among the direct children, empty ones included.
    pub dynamic_children: usize,
    pub static_attributes: usize,
    pub dynamic_attributes: usize,
}

/// How many of the first `k` children are expression containers, empty ones included.
pub open spec fn expression_child_count(cs: Seq<JsxChild>, k: nat) -> nat
    decreases k,
{
    if k == 0 || k > cs.len() {
        0
    } else {
        expression_child_count(cs, (k - 1) as nat) + if cs[k - 1] is Expression {
            1nat
        } else {
            0nat
        }
    }
}

impl OptimizationPass {
    pub fn new() -> (r: Self)
        ensures
            r.eliminate_dead_code,
            r.deduplicate_templates,
            r.fold_constants,
            r.remove_unused_imports,
    {
        OptimizationPass {
            eliminate_dead_code: true,
            deduplicate_templates: true,
            fold_constants: true,
            remove_unused_imports: true,
        }
    }

    /// Counts the static and dynamic parts of an element.
    pub fn analyze_jsx_content(&self, element: &JsxElement) -> (r: ContentAnalysis)
        ensures
            r.is_static == (dynamic_count(*element) == 0),
            r.dynamic_children == expression_child_count(element.children@, element.children@.len()),
            r.dynamic_attributes == dynamic_attribute_count(element.attributes@, element.attributes@.len()),
            r.static_attributes + r.dynamic_attributes == element.attributes@.len(),
    {
        let mut dynamic_attributes: usize = 0;
        let mut i: usize = 0;
        while i < element.attributes.len()
            invariant
                i <= element.attributes.len(),
                dynamic_attributes == dynamic_attribute_count(element.attributes@, i as nat),
                dynamic_attributes <= i,
            decreases element.attributes.len() - i,
        {
            match &element.attributes[i] {
                JsxAttribute::Spread(_) => {
                    dynamic_attributes = dynamic_attributes + 1;
                },
                JsxAttribute::Attribute(_, Some(AttributeValue::Expression(_))) => {
                    dynamic_attributes = dynamic_attributes + 1;
                },
                _ => {},
            }
            i = i + 1;
        }
        let mut dynamic_children: usize = 0;
        let mut j: usize = 0;
        while j < element.children.len()
            invariant
                j <= element.children.len(),
                dynamic_children == expression_child_count(element.children@, j as nat),
                dynamic_children <= j,
            decreases element.children.len() - j,
        {
            match &element.children[j] {
                JsxChild::Expression(_) => {
                    dynamic_children = dynamic_children + 1;
                },
                _ => {},
            }
            j = j + 1;
        }
        ContentAnalysis {
            is_static: !AstUtils::has_dynamic_content(element),
            dynamic_children,
            static_attributes: element.attributes.len() - dynamic_attributes,
            dynamic_attributes,
        }
    }

    /// Whether an expression is a literal, known before the program runs.
    pub fn is_constant_expression(&self, expr: &JsxExpression) -> (r: bool)
        ensures
            r == (*expr is StringLiteral || *expr is NumericLiteral),
    {
        match expr {
            JsxExpression::StringLiteral(_) => true,
            JsxExpression::NumericLiteral(_) => true,
            _ => false,
        }
    }
}

/// Template comparison.
pub struct TemplateOptimizer;

impl TemplateOptimizer {
    /// The template HTML to declare; the extractor already emits it in its final form.
    pub fn optimize_template_string(template: &str) -> (r: String)
        ensures
            r@ == template@,
    {
        String::from_str(template)
    }

    /// Two templates can share one declaration when their HTML is identical.
    pub fn can_merge_templates(template1: &str, template2: &str) -> (r: bool)
        ensures
            r == (template1@ == template2@),
    {
        str_eq(template1, template2)
    }
}

} // verus!
