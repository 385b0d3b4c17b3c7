//! Properties of the compiler that relate several calls or hold for all inputs.

use vstd::prelude::*;
use crate::ast::{AttributeValue, CodePiece, JsxAttribute, JsxChild, JsxElement, JsxExpression, Program};
use crate::components::{category, unsupported_error, NodeCategory};
use crate::jsx::{
    attributes_part, children_part, expression_spec, pieces_part, props_part, compile_spec, component_children, extract_spec, lower_spec,
    template_name, CompileState, AttributeSpec,
    TransformError,
};
use crate::program::{lemma_stmts_err, rewrite_spec, walk_stmt, walk_stmts, initial_state, ModuleFormat};
use crate::text::{decimal, digit_char};
use crate::utils::attribute_is_dynamic;

verus! {

/// An element tree with no dynamic attribute, no spread and no embedded expression: plain
/// elements and text all the way down.
pub open spec fn is_static_tree(e: JsxElement) -> bool
    decreases e,
{
    &&& category(e.name) is PlainElement
    &&& forall|i: int|
        0 <= i < e.attributes@.len() ==> !attribute_is_dynamic(#[trigger] e.attributes@[i])
    &&& forall|i: int|
        #![trigger e.children@[i]]
        0 <= i < e.children@.len() ==> match e.children@[i] {
            JsxChild::Text(_) => true,
            JsxChild::Element(c) => is_static_tree(c),
            _ => false,
        }
}

proof fn lemma_static_attributes(
    attrs: Seq<JsxAttribute>,
    k: nat,
    st: CompileState,
    other: CompileState,
)
    requires
        k <= attrs.len(),
        forall|i: int| 0 <= i < attrs.len() ==> !attribute_is_dynamic(#[trigger] attrs[i]),
    ensures
        attributes_part(attrs, k, st) matches Ok((_, d, st1)) && d == Seq::<AttributeSpec>::empty()
            && st1 == st,
        attributes_part(attrs, k, other) matches Ok((_, d, st1)) && d
            == Seq::<AttributeSpec>::empty() && st1 == other,
        attributes_part(attrs, k, st)->Ok_0.0 == attributes_part(attrs, k, other)->Ok_0.0,
    decreases k,
{
    if k > 0 {
        lemma_static_attributes(attrs, (k - 1) as nat, st, other);
        assert(!attribute_is_dynamic(attrs[k - 1]));
    }
}

proof fn lemma_static_extract(e: JsxElement, st: CompileState, other: CompileState)
    requires
        is_static_tree(e),
    ensures
        extract_spec(e, st) matches Ok((info, st1)) && info.dynamic_attributes.len() == 0
            && info.text_insertions.len() == 0 && st1 == st,
        extract_spec(e, other) is Ok,
        extract_spec(e, st)->Ok_0.0.html == extract_spec(e, other)->Ok_0.0.html,
    decreases e, 1nat,
{
    lemma_static_attributes(e.attributes@, e.attributes@.len(), st, other);
    lemma_static_children(e, e.children@, e.children@.len(), st, other);
}

proof fn lemma_static_children(
    e: JsxElement,
    cs: Seq<JsxChild>,
    k: nat,
    st: CompileState,
    other: CompileState,
)
    requires
        is_static_tree(e),
        cs == e.children@,
        k <= cs.len(),
    ensures
        children_part(cs, k, st) matches Ok((_, ins, st1)) && ins.len() == 0 && st1 == st,
        children_part(cs, k, other) matches Ok((_, ins, st1)) && ins.len() == 0 && st1 == other,
        children_part(cs, k, st)->Ok_0.0 == children_part(cs, k, other)->Ok_0.0,
    decreases e, 0nat, k,
{
    if k > 0 {
        lemma_static_children(e, cs, (k - 1) as nat, st, other);
        let st1 = children_part(cs, (k - 1) as nat, st)->Ok_0.2;
        let o1 = children_part(cs, (k - 1) as nat, other)->Ok_0.2;
        assert(match cs[k - 1] {
            JsxChild::Text(_) => true,
            JsxChild::Element(c) => is_static_tree(c),
            _ => false,
        });
        match cs[k - 1] {
            JsxChild::Element(c) => {
                lemma_static_extract(c, st1, o1);
                lemma_static_extract(c, o1, st1);
            },
            _ => {},
        }
    }
}

/// The static path: an element tree with no dynamic attribute and no embedded expression
/// compiles to the bare call of its own newly registered template, with no activation
/// wrapper.
pub proof fn lemma_static_tree_bare_call(e: JsxElement, st: CompileState)
    requires
        is_static_tree(e),
    ensures
        compile_spec(e, st) matches Ok((code, st1)) && code == template_name(
            st.templates.len() + 1,
        ) + "()"@ && st1.templates.len() == st.templates.len() + 1,
{
    let reserved = CompileState {
        templates: st.templates.push(Seq::empty()),
        imports: st.imports,
        delegation: st.delegation,
    };
    lemma_static_extract(e, reserved, reserved);
}

proof fn lemma_digit_char_injective(a: nat, b: nat)
    requires
        a < 10,
        b < 10,
        digit_char(a) == digit_char(b),
    ensures
        a == b,
{
}

proof fn lemma_decimal_len(n: nat)
    ensures
        decimal(n).len() >= 1,
        n >= 10 ==> decimal(n).len() >= 2,
    decreases n,
{
    if n >= 10 {
        lemma_decimal_len(n / 10);
    }
}

proof fn lemma_decimal_injective(a: nat, b: nat)
    requires
        decimal(a) == decimal(b),
    ensures
        a == b,
    decreases a,
{
    lemma_decimal_len(a);
    lemma_decimal_len(b);
    if a < 10 && b < 10 {
        assert(decimal(a)[0] == digit_char(a));
        assert(decimal(b)[0] == digit_char(b));
        lemma_digit_char_injective(a, b);
    } else if a >= 10 && b >= 10 {
        let da = decimal(a);
        let db = decimal(b);
        assert(da.last() == digit_char(a % 10));
        assert(db.last() == digit_char(b % 10));
        lemma_digit_char_injective(a % 10, b % 10);
        assert(da.drop_last() =~= decimal(a / 10));
        assert(db.drop_last() =~= decimal(b / 10));
        lemma_decimal_injective(a / 10, b / 10);
    }
}

/// Template identifiers: the first is the bare `_tmpl$`, the `k`-th for `k >= 2` is `_tmpl$`
/// followed by `k`, and no two positions share an identifier, so none is ever reused.
pub proof fn lemma_template_names(j: nat, k: nat)
    requires
        1 <= j < k,
    ensures
        template_name(1) == "_tmpl$"@,
        template_name(k) == "_tmpl$"@ + decimal(k),
        template_name(j) != template_name(k),
{
    reveal_strlit("_tmpl$");
    lemma_decimal_len(k);
    if j >= 2 && template_name(j) == template_name(k) {
        assert(template_name(j).subrange(6, template_name(j).len() as int) =~= decimal(j));
        assert(template_name(k).subrange(6, template_name(k).len() as int) =~= decimal(k));
        lemma_decimal_injective(j, k);
    }
}

/// Compiling never removes a template from the registry.
pub proof fn lemma_compile_grows(e: JsxElement, st: CompileState)
    ensures
        compile_spec(e, st) matches Ok((_, st1)) ==> st1.templates.len() >= st.templates.len() + if category(
            e.name,
        ) is PlainElement {
            1int
        } else {
            0int
        },
    decreases e, 2nat,
{
    match category(e.name) {
        NodeCategory::PlainElement => {
            let reserved = CompileState {
        templates: st.templates.push(Seq::empty()),
        imports: st.imports,
        delegation: st.delegation,
    };
            lemma_extract_grows(e, reserved);
        },
        NodeCategory::Unsupported(_) => {},
        _ => {
            lemma_lower_grows(e, st);
        },
    }
}

proof fn lemma_extract_grows(e: JsxElement, st: CompileState)
    ensures
        extract_spec(e, st) matches Ok((_, st1)) ==> st1.templates.len() >= st.templates.len(),
    decreases e, 1nat,
{
    lemma_attributes_grows(e.attributes@, e.attributes@.len(), st);
    if let Ok((_, _, st1)) = attributes_part(e.attributes@, e.attributes@.len(), st) {
        lemma_children_grows(e.children@, e.children@.len(), st1);
    }
}

proof fn lemma_lower_grows(e: JsxElement, st: CompileState)
    ensures
        lower_spec(e, st) matches Ok((_, st1)) ==> st1.templates.len() >= st.templates.len(),
    decreases e, 1nat,
{
    lemma_props_grows(e.attributes@, e.attributes@.len(), st);
    if let Ok((_, st1)) = props_part(e.attributes@, e.attributes@.len(), st) {
        lemma_component_children_grows(e.children@, e.children@.len(), st1);
    }
}

proof fn lemma_expression_grows(x: JsxExpression, st: CompileState)
    ensures
        expression_spec(x, st) matches Ok((_, st1)) ==> st1.templates.len() >= st.templates.len(),
    decreases x, 0nat,
{
    if let JsxExpression::Other(ps) = x {
        lemma_pieces_grows(ps@, ps@.len(), st);
    }
}

proof fn lemma_pieces_grows(ps: Seq<CodePiece>, k: nat, st: CompileState)
    ensures
        pieces_part(ps, k, st) matches Ok((_, st1)) ==> st1.templates.len() >= st.templates.len(),
    decreases ps, k,
{
    if k > 0 && k <= ps.len() {
        lemma_pieces_grows(ps, (k - 1) as nat, st);
        if let Ok((_, st1)) = pieces_part(ps, (k - 1) as nat, st) {
            if let CodePiece::Element(el) = ps[k - 1] {
                lemma_compile_grows(el, st1);
            }
        }
    }
}

proof fn lemma_attributes_grows(attrs: Seq<JsxAttribute>, k: nat, st: CompileState)
    ensures
        attributes_part(attrs, k, st) matches Ok((_, _, st1)) ==> st1.templates.len()
            >= st.templates.len(),
    decreases attrs, k,
{
    if k > 0 && k <= attrs.len() {
        lemma_attributes_grows(attrs, (k - 1) as nat, st);
        if let Ok((_, _, st1)) = attributes_part(attrs, (k - 1) as nat, st) {
            if let JsxAttribute::Attribute(_, Some(AttributeValue::Expression(x))) = attrs[k - 1] {
                lemma_expression_grows(x, st1);
            }
        }
    }
}

proof fn lemma_props_grows(attrs: Seq<JsxAttribute>, k: nat, st: CompileState)
    ensures
        props_part(attrs, k, st) matches Ok((_, st1)) ==> st1.templates.len() >= st.templates.len(),
    decreases attrs, k,
{
    if k > 0 && k <= attrs.len() {
        lemma_props_grows(attrs, (k - 1) as nat, st);
        if let Ok((_, st1)) = props_part(attrs, (k - 1) as nat, st) {
            match attrs[k - 1] {
                JsxAttribute::Spread(x) => {
                    lemma_expression_grows(x, st1);
                },
                JsxAttribute::Attribute(_, Some(AttributeValue::Expression(x))) => {
                    lemma_expression_grows(x, st1);
                },
                _ => {},
            }
        }
    }
}

proof fn lemma_children_grows(cs: Seq<JsxChild>, k: nat, st: CompileState)
    ensures
        children_part(cs, k, st) matches Ok((_, _, st1)) ==> st1.templates.len()
            >= st.templates.len(),
    decreases cs, k,
{
    if k > 0 && k <= cs.len() {
        lemma_children_grows(cs, (k - 1) as nat, st);
        if let Ok((_, _, st1)) = children_part(cs, (k - 1) as nat, st) {
            match cs[k - 1] {
                JsxChild::Element(c) => {
                    lemma_extract_grows(c, st1);
                    lemma_lower_grows(c, st1);
                },
                JsxChild::Expression(x) => {
                    lemma_expression_grows(x, st1);
                },
                _ => {},
            }
        }
    }
}

proof fn lemma_component_children_grows(cs: Seq<JsxChild>, k: nat, st: CompileState)
    ensures
        component_children(cs, k, st) matches Ok((_, st1)) ==> st1.templates.len()
            >= st.templates.len(),
    decreases cs, k,
{
    if k > 0 && k <= cs.len() {
        lemma_component_children_grows(cs, (k - 1) as nat, st);
        if let Ok((_, st1)) = component_children(cs, (k - 1) as nat, st) {
            match cs[k - 1] {
                JsxChild::Element(c) => {
                    lemma_compile_grows(c, st1);
                },
                JsxChild::Expression(x) => {
                    lemma_expression_grows(x, st1);
                },
                _ => {},
            }
        }
    }
}

/// Identifiers go up: of two plain elements compiled one after the other in one unit, the
/// second gets a later registry position than the first, hence another identifier.
pub proof fn lemma_successive_identifiers_increase(e1: JsxElement, e2: JsxElement, st: CompileState)
    requires
        category(e1.name) is PlainElement,
        category(e2.name) is PlainElement,
    ensures
        compile_spec(e1, st) matches Ok((_, st1)) ==> st1.templates.len() + 1 > st.templates.len()
            + 1 && template_name(st.templates.len() + 1) != template_name(st1.templates.len() + 1)
            && (compile_spec(e2, st1) matches Ok((_, st2)) ==> st2.templates.len()
            > st1.templates.len()),
{
    lemma_compile_grows(e1, st);
    if let Ok((_, st1)) = compile_spec(e1, st) {
        lemma_template_names(st.templates.len() + 1, st1.templates.len() + 1);
        lemma_compile_grows(e2, st1);
    }
}

/// No deduplication: two structurally identical static trees compiled one after the other in
/// the same unit each get their own identifier, so their calls differ, and the two
/// registrations, in first-seen order, hold the same HTML.
pub proof fn lemma_identical_trees_distinct_identifiers(e: JsxElement, st: CompileState)
    requires
        is_static_tree(e),
    ensures
        compile_spec(e, st) matches Ok((code1, st1)) && compile_spec(e, st1) matches Ok((code2, st2))
            && code1 == template_name(st.templates.len() + 1) + "()"@ && code2 == template_name(
            st.templates.len() + 2,
        ) + "()"@ && code1 != code2 && st2.templates.len() == st.templates.len() + 2
            && st2.templates[st.templates.len() as int] == st2.templates[st.templates.len() + 1int],
{
    lemma_static_tree_bare_call(e, st);
    let st1 = compile_spec(e, st)->Ok_0.1;
    lemma_static_tree_bare_call(e, st1);
    let n = st.templates.len();
    let r1 = CompileState {
        templates: st.templates.push(Seq::empty()),
        imports: st.imports,
        delegation: st.delegation,
    };
    let r2 = CompileState {
        templates: st1.templates.push(Seq::empty()),
        imports: st1.imports,
        delegation: st1.delegation,
    };
    lemma_static_extract(e, r1, r2);
    lemma_static_extract(e, r2, r1);
    lemma_template_names(n + 1, n + 2);
    let c1 = template_name(n + 1) + "()"@;
    let c2 = template_name(n + 2) + "()"@;
    if c1 == c2 {
        reveal_strlit("()");
        assert(c1.subrange(0, c1.len() - 2) =~= template_name(n + 1));
        assert(c2.subrange(0, c2.len() - 2) =~= template_name(n + 2));
    }
}

/// An element tree whose tag name has an unsupported shape fails with
/// `UnsupportedComponent` naming the tag and its source range, whatever its attributes and
/// children.
pub proof fn lemma_unsupported_shape_fails(e: JsxElement, st: CompileState)
    requires
        category(e.name) is Unsupported,
    ensures
        compile_spec(e, st) == Err::<(Seq<char>, CompileState), TransformError>(
            TransformError::Component(unsupported_error(e, category(e.name)->Unsupported_0)),
        ),
{
}

/// A statement whose compilation fails makes the whole program fail with the same error:
/// no partly rewritten text comes out.
pub proof fn lemma_failed_statement_fails_program(
    program: Program,
    i: int,
    format: ModuleFormat,
    delegation: bool,
)
    requires
        0 <= i < program.body@.len(),
        walk_stmts(program.body@, i as nat, Seq::empty(), initial_state(delegation)) matches Ok((reps, st))
            && walk_stmt(program.body@[i], reps, st) is Err,
    ensures
        rewrite_spec(program, format, delegation) is Err,
        rewrite_spec(program, format, delegation)->Err_0 == walk_stmt(
            program.body@[i],
            walk_stmts(program.body@, i as nat, Seq::empty(), initial_state(delegation))->Ok_0.0,
            walk_stmts(program.body@, i as nat, Seq::empty(), initial_state(delegation))->Ok_0.1,
        )->Err_0,
{
    lemma_stmts_err(program.body@, (i + 1) as nat, program.body@.len(), Seq::empty(), initial_state(delegation));
}

/// Whatever statement fails first, at any depth inside it, the program fails with that
/// error: no partly rewritten text comes out.
pub proof fn lemma_first_failure_fails_program(
    program: Program,
    k: nat,
    format: ModuleFormat,
    delegation: bool,
)
    requires
        k <= program.body@.len(),
        walk_stmts(program.body@, k, Seq::empty(), initial_state(delegation)) is Err,
    ensures
        rewrite_spec(program, format, delegation) == Err::<Seq<char>, TransformError>(
            walk_stmts(program.body@, k, Seq::empty(), initial_state(delegation))->Err_0,
        ),
{
    lemma_stmts_err(program.body@, k, program.body@.len(), Seq::empty(), initial_state(delegation));
}

} // verus!
