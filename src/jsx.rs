//! Template extraction, the template registry, binding generation and the
//! lowering of components, over the element trees of `crate::ast`.

use vstd::prelude::*;
use crate::ast::{AttributeName, AttributeValue, CodePiece, ElementName, JsxAttribute, JsxChild, JsxElement, JsxExpression};
use crate::components::{
    category, check_component, classify, component_check, unsupported, unsupported_error,
    ComponentError, NodeCategory,
};
use crate::events::{
    event_name_of, is_delegated_name, is_event_attribute_spec, is_lifecycle_name, EventTransformer,
};
use crate::text::{
    append_decimal, append_escaped, contains_char, decimal, escape, is_ws,
    starts_with_char, str_eq, trim, trim_str,
};

verus! {

/// A dynamic attribute: one whose value is an embedded expression.
#[derive(Debug, Clone)]
pub struct DynamicAttribute {
    pub name: String,
    pub expression: String,
    /// `style` given an object literal.
    pub is_style_object: bool,
    /// `classList`.
    pub is_class_list: bool,
    /// The expression looks like a call, so the write is wrapped in an effect.
    pub requires_effect: bool,
}

/// Where a text insertion goes among the children of the template root.
#[derive(Debug, Clone)]
pub enum InsertionPosition {
    /// Before the node that this runtime reference names.
    BeforeNode(String),
    /// After the node that this runtime reference names.
    AfterNode(String),
    /// After the last child.
    AtEnd,
}

/// An embedded expression among an element's children.
#[derive(Debug, Clone)]
pub struct TextInsertion {
    pub expression: String,
    pub position: InsertionPosition,
}

/// The static HTML of an element tree and the dynamic parts that patch it.
#[derive(Debug, Clone)]
pub struct TemplateInfo {
    pub html: String,
    pub dynamic_attributes: Vec<DynamicAttribute>,
    pub text_insertions: Vec<TextInsertion>,
    pub has_dynamic_content: bool,
}

/// The runtime helpers that generated code refers to, besides the template constructor.
#[derive(Clone, Copy, Debug, PartialEq, Eq, Structural)]
pub struct RequiredImports {
    pub set_attribute: bool,
    pub effect: bool,
    pub style: bool,
    pub class_list: bool,
    pub insert: bool,
    pub create_component: bool,
}

/// Malformed shapes inside an element tree.
#[derive(Clone, Copy, Debug, PartialEq, Eq, Structural)]
pub enum InvalidShape {
    /// `{...props}` on a plain element.
    SpreadAttribute,
    /// `{...items}` among children.
    SpreadChild,
    /// A nested plain element with dynamic attributes or insertions of its own: bindings
    /// always target the template root, so they would have no node to act on.
    NestedDynamicContent,
    /// The host gave source ranges for element trees that overlap or leave the source.
    SourceRange,
}

/// Why an element tree could not be compiled; any of them aborts the compilation unit.
#[derive(Debug, PartialEq)]
pub enum TransformError {
    Component(ComponentError),
    InvalidJSX(InvalidShape),
}

/// A dynamic attribute as the contracts see it.
pub struct AttributeSpec {
    pub name: Seq<char>,
    pub expression: Seq<char>,
    pub is_style_object: bool,
    pub is_class_list: bool,
    pub requires_effect: bool,
}

/// An insertion position as the contracts see it.
pub enum PositionSpec {
    BeforeNode(Seq<char>),
    AfterNode(Seq<char>),
    AtEnd,
}

/// A text insertion as the contracts see it.
pub struct InsertionSpec {
    pub expression: Seq<char>,
    pub position: PositionSpec,
}

/// A template as the contracts see it.
pub struct TemplateSpec {
    pub html: Seq<char>,
    pub dynamic_attributes: Seq<AttributeSpec>,
    pub text_insertions: Seq<InsertionSpec>,
}

/// The registry and the import set, as one compilation unit has them so far.
pub struct CompileState {
    /// The HTML of each registered template, in registration order.
    pub templates: Seq<Seq<char>>,
    pub imports: RequiredImports,
    /// Whether delegated DOM events are bound through the shared dispatcher.
    pub delegation: bool,
}

impl View for DynamicAttribute {
    type V = AttributeSpec;

    open spec fn view(&self) -> AttributeSpec {
        AttributeSpec {
            name: self.name@,
            expression: self.expression@,
            is_style_object: self.is_style_object,
            is_class_list: self.is_class_list,
            requires_effect: self.requires_effect,
        }
    }
}

impl View for InsertionPosition {
    type V = PositionSpec;

    open spec fn view(&self) -> PositionSpec {
        match self {
            InsertionPosition::BeforeNode(r) => PositionSpec::BeforeNode(r@),
            InsertionPosition::AfterNode(r) => PositionSpec::AfterNode(r@),
            InsertionPosition::AtEnd => PositionSpec::AtEnd,
        }
    }
}

impl View for TextInsertion {
    type V = InsertionSpec;

    open spec fn view(&self) -> InsertionSpec {
        InsertionSpec { expression: self.expression@, position: self.position@ }
    }
}

impl View for TemplateInfo {
    type V = TemplateSpec;

    open spec fn view(&self) -> TemplateSpec {
        TemplateSpec {
            html: self.html@,
            dynamic_attributes: self.dynamic_attributes@.map_values(|a: DynamicAttribute| a@),
            text_insertions: self.text_insertions@.map_values(|t: TextInsertion| t@),
        }
    }
}

impl TemplateInfo {
    /// `has_dynamic_content` agrees with the dynamic parts.
    pub open spec fn wf(&self) -> bool {
        self.has_dynamic_content == (self.dynamic_attributes.len() > 0
            || self.text_insertions.len() > 0)
    }
}

/// The expression text looks like a call: it holds an opening and a closing parenthesis.
pub open spec fn needs_effect(expression: Seq<char>) -> bool {
    expression.contains('(') && expression.contains(')')
}

/// The dynamic attribute recorded for `name={expression}`.
pub open spec fn dynamic_attribute(name: Seq<char>, expression: Seq<char>) -> AttributeSpec {
    AttributeSpec {
        name,
        expression,
        is_style_object: name == "style"@ && expression.len() > 0 && expression[0] == '{',
        is_class_list: name == "classList"@,
        requires_effect: needs_effect(expression),
    }
}

/// The source text that an embedded expression without element trees is re-emitted as.
pub open spec fn expression_text(e: JsxExpression) -> Seq<char> {
    match e {
        JsxExpression::Identifier(n) => n@,
        JsxExpression::StringLiteral(v) => seq!['"'] + escape(v@) + seq!['"'],
        JsxExpression::NumericLiteral(raw) => raw@,
        _ => Seq::empty(),
    }
}

/// The text an embedded expression is re-emitted as, with every element tree inside it
/// compiled in place, and the state after those compilations.
pub open spec fn expression_spec(e: JsxExpression, st: CompileState) -> Result<
    (Seq<char>, CompileState),
    TransformError,
>
    decreases e, 0nat,
{
    match e {
        JsxExpression::Other(pieces) => pieces_part(pieces@, pieces@.len(), st),
        _ => Ok((expression_text(e), st)),
    }
}

/// The text of the first `k` pieces, element trees compiled.
pub open spec fn pieces_part(ps: Seq<CodePiece>, k: nat, st: CompileState) -> Result<
    (Seq<char>, CompileState),
    TransformError,
>
    decreases ps, k,
{
    if k == 0 || k > ps.len() {
        Ok((Seq::empty(), st))
    } else {
        match pieces_part(ps, (k - 1) as nat, st) {
            Err(x) => Err(x),
            Ok((text, st1)) => match ps[k - 1] {
                CodePiece::Text(t) => Ok((text + t@, st1)),
                CodePiece::Element(el) => match compile_spec(el, st1) {
                    Err(x) => Err(x),
                    Ok((code, st2)) => Ok((text + code, st2)),
                },
            },
        }
    }
}

/// The written name of an attribute.
pub open spec fn attribute_name_text(n: AttributeName) -> Seq<char> {
    match n {
        AttributeName::Identifier(s) => s@,
        AttributeName::NamespacedName(a, b) => a@ + seq![':'] + b@,
    }
}

/// A static attribute value is quoted when it is empty or holds whitespace or a quote character.
pub open spec fn needs_quotes(v: Seq<char>) -> bool {
    v.len() == 0 || v.contains('"') || v.contains('\'') || exists|i: int|
        0 <= i < v.len() && is_ws(#[trigger] v[i])
}

/// The HTML of a static attribute value.
pub open spec fn quoted_value(v: Seq<char>) -> Seq<char> {
    if needs_quotes(v) {
        seq!['"'] + v + seq!['"']
    } else {
        v
    }
}

/// The identifier of the `k`-th registered template, counting from one.
pub open spec fn template_name(k: nat) -> Seq<char> {
    if k <= 1 {
        "_tmpl$"@
    } else {
        "_tmpl$"@ + decimal(k)
    }
}

/// The runtime call line for one text insertion.
pub open spec fn insertion_line(t: InsertionSpec) -> Seq<char> {
    match t.position {
        PositionSpec::AtEnd => "  _$insert(_el$, "@ + t.expression + ", null);\n"@,
        PositionSpec::BeforeNode(r) => "  _$insert(_el$, "@ + t.expression + ", "@ + r + ");\n"@,
        PositionSpec::AfterNode(r) => "  _$insert(_el$, "@ + t.expression + ", "@ + r
            + ".nextSibling);\n"@,
    }
}

/// How an attribute binds, decided by its name and expression text alone: `style` with an
/// object literal, `classList`, or a generic attribute, each under an effect when the
/// expression looks like a call.
pub open spec fn binding_kind(a: AttributeSpec) -> AttributeSpec {
    dynamic_attribute(a.name, a.expression)
}

/// An `on<Event>` attribute that is no lifecycle hook: it binds an event handler.
pub open spec fn is_event_binding(name: Seq<char>) -> bool {
    is_event_attribute_spec(name) && !is_lifecycle_name(name)
}

/// The line that binds an event handler: through the shared dispatcher when delegation is on
/// and the event is one of the delegated ones, else directly on the root.
pub open spec fn event_line(a: AttributeSpec, delegation: bool) -> Seq<char> {
    let event = event_name_of(a.name);
    if delegation && is_delegated_name(event) {
        "  "@ + ("_el$.$$"@ + event + " = "@ + a.expression + ";"@) + "\n"@
    } else {
        "  "@ + ("_el$.addEventListener(\""@ + event + "\", "@ + a.expression + ");"@) + "\n"@
    }
}

/// The runtime call line for one dynamic attribute: an event binding for an `on<Event>`
/// name, else the binding that `binding_kind` picks.
pub open spec fn attribute_line(attr: AttributeSpec, delegation: bool) -> Seq<char> {
    let a = binding_kind(attr);
    if is_event_binding(attr.name) {
        event_line(attr, delegation)
    } else if a.is_style_object {
        if a.requires_effect {
            "  _$effect(_$p => _$style(_el$, "@ + a.expression + ", _$p));\n"@
        } else {
            "  _$style(_el$, "@ + a.expression + ");\n"@
        }
    } else if a.is_class_list {
        if a.requires_effect {
            "  _$effect(_$p => _$classList(_el$, "@ + a.expression + ", _$p));\n"@
        } else {
            "  _$classList(_el$, "@ + a.expression + ");\n"@
        }
    } else if a.requires_effect {
        "  _$effect(() => _$setAttribute(_el$, \""@ + a.name + "\", "@ + a.expression + "));\n"@
    } else {
        "  _$setAttribute(_el$, \""@ + a.name + "\", "@ + a.expression + ");\n"@
    }
}

pub open spec fn insertion_lines(s: Seq<InsertionSpec>) -> Seq<char>
    decreases s.len(),
{
    if s.len() == 0 {
        Seq::empty()
    } else {
        insertion_lines(s.drop_last()) + insertion_line(s.last())
    }
}

pub open spec fn attribute_lines(s: Seq<AttributeSpec>, delegation: bool) -> Seq<char>
    decreases s.len(),
{
    if s.len() == 0 {
        Seq::empty()
    } else {
        attribute_lines(s.drop_last(), delegation) + attribute_line(s.last(), delegation)
    }
}

/// The expression that instantiates template `name` and applies the given bindings:
/// the bare call when nothing is dynamic, else an activation wrapper.
pub open spec fn binding_code(
    name: Seq<char>,
    attrs: Seq<AttributeSpec>,
    inserts: Seq<InsertionSpec>,
    delegation: bool,
) -> Seq<char> {
    if attrs.len() == 0 && inserts.len() == 0 {
        name + "()"@
    } else {
        "(() => {\n  var _el$ = "@ + name + "();\n"@ + insertion_lines(inserts) + attribute_lines(
            attrs,
            delegation,
        ) + "  return _el$;\n})()"@
    }
}

/// The import set after bindings for `attrs` and `inserts` were generated.
pub open spec fn imports_for(
    imports: RequiredImports,
    attrs: Seq<AttributeSpec>,
    inserts: Seq<InsertionSpec>,
) -> RequiredImports {
    RequiredImports {
        set_attribute: imports.set_attribute || exists|i: int|
            0 <= i < attrs.len() && !is_event_binding(attrs[i].name) && !(#[trigger] binding_kind(attrs[i])).is_style_object
                && !binding_kind(attrs[i]).is_class_list,
        effect: imports.effect || exists|i: int|
            0 <= i < attrs.len() && !is_event_binding(attrs[i].name) && (#[trigger] binding_kind(attrs[i])).requires_effect,
        style: imports.style || exists|i: int|
            0 <= i < attrs.len() && !is_event_binding(attrs[i].name) && (#[trigger] binding_kind(attrs[i])).is_style_object,
        class_list: imports.class_list || exists|i: int|
            0 <= i < attrs.len() && !is_event_binding(attrs[i].name) && !(#[trigger] binding_kind(attrs[i])).is_style_object
                && binding_kind(attrs[i]).is_class_list,
        insert: imports.insert || inserts.len() > 0,
        create_component: imports.create_component,
    }
}

/// The template has bindings, so it needs an activation wrapper.
pub open spec fn has_dynamic_parts(info: TemplateSpec) -> bool {
    info.dynamic_attributes.len() > 0 || info.text_insertions.len() > 0
}

/// The tag text of an element or component name.
pub open spec fn element_tag(n: ElementName) -> Seq<char> {
    match n {
        ElementName::Identifier(s) => s@,
        ElementName::IdentifierReference(s) => s@,
        _ => Seq::empty(),
    }
}

/// The HTML and the dynamic attributes that the first `k` attributes contribute.
pub open spec fn attributes_part(attrs: Seq<JsxAttribute>, k: nat, st: CompileState) -> Result<
    (Seq<char>, Seq<AttributeSpec>, CompileState),
    TransformError,
>
    decreases attrs, k,
{
    if k == 0 || k > attrs.len() {
        Ok((Seq::empty(), Seq::empty(), st))
    } else {
        match attributes_part(attrs, (k - 1) as nat, st) {
            Err(x) => Err(x),
            Ok((html, dynamics, st1)) => match attrs[k - 1] {
                JsxAttribute::Spread(_) => Err(TransformError::InvalidJSX(InvalidShape::SpreadAttribute)),
                JsxAttribute::Attribute(n, None) => Ok((html + " "@ + attribute_name_text(n), dynamics, st1)),
                JsxAttribute::Attribute(n, Some(AttributeValue::StringLiteral(v))) => Ok(
                    (html + " "@ + attribute_name_text(n) + "="@ + quoted_value(v@), dynamics, st1),
                ),
                JsxAttribute::Attribute(n, Some(AttributeValue::Expression(x))) => match expression_spec(x, st1) {
                    Err(y) => Err(y),
                    Ok((text, st2)) => Ok(
                        (html, dynamics.push(dynamic_attribute(attribute_name_text(n), text)), st2),
                    ),
                },
            },
        }
    }
}

/// What a text child contributes to the HTML: its trimmed content; or, when it is only
/// whitespace, one space if it holds a newline or is longer than one character, else itself.
pub open spec fn text_piece(t: Seq<char>) -> Seq<char> {
    if trim(t).len() > 0 {
        trim(t)
    } else if t.contains('\n') || t.len() > 1 {
        " "@
    } else {
        t
    }
}

/// Records an insertion of `code` for the child at index `i` of `n`: at the end when it is
/// the last child, before the first child when it is the first, else at the end with a
/// space kept in the HTML as an anchor.
pub open spec fn place_insertion(
    html: Seq<char>,
    inserts: Seq<InsertionSpec>,
    code: Seq<char>,
    i: int,
    n: int,
) -> (Seq<char>, Seq<InsertionSpec>) {
    if i + 1 == n {
        (html, inserts.push(InsertionSpec { expression: code, position: PositionSpec::AtEnd }))
    } else if i == 0 {
        (
            html,
            inserts.push(
                InsertionSpec {
                    expression: code,
                    position: PositionSpec::BeforeNode("_el$.firstChild"@),
                },
            ),
        )
    } else {
        (
            html + " "@,
            inserts.push(InsertionSpec { expression: code, position: PositionSpec::AtEnd }),
        )
    }
}

/// The template of element `e`, with the state after the components among its children
/// were lowered.
pub open spec fn extract_spec(e: JsxElement, st: CompileState) -> Result<
    (TemplateSpec, CompileState),
    TransformError,
>
    decreases e, 1nat,
{
    match attributes_part(e.attributes@, e.attributes@.len(), st) {
        Err(x) => Err(x),
        Ok((attr_html, dynamics, st)) => {
            let open = "<"@ + element_tag(e.name) + attr_html + ">"@;
            if !e.has_closing && e.children@.len() == 0 {
                Ok(
                    (
                        TemplateSpec {
                            html: open,
                            dynamic_attributes: dynamics,
                            text_insertions: Seq::empty(),
                        },
                        st,
                    ),
                )
            } else {
                match children_part(e.children@, e.children@.len(), st) {
                    Err(x) => Err(x),
                    Ok((child_html, inserts, st1)) => {
                        let close = if e.has_closing {
                            "</"@ + element_tag(e.name) + ">"@
                        } else {
                            Seq::empty()
                        };
                        Ok(
                            (
                                TemplateSpec {
                                    html: open + child_html + close,
                                    dynamic_attributes: dynamics,
                                    text_insertions: inserts,
                                },
                                st1,
                            ),
                        )
                    },
                }
            }
        },
    }
}

/// The HTML and insertions that the first `k` children contribute.
pub open spec fn children_part(cs: Seq<JsxChild>, k: nat, st: CompileState) -> Result<
    (Seq<char>, Seq<InsertionSpec>, CompileState),
    TransformError,
>
    decreases cs, k,
{
    if k == 0 || k > cs.len() {
        Ok((Seq::empty(), Seq::empty(), st))
    } else {
        match children_part(cs, (k - 1) as nat, st) {
            Err(x) => Err(x),
            Ok((html, inserts, st1)) => {
                let i = k - 1;
                match cs[i] {
                    JsxChild::Text(t) => Ok((html + text_piece(t@), inserts, st1)),
                    JsxChild::Expression(x) => if x is Empty {
                        Ok((html, inserts, st1))
                    } else {
                        match expression_spec(x, st1) {
                            Err(y) => Err(y),
                            Ok((code, st2)) => {
                                let (h, ins) = place_insertion(html, inserts, code, i, cs.len() as int);
                                Ok((h, ins, st2))
                            },
                        }
                    },
                    JsxChild::Spread(_) => Err(TransformError::InvalidJSX(InvalidShape::SpreadChild)),
                    JsxChild::Element(c) => match category(c.name) {
                        NodeCategory::PlainElement => match extract_spec(c, st1) {
                            Err(x) => Err(x),
                            Ok((info, st2)) => if has_dynamic_parts(info) {
                                Err(TransformError::InvalidJSX(InvalidShape::NestedDynamicContent))
                            } else {
                                Ok((html + info.html, inserts, st2))
                            },
                        },
                        NodeCategory::Unsupported(shape) => Err(
                            TransformError::Component(unsupported_error(c, shape)),
                        ),
                        _ => match lower_spec(c, st1) {
                            Err(x) => Err(x),
                            Ok((code, st2)) => {
                                let (h, ins) = place_insertion(
                                    html,
                                    inserts,
                                    code,
                                    i,
                                    cs.len() as int,
                                );
                                Ok((h, ins, st2))
                            },
                        },
                    },
                }
            },
        }
    }
}

/// A props-object key: the name, quoted when it is namespaced.
pub open spec fn prop_key(n: AttributeName) -> Seq<char> {
    match n {
        AttributeName::Identifier(s) => s@,
        AttributeName::NamespacedName(a, b) => "\""@ + a@ + ":"@ + b@ + "\""@,
    }
}

/// The props-object entry for one attribute of a component, given the text its embedded
/// expression (if any) compiled to.
pub open spec fn prop_entry(a: JsxAttribute, code: Seq<char>) -> Seq<char> {
    match a {
        JsxAttribute::Spread(_) => "..."@ + code,
        JsxAttribute::Attribute(n, None) => prop_key(n) + ": true"@,
        JsxAttribute::Attribute(n, Some(AttributeValue::StringLiteral(v))) => prop_key(n) + ": \""@
            + escape(v@) + "\""@,
        JsxAttribute::Attribute(n, Some(AttributeValue::Expression(_))) => prop_key(n) + ": "@ + code,
    }
}

/// The embedded expression an attribute carries, if any.
pub open spec fn attribute_expression(a: JsxAttribute) -> Option<JsxExpression> {
    match a {
        JsxAttribute::Spread(x) => Some(x),
        JsxAttribute::Attribute(_, Some(AttributeValue::Expression(x))) => Some(x),
        _ => None,
    }
}

/// The props entries of the first `k` attributes of a component.
pub open spec fn props_part(attrs: Seq<JsxAttribute>, k: nat, st: CompileState) -> Result<
    (Seq<Seq<char>>, CompileState),
    TransformError,
>
    decreases attrs, k,
{
    if k == 0 || k > attrs.len() {
        Ok((Seq::empty(), st))
    } else {
        match props_part(attrs, (k - 1) as nat, st) {
            Err(x) => Err(x),
            Ok((entries, st1)) => match attribute_expression(attrs[k - 1]) {
                None => Ok((entries.push(prop_entry(attrs[k - 1], Seq::empty())), st1)),
                Some(x) => match expression_spec(x, st1) {
                    Err(y) => Err(y),
                    Ok((code, st2)) => Ok((entries.push(prop_entry(attrs[k - 1], code)), st2)),
                },
            },
        }
    }
}

/// The values that the first `k` children of a component contribute to its `children` prop.
pub open spec fn component_children(cs: Seq<JsxChild>, k: nat, st: CompileState) -> Result<
    (Seq<Seq<char>>, CompileState),
    TransformError,
>
    decreases cs, k,
{
    if k == 0 || k > cs.len() {
        Ok((Seq::empty(), st))
    } else {
        match component_children(cs, (k - 1) as nat, st) {
            Err(x) => Err(x),
            Ok((values, st1)) => match cs[k - 1] {
                JsxChild::Text(t) => if trim(t@).len() > 0 {
                    Ok((values.push("\""@ + escape(trim(t@)) + "\""@), st1))
                } else {
                    Ok((values, st1))
                },
                JsxChild::Expression(x) => if x is Empty {
                    Ok((values, st1))
                } else {
                    match expression_spec(x, st1) {
                        Err(y) => Err(y),
                        Ok((code, st2)) => Ok((values.push(code), st2)),
                    }
                },
                JsxChild::Spread(_) => Err(TransformError::InvalidJSX(InvalidShape::SpreadChild)),
                JsxChild::Element(c) => match compile_spec(c, st1) {
                    Err(x) => Err(x),
                    Ok((code, st2)) => Ok((values.push(code), st2)),
                },
            },
        }
    }
}

/// `parts` joined by `sep`.
pub open spec fn join(parts: Seq<Seq<char>>, sep: Seq<char>) -> Seq<char>
    decreases parts.len(),
{
    if parts.len() == 0 {
        Seq::empty()
    } else if parts.len() == 1 {
        parts[0]
    } else {
        join(parts.drop_last(), sep) + sep + parts.last()
    }
}

/// The `children` entry of a props object: none, the single value, or an array.
pub open spec fn children_entry(values: Seq<Seq<char>>) -> Seq<Seq<char>> {
    if values.len() == 0 {
        Seq::empty()
    } else if values.len() == 1 {
        seq!["children: "@ + values[0]]
    } else {
        seq!["children: ["@ + join(values, ", "@) + "]"@]
    }
}

/// The runtime call that creates component `name` with the given props entries.
pub open spec fn component_call(name: Seq<char>, entries: Seq<Seq<char>>) -> Seq<char> {
    if entries.len() == 0 {
        "_$createComponent("@ + name + ", {})"@
    } else {
        "_$createComponent("@ + name + ", { "@ + join(entries, ", "@) + " })"@
    }
}

pub open spec fn with_component_import(st: CompileState) -> CompileState {
    CompileState {
        templates: st.templates,
        imports: RequiredImports { create_component: true, ..st.imports },
        delegation: st.delegation,
    }
}

/// The lowering of a component to one runtime call.
pub open spec fn lower_spec(e: JsxElement, st: CompileState) -> Result<
    (Seq<char>, CompileState),
    TransformError,
>
    decreases e, 1nat,
{
    match component_check(e) {
        Some(err) => Err(TransformError::Component(err)),
        None => match props_part(e.attributes@, e.attributes@.len(), st) {
            Err(x) => Err(x),
            Ok((entries, st1)) => match component_children(e.children@, e.children@.len(), st1) {
                Err(x) => Err(x),
                Ok((values, st2)) => Ok(
                    (
                        component_call(element_tag(e.name), entries + children_entry(values)),
                        with_component_import(st2),
                    ),
                ),
            },
        },
    }
}

/// The expression that element tree `e` compiles to, with the state after it: a plain
/// element reserves the next template identifier, is extracted and registered, and becomes
/// its binding code; a component is lowered; an unsupported tag-name shape fails.
pub open spec fn compile_spec(e: JsxElement, st: CompileState) -> Result<
    (Seq<char>, CompileState),
    TransformError,
>
    decreases e, 2nat,
{
    match category(e.name) {
        NodeCategory::PlainElement => {
            let k = st.templates.len();
            let reserved = CompileState {
                templates: st.templates.push(Seq::empty()),
                imports: st.imports,
                delegation: st.delegation,
            };
            match extract_spec(e, reserved) {
                Err(x) => Err(x),
                Ok((info, st1)) => Ok(
                    (
                        binding_code(
                            template_name(k + 1),
                            info.dynamic_attributes,
                            info.text_insertions,
                            st1.delegation,
                        ),
                        CompileState {
                            templates: st1.templates.update(k as int, info.html),
                            imports: imports_for(
                                st1.imports,
                                info.dynamic_attributes,
                                info.text_insertions,
                            ),
                            delegation: st1.delegation,
                        },
                    ),
                ),
            }
        },
        NodeCategory::Unsupported(shape) => Err(
            TransformError::Component(unsupported_error(e, shape)),
        ),
        _ => lower_spec(e, st),
    }
}

proof fn lemma_attributes_err(attrs: Seq<JsxAttribute>, k: nat, m: nat, st: CompileState)
    requires
        k <= m <= attrs.len(),
        attributes_part(attrs, k, st) is Err,
    ensures
        attributes_part(attrs, m, st) == attributes_part(attrs, k, st),
    decreases m - k,
{
    if m > k {
        lemma_attributes_err(attrs, k, (m - 1) as nat, st);
    }
}

proof fn lemma_props_err(attrs: Seq<JsxAttribute>, k: nat, m: nat, st: CompileState)
    requires
        k <= m <= attrs.len(),
        props_part(attrs, k, st) is Err,
    ensures
        props_part(attrs, m, st) == props_part(attrs, k, st),
    decreases m - k,
{
    if m > k {
        lemma_props_err(attrs, k, (m - 1) as nat, st);
    }
}

proof fn lemma_pieces_err(ps: Seq<CodePiece>, k: nat, m: nat, st: CompileState)
    requires
        k <= m <= ps.len(),
        pieces_part(ps, k, st) is Err,
    ensures
        pieces_part(ps, m, st) == pieces_part(ps, k, st),
    decreases m - k,
{
    if m > k {
        lemma_pieces_err(ps, k, (m - 1) as nat, st);
    }
}

proof fn lemma_children_err(cs: Seq<JsxChild>, k: nat, m: nat, st: CompileState)
    requires
        k <= m <= cs.len(),
        children_part(cs, k, st) is Err,
    ensures
        children_part(cs, m, st) == children_part(cs, k, st),
    decreases m - k,
{
    if m > k {
        lemma_children_err(cs, k, (m - 1) as nat, st);
    }
}

proof fn lemma_component_children_err(cs: Seq<JsxChild>, k: nat, m: nat, st: CompileState)
    requires
        k <= m <= cs.len(),
        component_children(cs, k, st) is Err,
    ensures
        component_children(cs, m, st) == component_children(cs, k, st),
    decreases m - k,
{
    if m > k {
        lemma_component_children_err(cs, k, (m - 1) as nat, st);
    }
}

/// The text of an embedded expression that holds no element tree.
pub fn simple_expression_text(e: &JsxExpression) -> (r: String)
    ensures
        r@ == expression_text(*e),
{
    match e {
        JsxExpression::Identifier(n) => n.clone(),
        JsxExpression::StringLiteral(v) => {
            let mut r = String::new();
            r.append("\"");
            append_escaped(&mut r, v.as_str());
            r.append("\"");
            proof {
                reveal_strlit("\"");
            }
            assert(r@ =~= seq!['"'] + escape(v@) + seq!['"']);
            r
        },
        JsxExpression::NumericLiteral(raw) => raw.clone(),
        _ => String::new(),
    }
}

/// The text of an expression when it holds no element tree: what event handlers are given as.
pub open spec fn plain_text(e: JsxExpression) -> Option<Seq<char>> {
    match e {
        JsxExpression::Other(ps) => if ps@.len() == 0 {
            Some(Seq::empty())
        } else if ps@.len() == 1 && ps@[0] is Text {
            Some(ps@[0]->Text_0@)
        } else {
            None
        },
        _ => Some(expression_text(e)),
    }
}

/// The text of an expression when it holds no element tree.
pub fn plain_expression_text(e: &JsxExpression) -> (r: Option<String>)
    ensures
        match plain_text(*e) {
            Some(t) => r matches Some(s) && s@ == t,
            None => r is None,
        },
{
    match e {
        JsxExpression::Other(ps) => {
            if ps.len() == 0 {
                Some(String::new())
            } else if ps.len() == 1 {
                match &ps[0] {
                    CodePiece::Text(t) => Some(t.clone()),
                    _ => None,
                }
            } else {
                None
            }
        },
        _ => Some(simple_expression_text(e)),
    }
}

fn attribute_name_string(n: &AttributeName) -> (r: String)
    ensures
        r@ == attribute_name_text(*n),
{
    match n {
        AttributeName::Identifier(s) => s.clone(),
        AttributeName::NamespacedName(a, b) => {
            let mut r = a.clone();
            r.append(":");
            r.append(b.as_str());
            proof {
                reveal_strlit(":");
            }
            assert(r@ =~= a@ + seq![':'] + b@);
            r
        },
    }
}

/// Whether a static attribute value must be quoted in the template HTML.
pub fn value_needs_quotes(v: &str) -> (r: bool)
    ensures
        r == needs_quotes(v@),
{
    let n = v.unicode_len();
    if n == 0 || contains_char(v, '"') || contains_char(v, '\'') {
        return true;
    }
    let mut i: usize = 0;
    while i < n
        invariant
            n == v@.len(),
            i <= n,
            forall|k: int| 0 <= k < i ==> !is_ws(#[trigger] v@[k]),
        decreases n - i,
    {
        if crate::text::is_ws_exec(v.get_char(i)) {
            return true;
        }
        i = i + 1;
    }
    false
}

/// Whether an expression text looks like a call, so its binding is wrapped in an effect.
pub fn expression_requires_effect(expression: &str) -> (r: bool)
    ensures
        r == needs_effect(expression@),
{
    contains_char(expression, '(') && contains_char(expression, ')')
}

/// Builds the record of `name={expression}`, deriving its kind and whether it needs an effect.
pub fn make_dynamic_attribute(name: String, expression: String) -> (r: DynamicAttribute)
    ensures
        r@ == dynamic_attribute(name@, expression@),
{
    let is_style_object = str_eq(name.as_str(), "style") && starts_with_char(
        expression.as_str(),
        '{',
    );
    let is_class_list = str_eq(name.as_str(), "classList");
    let requires_effect = expression_requires_effect(expression.as_str());
    DynamicAttribute { name, expression, is_style_object, is_class_list, requires_effect }
}

fn append_insertion_line(out: &mut String, t: &TextInsertion)
    ensures
        final(out)@ == old(out)@ + insertion_line(t@),
{
    out.append("  _$insert(_el$, ");
    out.append(t.expression.as_str());
    match &t.position {
        InsertionPosition::AtEnd => {
            out.append(", null);\n");
        },
        InsertionPosition::BeforeNode(r) => {
            out.append(", ");
            out.append(r.as_str());
            out.append(");\n");
        },
        InsertionPosition::AfterNode(r) => {
            out.append(", ");
            out.append(r.as_str());
            out.append(".nextSibling);\n");
        },
    }
    assert(final(out)@ =~= old(out)@ + insertion_line(t@));
}

fn append_attribute_line(out: &mut String, a: &DynamicAttribute, delegation: bool)
    ensures
        final(out)@ == old(out)@ + attribute_line(a@, delegation),
{
    let e = a.expression.as_str();
    if EventTransformer::is_event_attribute(a.name.as_str())
        && !EventTransformer::is_lifecycle_attribute(a.name.as_str()) {
        let events = EventTransformer::with_delegation(delegation);
        let event = match events.extract_event_name(a.name.as_str()) {
            Ok(ev) => ev,
            Err(_) => {
                return;
            },
        };
        let line = if delegation && EventTransformer::is_delegated_lowercase(event.as_str()) {
            events.generate_delegated_binding(event.as_str(), e)
        } else {
            events.generate_direct_binding(event.as_str(), e)
        };
        out.append("  ");
        out.append(line.as_str());
        out.append("\n");
        assert(final(out)@ =~= old(out)@ + attribute_line(a@, delegation));
        return;
    }
    let kind = make_dynamic_attribute(a.name.clone(), a.expression.clone());
    if kind.is_style_object {
        if kind.requires_effect {
            out.append("  _$effect(_$p => _$style(_el$, ");
            out.append(e);
            out.append(", _$p));\n");
        } else {
            out.append("  _$style(_el$, ");
            out.append(e);
            out.append(");\n");
        }
    } else if kind.is_class_list {
        if kind.requires_effect {
            out.append("  _$effect(_$p => _$classList(_el$, ");
            out.append(e);
            out.append(", _$p));\n");
        } else {
            out.append("  _$classList(_el$, ");
            out.append(e);
            out.append(");\n");
        }
    } else if kind.requires_effect {
        out.append("  _$effect(() => _$setAttribute(_el$, \"");
        out.append(a.name.as_str());
        out.append("\", ");
        out.append(e);
        out.append("));\n");
    } else {
        out.append("  _$setAttribute(_el$, \"");
        out.append(a.name.as_str());
        out.append("\", ");
        out.append(e);
        out.append(");\n");
    }
    assert(final(out)@ =~= old(out)@ + attribute_line(a@, delegation));
}

/// The call that instantiates template `template_name` and applies the bindings: the bare
/// call when nothing is dynamic; else an activation wrapper that runs the insertions in
/// order, then the attribute bindings in order, and returns the root.
/// Each attribute's binding is decided by its name and expression (`binding_kind`); the
/// stored `is_style_object`, `is_class_list` and `requires_effect` flags are not read.
pub fn generate_dynamic_wrapper_with_text(
    template_name: &str,
    dynamic_attrs: &Vec<DynamicAttribute>,
    text_insertions: &Vec<TextInsertion>,
    delegation: bool,
) -> (r: String)
    ensures
        r@ == binding_code(
            template_name@,
            dynamic_attrs@.map_values(|a: DynamicAttribute| a@),
            text_insertions@.map_values(|t: TextInsertion| t@),
            delegation,
        ),
{
    let ghost attrs = dynamic_attrs@.map_values(|a: DynamicAttribute| a@);
    let ghost inserts = text_insertions@.map_values(|t: TextInsertion| t@);
    let mut w = String::new();
    if dynamic_attrs.len() == 0 && text_insertions.len() == 0 {
        w.append(template_name);
        w.append("()");
        assert(w@ =~= template_name@ + "()"@);
        return w;
    }
    w.append("(() => {\n  var _el$ = ");
    w.append(template_name);
    w.append("();\n");
    let ghost head = w@;
    assert(inserts.subrange(0, 0) =~= Seq::<InsertionSpec>::empty());
    let mut i: usize = 0;
    while i < text_insertions.len()
        invariant
            i <= text_insertions.len(),
            inserts == text_insertions@.map_values(|t: TextInsertion| t@),
            w@ == head + insertion_lines(inserts.subrange(0, i as int)),
        decreases text_insertions.len() - i,
    {
        append_insertion_line(&mut w, &text_insertions[i]);
        assert(inserts.subrange(0, i + 1).drop_last() =~= inserts.subrange(0, i as int));
        i = i + 1;
    }
    assert(inserts.subrange(0, text_insertions.len() as int) =~= inserts);
    let ghost mid = w@;
    assert(attrs.subrange(0, 0) =~= Seq::<AttributeSpec>::empty());
    let mut j: usize = 0;
    while j < dynamic_attrs.len()
        invariant
            j <= dynamic_attrs.len(),
            attrs == dynamic_attrs@.map_values(|a: DynamicAttribute| a@),
            w@ == mid + attribute_lines(attrs.subrange(0, j as int), delegation),
        decreases dynamic_attrs.len() - j,
    {
        append_attribute_line(&mut w, &dynamic_attrs[j], delegation);
        assert(attrs.subrange(0, j + 1).drop_last() =~= attrs.subrange(0, j as int));
        j = j + 1;
    }
    assert(attrs.subrange(0, dynamic_attrs.len() as int) =~= attrs);
    w.append("  return _el$;\n})()");
    assert(w@ =~= binding_code(template_name@, attrs, inserts, delegation));
    w
}

/// The call for template `template_name` with attribute bindings only.
pub fn generate_dynamic_wrapper(
    template_name: &str,
    dynamic_attrs: &Vec<DynamicAttribute>,
    delegation: bool,
) -> (r: String)
    ensures
        r@ == binding_code(
            template_name@,
            dynamic_attrs@.map_values(|a: DynamicAttribute| a@),
            Seq::empty(),
            delegation,
        ),
{
    let none: Vec<TextInsertion> = Vec::new();
    assert(none@.map_values(|t: TextInsertion| t@) =~= Seq::<InsertionSpec>::empty());
    generate_dynamic_wrapper_with_text(template_name, dynamic_attrs, &none, delegation)
}

fn element_tag_string(n: &ElementName) -> (r: String)
    ensures
        r@ == element_tag(*n),
{
    match n {
        ElementName::Identifier(s) => s.clone(),
        ElementName::IdentifierReference(s) => s.clone(),
        _ => String::new(),
    }
}

fn append_text_piece(out: &mut String, t: &str)
    ensures
        final(out)@ == old(out)@ + text_piece(t@),
{
    let trimmed = trim_str(t);
    if trimmed.as_str().unicode_len() > 0 {
        out.append(trimmed.as_str());
    } else if contains_char(t, '\n') || t.unicode_len() > 1 {
        out.append(" ");
    } else {
        out.append(t);
    }
}

fn place(
    html: &mut String,
    inserts: &mut Vec<TextInsertion>,
    code: String,
    i: usize,
    n: usize,
)
    requires
        i < n,
    ensures
        (final(html)@, final(inserts)@.map_values(|t: TextInsertion| t@)) == place_insertion(
            old(html)@,
            old(inserts)@.map_values(|t: TextInsertion| t@),
            code@,
            i as int,
            n as int,
        ),
{
    let position = if i + 1 == n {
        InsertionPosition::AtEnd
    } else if i == 0 {
        InsertionPosition::BeforeNode(String::from_str("_el$.firstChild"))
    } else {
        html.append(" ");
        InsertionPosition::AtEnd
    };
    inserts.push(TextInsertion { expression: code, position });
    assert(final(inserts)@.map_values(|t: TextInsertion| t@) =~= old(inserts)@.map_values(
        |t: TextInsertion| t@,
    ).push(final(inserts)@[final(inserts)@.len() - 1]@));
}

/// `parts` joined by `sep`.
pub fn join_strings(parts: &Vec<String>, sep: &str) -> (r: String)
    ensures
        r@ == join(parts@.map_values(|s: String| s@), sep@),
{
    let ghost views = parts@.map_values(|s: String| s@);
    let mut r = String::new();
    let mut i: usize = 0;
    assert(views.subrange(0, 0) =~= Seq::<Seq<char>>::empty());
    while i < parts.len()
        invariant
            i <= parts.len(),
            views == parts@.map_values(|s: String| s@),
            r@ == join(views.subrange(0, i as int), sep@),
        decreases parts.len() - i,
    {
        if i > 0 {
            r.append(sep);
        }
        r.append(parts[i].as_str());
        assert(views.subrange(0, i + 1).drop_last() =~= views.subrange(0, i as int));
        if i == 0 {
            assert(r@ =~= join(views.subrange(0, 1), sep@));
        }
        i = i + 1;
    }
    assert(views.subrange(0, parts.len() as int) =~= views);
    r
}

fn prop_entry_string(a: &JsxAttribute, code: &str) -> (r: String)
    ensures
        r@ == prop_entry(*a, code@),
{
    let mut r = String::new();
    match a {
        JsxAttribute::Spread(_) => {
            r.append("...");
            r.append(code);
        },
        JsxAttribute::Attribute(n, value) => {
            match n {
                AttributeName::Identifier(s) => {
                    r.append(s.as_str());
                },
                AttributeName::NamespacedName(x, y) => {
                    r.append("\"");
                    r.append(x.as_str());
                    r.append(":");
                    r.append(y.as_str());
                    r.append("\"");
                },
            }
            assert(r@ =~= prop_key(*n));
            match value {
                None => {
                    r.append(": true");
                },
                Some(AttributeValue::StringLiteral(v)) => {
                    r.append(": \"");
                    append_escaped(&mut r, v.as_str());
                    r.append("\"");
                },
                Some(AttributeValue::Expression(_)) => {
                    r.append(": ");
                    r.append(code);
                },
            }
        },
    }
    assert(r@ =~= prop_entry(*a, code@));
    r
}

/// The import set after bindings for `attrs` and `inserts` were generated.
pub fn imports_after(
    imports: RequiredImports,
    attrs: &Vec<DynamicAttribute>,
    inserts: &Vec<TextInsertion>,
) -> (r: RequiredImports)
    ensures
        r == imports_for(
            imports,
            attrs@.map_values(|a: DynamicAttribute| a@),
            inserts@.map_values(|t: TextInsertion| t@),
        ),
{
    let ghost v = attrs@.map_values(|a: DynamicAttribute| a@);
    let mut set_attribute = imports.set_attribute;
    let mut effect = imports.effect;
    let mut style = imports.style;
    let mut class_list = imports.class_list;
    let mut i: usize = 0;
    while i < attrs.len()
        invariant
            i <= attrs.len(),
            v == attrs@.map_values(|a: DynamicAttribute| a@),
            set_attribute == (imports.set_attribute || exists|j: int|
                0 <= j < i && !is_event_binding(v[j].name) && !(#[trigger] binding_kind(v[j])).is_style_object && !binding_kind(v[j]).is_class_list),
            effect == (imports.effect || exists|j: int| 0 <= j < i && !is_event_binding(v[j].name) && (#[trigger] binding_kind(v[j])).requires_effect),
            style == (imports.style || exists|j: int| 0 <= j < i && !is_event_binding(v[j].name) && (#[trigger] binding_kind(v[j])).is_style_object),
            class_list == (imports.class_list || exists|j: int|
                0 <= j < i && !is_event_binding(v[j].name) && !(#[trigger] binding_kind(v[j])).is_style_object && binding_kind(v[j]).is_class_list),
        decreases attrs.len() - i,
    {
        let a = &attrs[i];
        assert(v[i as int] == a@);
        let kind = make_dynamic_attribute(a.name.clone(), a.expression.clone());
        assert(binding_kind(v[i as int]) == kind@);
        if EventTransformer::is_event_attribute(a.name.as_str())
            && !EventTransformer::is_lifecycle_attribute(a.name.as_str()) {
        } else if kind.is_style_object {
            style = true;
        } else if kind.is_class_list {
            class_list = true;
        } else {
            set_attribute = true;
        }
        if kind.requires_effect && !(EventTransformer::is_event_attribute(a.name.as_str())
            && !EventTransformer::is_lifecycle_attribute(a.name.as_str())) {
            effect = true;
        }
        i = i + 1;
    }
    let insert = imports.insert || inserts.len() > 0;
    RequiredImports {
        set_attribute,
        effect,
        style,
        class_list,
        insert,
        create_component: imports.create_component,
    }
}

/// The template registry and import tracker of one compilation unit, with the compiler of
/// element trees that fills them.
pub struct JSXTransformer {
    templates: Vec<String>,
    required_imports: RequiredImports,
    delegation: bool,
}

impl View for JSXTransformer {
    type V = CompileState;

    closed spec fn view(&self) -> CompileState {
        CompileState {
            templates: self.templates@.map_values(|s: String| s@),
            imports: self.required_imports,
            delegation: self.delegation,
        }
    }
}

impl JSXTransformer {
    pub fn new() -> (r: Self)
        ensures
            r@.templates.len() == 0,
            r@.delegation,
            r@.imports == (RequiredImports {
                set_attribute: false,
                effect: false,
                style: false,
                class_list: false,
                insert: false,
                create_component: false,
            }),
    {
        JSXTransformer {
            templates: Vec::new(),
            required_imports: RequiredImports {
                set_attribute: false,
                effect: false,
                style: false,
                class_list: false,
                insert: false,
                create_component: false,
            },
            delegation: true,
        }
    }

    /// An empty registry whose event bindings use delegation as given.
    pub fn with_delegation(delegation: bool) -> (r: Self)
        ensures
            r@.templates.len() == 0,
            r@.delegation == delegation,
            r@.imports == (RequiredImports {
                set_attribute: false,
                effect: false,
                style: false,
                class_list: false,
                insert: false,
                create_component: false,
            }),
    {
        let mut r = Self::new();
        r.delegation = delegation;
        r
    }

    /// The number of templates registered so far.
    pub fn template_count(&self) -> (r: usize)
        ensures
            r == self@.templates.len(),
    {
        self.templates.len()
    }

    /// The HTML of the `i`-th registered template.
    pub fn template_html(&self, i: usize) -> (r: &String)
        requires
            i < self@.templates.len(),
        ensures
            r@ == self@.templates[i as int],
    {
        &self.templates[i]
    }

    /// The imports that the generated code needs so far.
    pub fn imports(&self) -> (r: RequiredImports)
        ensures
            r == self@.imports,
    {
        self.required_imports
    }

    /// The identifier of the template at registry index `i`.
    pub fn template_name_at(i: usize) -> (r: String)
        ensures
            r@ == template_name((i + 1) as nat),
    {
        let mut r = String::from_str("_tmpl$");
        if i >= 1 {
            append_decimal(&mut r, (i as u128) + 1);
        }
        r
    }

    /// The identifier of the last template registered, or of the first one while none is.
    pub fn get_current_template_name(&self) -> (r: String)
        ensures
            r@ == template_name(self@.templates.len()),
    {
        let n = self.templates.len();
        if n == 0 {
            Self::template_name_at(0)
        } else {
            Self::template_name_at(n - 1)
        }
    }

    /// Every registered template as (identifier, HTML), in registration order.
    pub fn get_templates(&self) -> (r: Vec<(String, String)>)
        ensures
            r@.len() == self@.templates.len(),
            forall|i: int|
                0 <= i < r@.len() ==> (#[trigger] r@[i]).0@ == template_name((i + 1) as nat)
                    && r@[i].1@ == self@.templates[i],
    {
        let mut r: Vec<(String, String)> = Vec::new();
        let mut i: usize = 0;
        while i < self.templates.len()
            invariant
                i <= self.templates.len(),
                r@.len() == i,
                forall|j: int|
                    0 <= j < i ==> (#[trigger] r@[j]).0@ == template_name((j + 1) as nat)
                        && r@[j].1@ == self@.templates[j],
            decreases self.templates.len() - i,
        {
            r.push((Self::template_name_at(i), self.templates[i].clone()));
            i = i + 1;
        }
        r
    }

    /// Registers a template by its HTML and returns its identifier, the next in order.
    pub fn register_template(&mut self, html: String) -> (r: String)
        ensures
            r@ == template_name((old(self)@.templates.len() + 1) as nat),
            final(self)@.templates == old(self)@.templates.push(html@),
            final(self)@.imports == old(self)@.imports,
            final(self)@.delegation == old(self)@.delegation,
    {
        let k = self.templates.len();
        let ghost h = html@;
        self.templates.push(html);
        assert(self@.templates =~= old(self)@.templates.push(h));
        Self::template_name_at(k)
    }

    /// Records the helpers that a binding for `attr_name={expression}` needs.
    pub fn add_dynamic_attribute(&mut self, attr_name: &str, expression: &str)
        ensures
            final(self)@.templates == old(self)@.templates,
            final(self)@.delegation == old(self)@.delegation,
            final(self)@.imports == imports_for(
                old(self)@.imports,
                seq![dynamic_attribute(attr_name@, expression@)],
                Seq::empty(),
            ),
    {
        let a = make_dynamic_attribute(String::from_str(attr_name), String::from_str(expression));
        let ghost av = a@;
        let attrs = vec![a];
        let none: Vec<TextInsertion> = Vec::new();
        assert(attrs@.map_values(|x: DynamicAttribute| x@) =~= seq![av]);
        assert(none@.map_values(|t: TextInsertion| t@) =~= Seq::<InsertionSpec>::empty());
        self.required_imports = imports_after(self.required_imports, &attrs, &none);
    }

    /// The import bindings that the generated code needs, the template constructor first.
    pub fn get_required_imports(&self) -> (r: Vec<String>)
        ensures
            r@.map_values(|s: String| s@) == crate::program::import_bindings(
                self@.imports,
                crate::program::ModuleFormat::Esm,
            ),
    {
        crate::program::import_binding_list(self.required_imports, crate::program::ModuleFormat::Esm)
    }

    /// The static HTML and the dynamic attributes of an element.
    pub fn extract_template_with_dynamics(&mut self, element: &JsxElement) -> (r: Result<
        (String, Vec<DynamicAttribute>),
        TransformError,
    >)
        ensures
            match extract_spec(*element, old(self)@) {
                Ok((info, st)) => r is Ok && r->Ok_0.0@ == info.html
                    && r->Ok_0.1@.map_values(|a: DynamicAttribute| a@) == info.dynamic_attributes
                    && final(self)@ == st,
                Err(x) => r == Err::<(String, Vec<DynamicAttribute>), TransformError>(x),
            },
    {
        match self.extract_template_with_dynamics_and_text(element) {
            Ok(info) => Ok((info.html, info.dynamic_attributes)),
            Err(x) => Err(x),
        }
    }

    /// The static HTML of an element.
    pub fn extract_template(&mut self, element: &JsxElement) -> (r: Result<String, TransformError>)
        ensures
            match extract_spec(*element, old(self)@) {
                Ok((info, st)) => r is Ok && r->Ok_0@ == info.html && final(self)@ == st,
                Err(x) => r == Err::<String, TransformError>(x),
            },
    {
        match self.extract_template_with_dynamics_and_text(element) {
            Ok(info) => Ok(info.html),
            Err(x) => Err(x),
        }
    }

    /// The declaration statement of template `template_name`.
    pub fn create_template_declaration(&self, template_name: &str, template_html: &str) -> (r:
        String)
        ensures
            r@ == crate::program::declaration(template_name@, template_html@),
    {
        let mut r = String::from_str("var ");
        r.append(template_name);
        r.append(" = /*#__PURE__*/ _$template(`");
        r.append(template_html);
        r.append("`);");
        r
    }

    /// Reserves the next template identifier and returns it.
    pub fn get_next_template_name(&mut self) -> (r: String)
        ensures
            r@ == template_name((old(self)@.templates.len() + 1) as nat),
            final(self)@.templates == old(self)@.templates.push(Seq::empty()),
            final(self)@.imports == old(self)@.imports,
            final(self)@.delegation == old(self)@.delegation,
    {
        let k = self.templates.len();
        self.templates.push(String::new());
        assert(self@.templates =~= old(self)@.templates.push(Seq::empty()));
        Self::template_name_at(k)
    }

    /// Compiles an element tree into the expression that replaces it: a plain element
    /// becomes a registered template and its binding code, a component its lowering.
    pub fn transform_jsx_element(&mut self, element: &JsxElement) -> (r: Result<
        String,
        TransformError,
    >)
        ensures
            match compile_spec(*element, old(self)@) {
                Ok((code, st)) => r is Ok && r->Ok_0@ == code && final(self)@ == st && final(self)@.templates.len() >= old(self)@.templates.len(),
                Err(x) => r == Err::<String, TransformError>(x) && (category(element.name) is Unsupported
                    ==> final(self)@ == old(self)@),
            },
        decreases element, 2nat,
    {
        match classify(&element.name) {
            NodeCategory::PlainElement => {
                let k = self.templates.len();
                let name = self.get_next_template_name();
                let info = match self.extract_template_with_dynamics_and_text(element) {
                    Ok(info) => info,
                    Err(x) => {
                        return Err(x);
                    },
                };
                let code = generate_dynamic_wrapper_with_text(
                    name.as_str(),
                    &info.dynamic_attributes,
                    &info.text_insertions,
                    self.delegation,
                );
                self.required_imports = imports_after(
                    self.required_imports,
                    &info.dynamic_attributes,
                    &info.text_insertions,
                );
                let ghost before = self.templates@;
                self.templates.set(k, info.html);
                assert(self.templates@.map_values(|s: String| s@) =~= before.map_values(
                    |s: String| s@,
                ).update(k as int, info@.html));
                Ok(code)
            },
            NodeCategory::Unsupported(shape) => Err(
                TransformError::Component(unsupported(element, shape)),
            ),
            _ => self.lower_component(element),
        }
    }

    /// Extracts the template of an element: its static HTML, its dynamic attributes and the
    /// insertions among its children; components among the children are lowered.
    pub fn extract_template_with_dynamics_and_text(&mut self, element: &JsxElement) -> (r: Result<
        TemplateInfo,
        TransformError,
    >)
        ensures
            match extract_spec(*element, old(self)@) {
                Ok((info, st)) => r is Ok && r->Ok_0@ == info && r->Ok_0.wf() && final(self)@
                    == st && final(self)@.templates.len() >= old(self)@.templates.len(),
                Err(x) => r == Err::<TemplateInfo, TransformError>(x),
            },
        decreases element, 1nat,
    {
        let tag = element_tag_string(&element.name);
        let mut html = String::new();
        html.append("<");
        html.append(tag.as_str());
        let ghost head = html@;
        let mut dynamic_attributes: Vec<DynamicAttribute> = Vec::new();
        let attrs = &element.attributes;
        let ghost st0 = self@;
        let mut i: usize = 0;
        while i < attrs.len()
            invariant
                i <= attrs.len(),
                attrs == element.attributes,
                st0 == old(self)@,
                self@.templates.len() >= st0.templates.len(),
                attributes_part(attrs@, i as nat, st0) matches Ok((h, d, st)) && html@ == head + h
                    && dynamic_attributes@.map_values(|a: DynamicAttribute| a@) == d && self@ == st,
            decreases attrs.len() - i,
        {
            let ghost prev_dyn = dynamic_attributes@.map_values(|a: DynamicAttribute| a@);
            match &attrs[i] {
                JsxAttribute::Spread(_) => {
                    proof {
                        lemma_attributes_err(attrs@, (i + 1) as nat, attrs@.len(), st0);
                    }
                    return Err(TransformError::InvalidJSX(InvalidShape::SpreadAttribute));
                },
                JsxAttribute::Attribute(n, None) => {
                    html.append(" ");
                    let name = attribute_name_string(n);
                    html.append(name.as_str());
                },
                JsxAttribute::Attribute(n, Some(AttributeValue::StringLiteral(v))) => {
                    html.append(" ");
                    let name = attribute_name_string(n);
                    html.append(name.as_str());
                    html.append("=");
                    if value_needs_quotes(v.as_str()) {
                        html.append("\"");
                        html.append(v.as_str());
                        html.append("\"");
                    } else {
                        html.append(v.as_str());
                    }
                },
                JsxAttribute::Attribute(n, Some(AttributeValue::Expression(x))) => {
                    let name = attribute_name_string(n);
                    let expression = match self.stringify_expression(x) {
                        Ok(t) => t,
                        Err(y) => {
                            assert(attributes_part(attrs@, (i + 1) as nat, st0) == Err::<
                                (Seq<char>, Seq<AttributeSpec>, CompileState),
                                TransformError,
                            >(y));
                            proof {
                                lemma_attributes_err(attrs@, (i + 1) as nat, attrs@.len(), st0);
                            }
                            return Err(y);
                        },
                    };
                    let a = make_dynamic_attribute(name, expression);
                    let ghost av = a@;
                    dynamic_attributes.push(a);
                    assert(dynamic_attributes@.map_values(|a: DynamicAttribute| a@) =~= prev_dyn.push(
                        av,
                    ));
                },
            }
            proof {
                reveal_strlit("\"");
            }
            assert(attributes_part(attrs@, (i + 1) as nat, st0) matches Ok((h, d, st)) && html@ =~= head
                + h && dynamic_attributes@.map_values(|a: DynamicAttribute| a@) =~= d && self@ == st);
            i = i + 1;
        }
        html.append(">");
        let mut text_insertions: Vec<TextInsertion> = Vec::new();
        if element.has_closing || element.children.len() > 0 {
            match self.process_children_with_text_interpolation(
                &element.children,
                &mut html,
                &mut text_insertions,
            ) {
                Ok(()) => {},
                Err(x) => {
                    return Err(x);
                },
            }
            if element.has_closing {
                html.append("</");
                html.append(tag.as_str());
                html.append(">");
            }
        }
        assert(text_insertions@.map_values(|t: TextInsertion| t@) =~= Seq::<InsertionSpec>::empty()
            + text_insertions@.map_values(|t: TextInsertion| t@));
        let has_dynamic_content = dynamic_attributes.len() > 0 || text_insertions.len() > 0;
        let info = TemplateInfo { html, dynamic_attributes, text_insertions, has_dynamic_content };
        assert(info@.html =~= extract_spec(*element, old(self)@)->Ok_0.0.html);
        Ok(info)
    }

    /// Appends what the children contribute to `html` and `text_insertions`.
    pub fn process_children_with_text_interpolation(
        &mut self,
        children: &Vec<JsxChild>,
        html: &mut String,
        text_insertions: &mut Vec<TextInsertion>,
    ) -> (r: Result<(), TransformError>)
        ensures
            match children_part(children@, children@.len(), old(self)@) {
                Ok((h, ins, st)) => r is Ok && final(html)@ == old(html)@ + h
                    && final(text_insertions)@.map_values(|t: TextInsertion| t@) == old(text_insertions)@.map_values(|t: TextInsertion| t@) + ins && final(self)@ == st && final(self)@.templates.len() >= old(self)@.templates.len(),
                Err(x) => r == Err::<(), TransformError>(x),
            },
        decreases children, 0nat,
    {
        let ghost html0 = html@;
        let ghost ins0 = text_insertions@.map_values(|t: TextInsertion| t@);
        let ghost st0 = self@;
        let n = children.len();
        let mut i: usize = 0;
        while i < n
            invariant
                n == children.len(),
                i <= n,
                st0 == old(self)@,
                html0 == old(html)@,
                ins0 == old(text_insertions)@.map_values(|t: TextInsertion| t@),
                self@.templates.len() >= st0.templates.len(),
                children_part(children@, i as nat, st0) matches Ok((h, ins, st)) && html@ == html0
                    + h && text_insertions@.map_values(|t: TextInsertion| t@) == ins0 + ins
                    && self@ == st,
            decreases n - i,
        {
            match &children[i] {
                JsxChild::Text(t) => {
                    append_text_piece(html, t.as_str());
                },
                JsxChild::Expression(x) => {
                    match x {
                        JsxExpression::Empty => {},
                        _ => {
                            match self.stringify_expression(x) {
                                Ok(code) => {
                                    place(html, text_insertions, code, i, n);
                                },
                                Err(y) => {
                                    assert(children_part(children@, (i + 1) as nat, st0) == Err::<(Seq<char>, Seq<InsertionSpec>, CompileState), TransformError>(y));
                                    proof {
                                        lemma_children_err(children@, (i + 1) as nat, n as nat, st0);
                                    }
                                    return Err(y);
                                },
                            }
                        },
                    }
                },
                JsxChild::Spread(_) => {
                    assert(children_part(children@, (i + 1) as nat, st0) == Err::<(Seq<char>, Seq<InsertionSpec>, CompileState), TransformError>(TransformError::InvalidJSX(InvalidShape::SpreadChild)));
                    proof {
                        lemma_children_err(children@, (i + 1) as nat, n as nat, st0);
                    }
                    return Err(TransformError::InvalidJSX(InvalidShape::SpreadChild));
                },
                JsxChild::Element(c) => {
                    match classify(&c.name) {
                        NodeCategory::PlainElement => {
                            match self.extract_template_with_dynamics_and_text(c) {
                                Ok(info) => {
                                    if info.dynamic_attributes.len() > 0 || info.text_insertions.len() > 0 {
                                        let y = TransformError::InvalidJSX(InvalidShape::NestedDynamicContent);
                                        assert(children_part(children@, (i + 1) as nat, st0) == Err::<(Seq<char>, Seq<InsertionSpec>, CompileState), TransformError>(y));
                                        proof {
                                            lemma_children_err(children@, (i + 1) as nat, n as nat, st0);
                                        }
                                        return Err(y);
                                    }
                                    html.append(info.html.as_str());
                                },
                                Err(x) => {
                                    assert(children_part(children@, (i + 1) as nat, st0) == Err::<(Seq<char>, Seq<InsertionSpec>, CompileState), TransformError>(x));
                                    proof {
                                        lemma_children_err(children@, (i + 1) as nat, n as nat, st0);
                                    }
                                    return Err(x);
                                },
                            }
                        },
                        NodeCategory::Unsupported(shape) => {
                            let x = TransformError::Component(unsupported(c, shape));
                            assert(children_part(children@, (i + 1) as nat, st0) == Err::<(Seq<char>, Seq<InsertionSpec>, CompileState), TransformError>(x));
                            proof {
                                lemma_children_err(children@, (i + 1) as nat, n as nat, st0);
                            }
                            return Err(x);
                        },
                        _ => {
                            match self.lower_component(c) {
                                Ok(code) => {
                                    place(html, text_insertions, code, i, n);
                                },
                                Err(x) => {
                                    assert(children_part(children@, (i + 1) as nat, st0) == Err::<(Seq<char>, Seq<InsertionSpec>, CompileState), TransformError>(x));
                                    proof {
                                        lemma_children_err(children@, (i + 1) as nat, n as nat, st0);
                                    }
                                    return Err(x);
                                },
                            }
                        },
                    }
                },
            }
            assert(children_part(children@, (i + 1) as nat, st0) matches Ok((h, ins, st)) && html@
                =~= html0 + h && text_insertions@.map_values(|t: TextInsertion| t@) =~= ins0 + ins
                && self@ == st);
            i = i + 1;
        }
        Ok(())
    }

    /// Lowers a component to one runtime call whose props object holds its attributes and
    /// a `children` entry built from its children.
    pub fn lower_component(&mut self, element: &JsxElement) -> (r: Result<String, TransformError>)
        ensures
            match lower_spec(*element, old(self)@) {
                Ok((code, st)) => r is Ok && r->Ok_0@ == code && final(self)@ == st && final(self)@.templates.len() >= old(self)@.templates.len(),
                Err(x) => r == Err::<String, TransformError>(x),
            },
        decreases element, 1nat,
    {
        match check_component(element) {
            Some(err) => {
                return Err(TransformError::Component(err));
            },
            None => {},
        }
        let ghost st0 = self@;
        let mut entries: Vec<String> = Vec::new();
        let attrs = &element.attributes;
        let mut i: usize = 0;
        while i < attrs.len()
            invariant
                i <= attrs.len(),
                attrs == element.attributes,
                st0 == old(self)@,
                component_check(*element) is None,
                self@.templates.len() >= st0.templates.len(),
                props_part(attrs@, i as nat, st0) matches Ok((ents, st))
                    && entries@.map_values(|s: String| s@) == ents && self@ == st,
            decreases attrs.len() - i,
        {
            let ghost prev = entries@.map_values(|s: String| s@);
            let code = match self.attribute_code(&attrs[i]) {
                Ok(c) => c,
                Err(y) => {
                    assert(props_part(attrs@, (i + 1) as nat, st0) == Err::<
                        (Seq<Seq<char>>, CompileState),
                        TransformError,
                    >(y));
                    proof {
                        lemma_props_err(attrs@, (i + 1) as nat, attrs@.len(), st0);
                    }
                    return Err(y);
                },
            };
            let entry = prop_entry_string(&attrs[i], code.as_str());
            let ghost ev = entry@;
            entries.push(entry);
            assert(entries@.map_values(|s: String| s@) =~= prev.push(ev));
            assert(props_part(attrs@, (i + 1) as nat, st0) matches Ok((ents, st))
                && entries@.map_values(|s: String| s@) == ents && self@ == st);
            i = i + 1;
        }
        let values = match self.lower_children(&element.children) {
            Ok(v) => v,
            Err(x) => {
                return Err(x);
            },
        };
        let ghost st1 = self@;
        let ghost value_views = values@.map_values(|s: String| s@);
        let ghost before = entries@.map_values(|s: String| s@);
        if values.len() == 1 {
            let mut c = String::from_str("children: ");
            c.append(values[0].as_str());
            entries.push(c);
        } else if values.len() > 1 {
            let mut c = String::from_str("children: [");
            let joined = join_strings(&values, ", ");
            c.append(joined.as_str());
            c.append("]");
            entries.push(c);
        }
        assert(entries@.map_values(|s: String| s@) =~= before + children_entry(value_views));
        let tag = element_tag_string(&element.name);
        let mut out = String::from_str("_$createComponent(");
        out.append(tag.as_str());
        if entries.len() == 0 {
            out.append(", {})");
        } else {
            out.append(", { ");
            let joined = join_strings(&entries, ", ");
            out.append(joined.as_str());
            out.append(" })");
        }
        self.required_imports.create_component = true;
        assert(self@ == with_component_import(st1));
        Ok(out)
    }

    /// Re-emits an embedded expression, compiling every element tree inside it in place.
    pub fn stringify_expression(&mut self, e: &JsxExpression) -> (r: Result<String, TransformError>)
        ensures
            match expression_spec(*e, old(self)@) {
                Ok((code, st)) => r is Ok && r->Ok_0@ == code && final(self)@ == st && final(self)@.templates.len() >= old(self)@.templates.len(),
                Err(x) => r == Err::<String, TransformError>(x),
            },
        decreases e, 0nat,
    {
        match e {
            JsxExpression::Other(pieces) => self.stringify_pieces(pieces),
            _ => Ok(simple_expression_text(e)),
        }
    }

    /// The compiled text of the expression an attribute carries, or nothing.
    fn attribute_code(&mut self, a: &JsxAttribute) -> (r: Result<String, TransformError>)
        ensures
            match attribute_expression(*a) {
                None => r matches Ok(c) && c@ == Seq::<char>::empty() && final(self)@ == old(self)@,
                Some(x) => match expression_spec(x, old(self)@) {
                    Ok((code, st)) => r is Ok && r->Ok_0@ == code && final(self)@ == st && final(self)@.templates.len() >= old(self)@.templates.len(),
                    Err(y) => r == Err::<String, TransformError>(y),
                },
            },
        decreases a, 0nat,
    {
        match a {
            JsxAttribute::Spread(x) => self.stringify_expression(x),
            JsxAttribute::Attribute(_, Some(AttributeValue::Expression(x))) => self.stringify_expression(x),
            _ => Ok(String::new()),
        }
    }

    fn stringify_pieces(&mut self, pieces: &Vec<CodePiece>) -> (r: Result<String, TransformError>)
        ensures
            match pieces_part(pieces@, pieces@.len(), old(self)@) {
                Ok((code, st)) => r is Ok && r->Ok_0@ == code && final(self)@ == st && final(self)@.templates.len() >= old(self)@.templates.len(),
                Err(x) => r == Err::<String, TransformError>(x),
            },
        decreases pieces, 0nat,
    {
        let ghost st0 = self@;
        let mut out = String::new();
        let mut i: usize = 0;
        while i < pieces.len()
            invariant
                i <= pieces.len(),
                st0 == old(self)@,
                self@.templates.len() >= st0.templates.len(),
                pieces_part(pieces@, i as nat, st0) matches Ok((t, st)) && out@ == t && self@ == st,
            decreases pieces.len() - i,
        {
            match &pieces[i] {
                CodePiece::Text(t) => {
                    out.append(t.as_str());
                },
                CodePiece::Element(el) => match self.transform_jsx_element(el) {
                    Ok(code) => {
                        out.append(code.as_str());
                    },
                    Err(y) => {
                        assert(pieces_part(pieces@, (i + 1) as nat, st0) == Err::<(Seq<char>, CompileState), TransformError>(y));
                        proof {
                            lemma_pieces_err(pieces@, (i + 1) as nat, pieces@.len(), st0);
                        }
                        return Err(y);
                    },
                },
            }
            i = i + 1;
        }
        Ok(out)
    }

    /// The values of the `children` prop of a component, one per child that gives one.
    pub fn lower_children(&mut self, children: &Vec<JsxChild>) -> (r: Result<
        Vec<String>,
        TransformError,
    >)
        ensures
            match component_children(children@, children@.len(), old(self)@) {
                Ok((values, st)) => r is Ok && r->Ok_0@.map_values(|s: String| s@) == values
                    && final(self)@ == st && final(self)@.templates.len() >= old(self)@.templates.len(),
                Err(x) => r == Err::<Vec<String>, TransformError>(x),
            },
        decreases children, 0nat,
    {
        let ghost st0 = self@;
        let mut values: Vec<String> = Vec::new();
        let n = children.len();
        let mut i: usize = 0;
        while i < n
            invariant
                n == children.len(),
                i <= n,
                st0 == old(self)@,
                self@.templates.len() >= st0.templates.len(),
                component_children(children@, i as nat, st0) matches Ok((v, st))
                    && values@.map_values(|s: String| s@) == v && self@ == st,
            decreases n - i,
        {
            match &children[i] {
                JsxChild::Text(t) => {
                    let trimmed = trim_str(t.as_str());
                    if trimmed.as_str().unicode_len() > 0 {
                        let mut v = String::from_str("\"");
                        append_escaped(&mut v, trimmed.as_str());
                        v.append("\"");
                        values.push(v);
                    }
                },
                JsxChild::Expression(x) => {
                    match x {
                        JsxExpression::Empty => {},
                        _ => {
                            match self.stringify_expression(x) {
                                Ok(code) => {
                                    values.push(code);
                                },
                                Err(y) => {
                                    assert(component_children(children@, (i + 1) as nat, st0) == Err::<(Seq<Seq<char>>, CompileState), TransformError>(y));
                                    proof {
                                        lemma_component_children_err(children@, (i + 1) as nat, n as nat, st0);
                                    }
                                    return Err(y);
                                },
                            }
                        },
                    }
                },
                JsxChild::Spread(_) => {
                    assert(component_children(children@, (i + 1) as nat, st0) == Err::<(Seq<Seq<char>>, CompileState), TransformError>(TransformError::InvalidJSX(InvalidShape::SpreadChild)));
                    proof {
                        lemma_component_children_err(children@, (i + 1) as nat, n as nat, st0);
                    }
                    return Err(TransformError::InvalidJSX(InvalidShape::SpreadChild));
                },
                JsxChild::Element(c) => {
                    match self.transform_jsx_element(c) {
                        Ok(code) => {
                            values.push(code);
                        },
                        Err(x) => {
                            assert(component_children(children@, (i + 1) as nat, st0) == Err::<(Seq<Seq<char>>, CompileState), TransformError>(x));
                            proof {
                                lemma_component_children_err(children@, (i + 1) as nat, n as nat, st0);
                            }
                            return Err(x);
                        },
                    }
                },
            }
            proof {
                reveal_strlit("\"");
            }
            assert(component_children(children@, (i + 1) as nat, st0) matches Ok((v, st))
                && values@.map_values(|s: String| s@) =~= v && self@ == st);
            i = i + 1;
        }
        Ok(values)
    }
}

} // verus!
