//! The element trees and the program shapes that the compiler reads.
//!
//! A host parser fills these from its own syntax tree; every piece of source
//! text that the compiler re-emits is held here as a plain string.

use vstd::prelude::*;

verus! {

/// The tag-name shape of an element.
#[derive(Debug, Clone, PartialEq)]
pub enum ElementName {
    /// A plain identifier tag such as `div`; a built-in structural name written this way
    /// still denotes that component.
    Identifier(String),
    /// A capitalised name such as `Show` or `Counter`: a component.
    IdentifierReference(String),
    /// `ns:name`.
    NamespacedName(String, String),
    /// `a.b.c`, held as its source text.
    MemberExpression(String),
    /// `this` or `this.x`.
    ThisExpression,
}

/// The name of an attribute.
#[derive(Debug, Clone)]
pub enum AttributeName {
    Identifier(String),
    NamespacedName(String, String),
}

/// A stretch of an embedded expression: source text, or an element tree inside it.
#[derive(Debug)]
pub enum CodePiece {
    Text(String),
    Element(JsxElement),
}

/// An expression embedded in an element tree.
#[derive(Debug)]
pub enum JsxExpression {
    Identifier(String),
    /// A string literal, by its value.
    StringLiteral(String),
    /// A numeric literal, by its source text.
    NumericLiteral(String),
    /// An empty container such as `{/* note */}`.
    Empty,
    /// Any other expression: its source text, cut where element trees stand inside it.
    Other(Vec<CodePiece>),
}

/// The value given to an attribute.
#[derive(Debug)]
pub enum AttributeValue {
    StringLiteral(String),
    Expression(JsxExpression),
}

/// One item of an element's attribute list.
#[derive(Debug)]
pub enum JsxAttribute {
    /// `name`, `name="v"` or `name={e}`.
    Attribute(AttributeName, Option<AttributeValue>),
    /// `{...e}`.
    Spread(JsxExpression),
}

/// A child of an element.
#[derive(Debug)]
pub enum JsxChild {
    Text(String),
    Element(JsxElement),
    Expression(JsxExpression),
    /// `{...e}` among the children.
    Spread(JsxExpression),
}

/// An element tree: a tag name, attributes in source order and children in order.
#[derive(Debug)]
pub struct JsxElement {
    pub name: ElementName,
    pub attributes: Vec<JsxAttribute>,
    pub children: Vec<JsxChild>,
    /// Whether the source wrote a closing tag (`<a></a>` rather than `<a/>`).
    pub has_closing: bool,
    /// Where the element stands in the source, in characters; `0..0` when unknown.
    pub start: usize,
    pub end: usize,
}

/// An expression position of the program where an element tree may stand.
#[derive(Debug)]
pub enum Expression {
    /// An element tree, with the character range `start..end` it occupies in the source.
    Element(JsxElement, usize, usize),
    Parenthesized(Box<Expression>),
    /// An assignment, by its right-hand side.
    Assignment(Box<Expression>),
    /// A call, by its arguments.
    Call(Vec<Expression>),
    /// An arrow function with an expression body.
    ArrowExpression(Box<Expression>),
    /// An arrow function with a block body.
    ArrowBlock(Vec<Statement>),
    /// Any other expression, by the element trees inside it, in source order.
    Other(Vec<Expression>),
}

/// A statement of the program.
#[derive(Debug)]
pub enum Statement {
    /// A function declaration, by the statements of its body.
    Function(Vec<Statement>),
    Return(Option<Expression>),
    /// A variable declaration, by the initialisers of its declarators.
    Variable(Vec<Option<Expression>>),
    Expression(Expression),
    /// Any other statement (a conditional, a loop, a block, ...), by the element trees
    /// inside it, in source order.
    Other(Vec<Expression>),
}

/// A parsed program: its source text and its top-level statements.
#[derive(Debug)]
pub struct Program {
    pub source: String,
    pub body: Vec<Statement>,
}

} // verus!
