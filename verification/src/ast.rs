//! The parts of a JavaScript / TypeScript AST that decide the types of tokens.
//!
//! A node which has no rule of its own is a [`Node::Other`]: it only hands on what is inside it.
//! Children stand in the order in which a walk over the AST visits them.

use vstd::prelude::*;

use crate::token::Span;

verus! {

/// A program.
pub struct Program<'a> {
    pub children: Vec<Node<'a>>,
}

/// A node of the AST.
pub enum Node<'a> {
    IdentifierName(Identifier<'a>),
    IdentifierReference(Identifier<'a>),
    BindingIdentifier(Identifier<'a>),
    LabelIdentifier(Identifier<'a>),
    PrivateIdentifier(Identifier<'a>),
    StringLiteral(StringLiteral),
    RegExpLiteral(RegExpLiteral<'a>),
    TemplateLiteral(TemplateLiteral<'a>),
    MetaProperty,
    MemberExpression(MemberExpression<'a>),
    ObjectProperty(ObjectProperty<'a>),
    BindingProperty(BindingProperty<'a>),
    ImportSpecifier(ImportSpecifier<'a>),
    ExportSpecifier(ExportSpecifier<'a>),
    TSTypeQueryExprName(TSTypeQueryExprName<'a>),
    TSTypeName(TSTypeName<'a>),
    TSImportType(TSImportType<'a>),
    TSThisParameter(TSThisParameter<'a>),
    TSTemplateLiteralType(TSTemplateLiteralType<'a>),
    JSXIdentifier(Identifier<'a>),
    JSXElementName(JSXElementName<'a>),
    JSXMemberExpressionObject(JSXMemberExpressionObject<'a>),
    JSXNamespacedName(JSXNamespacedName<'a>),
    JSXExpressionContainer(JSXExpressionContainer<'a>),
    JSXSpreadAttribute(JSXSpreadAttribute<'a>),
    JSXSpreadChild(JSXSpreadChild<'a>),
    JSXText(JSXText),
    JSXAttribute(JSXAttribute<'a>),
    /// A node without a rule of its own.
    Other(Vec<Node<'a>>),
}

/// An identifier, with its name as the parser decoded it.
pub struct Identifier<'a> {
    pub span: Span,
    pub name: &'a str,
}

pub struct StringLiteral {
    pub span: Span,
}

pub struct ThisExpression {
    pub span: Span,
}

pub struct RegExpLiteral<'a> {
    pub span: Span,
    /// The whole literal, as it stands in the source text.
    pub raw: Option<&'a str>,
    /// What stands between the slashes.
    pub pattern: &'a str,
}

/// Text part of a template. Its span does not count the delimiter before it.
pub struct TemplateElement {
    pub span: Span,
}

pub struct TemplateLiteral<'a> {
    pub quasis: Vec<TemplateElement>,
    pub expressions: Vec<Node<'a>>,
}

pub struct TSTemplateLiteralType<'a> {
    pub quasis: Vec<TemplateElement>,
    pub types: Vec<Node<'a>>,
}

/// Which sort of member expression it is.
#[derive(Clone, Copy, Debug, PartialEq, Eq, Structural)]
pub enum MemberExpressionKind {
    /// `a[b]`
    Computed,
    /// `a.b`
    Static,
    /// `a.#b`
    PrivateField,
}

pub struct MemberExpression<'a> {
    pub kind: MemberExpressionKind,
    pub children: Vec<Node<'a>>,
}

/// Key of a property.
pub enum PropertyKey<'a> {
    StaticIdentifier(Identifier<'a>),
    Other(Box<Node<'a>>),
}

/// Property of an object or of a binding pattern.
pub struct Property<'a> {
    pub key: PropertyKey<'a>,
    pub value: Box<Node<'a>>,
    pub shorthand: bool,
}

/// Property of an object.
pub type ObjectProperty<'a> = Property<'a>;

/// Property of a binding pattern.
pub type BindingProperty<'a> = Property<'a>;

/// Property of an object, or what is spread into it.
pub enum ObjectPropertyKind<'a> {
    ObjectProperty(ObjectProperty<'a>),
    SpreadProperty(Box<Node<'a>>),
}

/// Name under which a module imports or exports something.
pub enum ModuleExportName<'a> {
    IdentifierName(Identifier<'a>),
    IdentifierReference(Identifier<'a>),
    StringLiteral(StringLiteral),
}

pub struct ImportSpecifier<'a> {
    pub imported: ModuleExportName<'a>,
    pub local: Identifier<'a>,
}

pub struct ExportSpecifier<'a> {
    pub local: ModuleExportName<'a>,
    pub exported: ModuleExportName<'a>,
}

/// What `typeof` is applied to in a type.
pub enum TSTypeQueryExprName<'a> {
    ThisExpression(ThisExpression),
    IdentifierReference(Identifier<'a>),
    TSImportType(Box<TSImportType<'a>>),
    QualifiedName(Vec<Node<'a>>),
}

/// Name of a type.
pub enum TSTypeName<'a> {
    ThisExpression(ThisExpression),
    IdentifierReference(Identifier<'a>),
    QualifiedName(Vec<Node<'a>>),
}

pub struct TSImportType<'a> {
    pub source: StringLiteral,
    /// Properties of the object that follows the source.
    pub options: Option<Vec<ObjectPropertyKind<'a>>>,
    pub qualifier: Option<Box<Node<'a>>>,
    pub type_arguments: Option<Box<Node<'a>>>,
}

pub struct TSThisParameter<'a> {
    pub this_span: Span,
    pub children: Vec<Node<'a>>,
}

/// Name of a JSX element.
pub enum JSXElementName<'a> {
    IdentifierReference(Identifier<'a>),
    Other(Vec<Node<'a>>),
}

/// Object of a JSX member expression.
pub enum JSXMemberExpressionObject<'a> {
    IdentifierReference(Identifier<'a>),
    Other(Vec<Node<'a>>),
}

pub struct JSXNamespacedName<'a> {
    pub namespace: Identifier<'a>,
    pub name: Identifier<'a>,
}

pub struct JSXExpressionContainer<'a> {
    pub children: Vec<Node<'a>>,
}

pub struct JSXSpreadAttribute<'a> {
    pub children: Vec<Node<'a>>,
}

pub struct JSXSpreadChild<'a> {
    pub children: Vec<Node<'a>>,
}

pub struct JSXText {
    pub span: Span,
}

/// Value of a JSX attribute.
pub enum JSXAttributeValue<'a> {
    StringLiteral(StringLiteral),
    Other(Box<Node<'a>>),
}

pub struct JSXAttribute<'a> {
    pub name: Box<Node<'a>>,
    pub value: Option<JSXAttributeValue<'a>>,
}

impl<'a> ModuleExportName<'a> {
    pub open spec fn spec_span(&self) -> Span {
        match self {
            ModuleExportName::IdentifierName(identifier) => identifier.span,
            ModuleExportName::IdentifierReference(identifier) => identifier.span,
            ModuleExportName::StringLiteral(literal) => literal.span,
        }
    }

    pub fn span(&self) -> (span: Span)
        ensures
            span == self.spec_span(),
    {
        match self {
            ModuleExportName::IdentifierName(identifier) => identifier.span,
            ModuleExportName::IdentifierReference(identifier) => identifier.span,
            ModuleExportName::StringLiteral(literal) => literal.span,
        }
    }
}

} // verus!
