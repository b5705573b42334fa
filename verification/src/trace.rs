//! What a walk over an AST asks for, token by token.

use vstd::prelude::*;

use crate::ast::{
    ExportSpecifier, Identifier, ImportSpecifier, JSXAttribute, JSXAttributeValue,
    JSXElementName, JSXMemberExpressionObject, JSXNamespacedName, JSXText, MemberExpression,
    ModuleExportName, Node, ObjectPropertyKind, Program, Property, PropertyKey,
    RegExpLiteral, StringLiteral, TSImportType, TSThisParameter, TSTypeName, TSTypeQueryExprName,
    TemplateElement,
};
use crate::config::JSXState;

verus! {

/// A request to emit the token at `start` with a type of its own.
pub enum Action {
    /// As an identifier.
    Identifier { start: int, name: Seq<char> },
    /// The keyword `this`, as an identifier.
    ThisIdentifier { start: int },
    /// As a JSX identifier.
    JSXIdentifier { start: int, name: Seq<char> },
    /// A string in a JSX attribute, as JSX text.
    JSXText { start: int },
    /// As a private identifier.
    PrivateIdentifier { start: int, name: Seq<char> },
    /// As `token_type`, with a value which JSON may have to escape.
    UnsafeToken { start: int, token_type: Seq<char> },
    /// As a regular expression.
    RegExp { start: int, raw: Option<Seq<char>>, pattern: Seq<char> },
}

impl Action {
    /// Where the token is that the request is for.
    pub open spec fn start(self) -> int {
        match self {
            Action::Identifier { start, .. } => start,
            Action::ThisIdentifier { start } => start,
            Action::JSXIdentifier { start, .. } => start,
            Action::JSXText { start } => start,
            Action::PrivateIdentifier { start, .. } => start,
            Action::UnsafeToken { start, .. } => start,
            Action::RegExp { start, .. } => start,
        }
    }
}

/// Requests of a walk over a part of an AST, and the JSX state after it.
#[verifier::reject_recursive_types(J)]
pub struct Trace<J> {
    pub actions: Seq<Action>,
    pub jsx: J,
}

impl<J> Trace<J> {
    /// A walk which asks for nothing.
    pub open spec fn none(jsx: J) -> Trace<J> {
        Trace { actions: Seq::empty(), jsx }
    }

    /// A walk which asks for one thing.
    pub open spec fn one(action: Action, jsx: J) -> Trace<J> {
        Trace { actions: seq![action], jsx }
    }

    /// This walk, and then `next`.
    pub open spec fn then_trace(self, next: Trace<J>) -> Trace<J> {
        Trace { actions: self.actions + next.actions, jsx: next.jsx }
    }
}

/// What the requests depend on besides the AST and the JSX state.
pub struct Style {
    /// Is it TS style?
    pub ts: bool,
    /// Are the text parts of templates asked for?
    pub quasis: bool,
}

/// An identifier which may be a JSX identifier.
pub open spec fn identifier_trace<J: JSXState>(
    identifier: Identifier<'_>,
    style: Style,
    jsx: J,
) -> Trace<J> {
    if style.ts && jsx.spec_should_emit_jsx_identifier() {
        jsx_identifier_trace(identifier, jsx)
    } else {
        plain_identifier_trace(identifier, jsx)
    }
}

/// An identifier which is never a JSX identifier.
pub open spec fn plain_identifier_trace<J>(identifier: Identifier<'_>, jsx: J) -> Trace<J> {
    Trace::one(
        Action::Identifier { start: identifier.span.start as int, name: identifier.name@ },
        jsx,
    )
}

/// An identifier which is always a JSX identifier.
pub open spec fn jsx_identifier_trace<J>(identifier: Identifier<'_>, jsx: J) -> Trace<J> {
    Trace::one(
        Action::JSXIdentifier { start: identifier.span.start as int, name: identifier.name@ },
        jsx,
    )
}

/// The keyword `this` at `start`.
pub open spec fn this_trace<J>(start: u32, jsx: J) -> Trace<J> {
    Trace::one(Action::ThisIdentifier { start: start as int }, jsx)
}

/// A string literal.
pub open spec fn string_trace<J>(literal: StringLiteral, jsx: J) -> Trace<J> {
    Trace::one(
        Action::UnsafeToken { start: literal.span.start as int, token_type: "String"@ },
        jsx,
    )
}

/// A regular expression.
pub open spec fn regexp_action(regexp: RegExpLiteral<'_>) -> Action {
    Action::RegExp {
        start: regexp.span.start as int,
        raw: match regexp.raw {
            Some(raw) => Some(raw@),
            None => None,
        },
        pattern: regexp.pattern@,
    }
}

/// A private identifier.
pub open spec fn private_identifier_trace<J>(identifier: Identifier<'_>, jsx: J) -> Trace<J> {
    Trace::one(
        Action::PrivateIdentifier { start: identifier.span.start as int, name: identifier.name@ },
        jsx,
    )
}

/// JSX text.
pub open spec fn jsx_text_trace<J>(text: JSXText, jsx: J) -> Trace<J> {
    Trace::one(Action::UnsafeToken { start: text.span.start as int, token_type: "JSXText"@ }, jsx)
}

/// A text part of a template. Its token starts with the delimiter, one byte before its span.
pub open spec fn quasi_action(quasi: TemplateElement) -> Action {
    Action::UnsafeToken { start: quasi.span.start - 1, token_type: "Template"@ }
}

/// The name under which a module imports or exports something.
pub open spec fn module_export_name_trace<J: JSXState>(
    name: ModuleExportName<'_>,
    style: Style,
    jsx: J,
) -> Trace<J> {
    match name {
        ModuleExportName::IdentifierName(identifier) => identifier_trace(identifier, style, jsx),
        ModuleExportName::IdentifierReference(identifier) => identifier_trace(
            identifier,
            style,
            jsx,
        ),
        ModuleExportName::StringLiteral(literal) => string_trace(literal, jsx),
    }
}

/// An import specifier. The two names of `import { x }` are one token.
pub open spec fn import_specifier_trace<J: JSXState>(
    specifier: ImportSpecifier<'_>,
    style: Style,
    jsx: J,
) -> Trace<J> {
    if specifier.imported.spec_span() != specifier.local.span {
        let imported = module_export_name_trace(specifier.imported, style, jsx);
        imported.then_trace(plain_identifier_trace(specifier.local, imported.jsx))
    } else {
        plain_identifier_trace(specifier.local, jsx)
    }
}

/// An export specifier. The two names of `export { x }` are one token.
pub open spec fn export_specifier_trace<J: JSXState>(
    specifier: ExportSpecifier<'_>,
    style: Style,
    jsx: J,
) -> Trace<J> {
    let local = module_export_name_trace(specifier.local, style, jsx);
    if specifier.exported.spec_span() != specifier.local.spec_span() {
        local.then_trace(module_export_name_trace(specifier.exported, style, local.jsx))
    } else {
        local
    }
}

/// A JSX name with a namespace. In TS style its two tokens keep their default types.
pub open spec fn jsx_namespaced_name_trace<J>(
    name: JSXNamespacedName<'_>,
    style: Style,
    jsx: J,
) -> Trace<J> {
    if style.ts {
        Trace::none(jsx)
    } else {
        jsx_identifier_trace(name.namespace, jsx).then_trace(jsx_identifier_trace(name.name, jsx))
    }
}

/// The first `n` of `nodes`, one after the other.
pub open spec fn nodes_trace<J: JSXState>(
    nodes: Seq<Node<'_>>,
    n: nat,
    style: Style,
    jsx: J,
) -> Trace<J>
    decreases nodes, n,
{
    if n == 0 || n > nodes.len() {
        Trace::none(jsx)
    } else {
        let before = nodes_trace(nodes, (n - 1) as nat, style, jsx);
        before.then_trace(node_trace(nodes[n - 1], style, before.jsx))
    }
}

/// What is inside a JSX expression.
pub open spec fn jsx_expression_trace<J: JSXState>(
    children: Seq<Node<'_>>,
    style: Style,
    jsx: J,
) -> Trace<J>
    decreases children, children.len() + 1,
{
    let inside = nodes_trace(children, children.len(), style, jsx.spec_enter_jsx_expression());
    Trace { actions: inside.actions, jsx: inside.jsx.spec_exit_jsx_expression() }
}

/// How many of the interpolated parts of a template have a text part after them.
pub open spec fn interleaved_parts(quasis: Seq<TemplateElement>, parts: Seq<Node<'_>>) -> nat {
    if quasis.len() == 0 {
        0
    } else if parts.len() < quasis.len() {
        parts.len()
    } else {
        (quasis.len() - 1) as nat
    }
}

/// The first text part of a template, and then the first `n` interpolated parts, each with the
/// text part that follows it.
pub open spec fn interleaved_trace<J: JSXState>(
    quasis: Seq<TemplateElement>,
    parts: Seq<Node<'_>>,
    n: nat,
    style: Style,
    jsx: J,
) -> Trace<J>
    decreases parts, n,
{
    if n == 0 || n > parts.len() {
        if quasis.len() == 0 {
            Trace::none(jsx)
        } else {
            Trace::one(quasi_action(quasis[0]), jsx)
        }
    } else {
        let before = interleaved_trace(quasis, parts, (n - 1) as nat, style, jsx);
        let part = before.then_trace(node_trace(parts[n - 1], style, before.jsx));
        part.then_trace(Trace::one(quasi_action(quasis[n as int]), part.jsx))
    }
}

/// A template with the text parts `quasis` and the interpolated parts `parts`.
pub open spec fn template_trace<J: JSXState>(
    quasis: Seq<TemplateElement>,
    parts: Seq<Node<'_>>,
    style: Style,
    jsx: J,
) -> Trace<J>
    decreases parts, parts.len() + 1,
{
    if style.quasis {
        interleaved_trace(quasis, parts, interleaved_parts(quasis, parts), style, jsx)
    } else {
        nodes_trace(parts, parts.len(), style, jsx)
    }
}

/// The key of a property.
pub open spec fn property_key_trace<J: JSXState>(
    key: PropertyKey<'_>,
    style: Style,
    jsx: J,
) -> Trace<J>
    decreases key, 0nat,
{
    match key {
        PropertyKey::StaticIdentifier(identifier) => identifier_trace(identifier, style, jsx),
        PropertyKey::Other(key) => node_trace(*key, style, jsx),
    }
}

/// The key of a property, unless it is skipped, and then the value.
pub open spec fn property_trace<J: JSXState>(
    property: Property<'_>,
    skip_key: bool,
    style: Style,
    jsx: J,
) -> Trace<J>
    decreases property, 0nat,
{
    if skip_key {
        node_trace(*property.value, style, jsx)
    } else {
        let key = property_key_trace(property.key, style, jsx);
        key.then_trace(node_trace(*property.value, style, key.jsx))
    }
}

/// Is `key` the key `with`, which stays a keyword in the options of an import type?
pub open spec fn is_with_key(key: PropertyKey<'_>) -> bool {
    key matches PropertyKey::StaticIdentifier(identifier) && identifier.name@ == "with"@
}

/// A property in the options of an import type.
pub open spec fn import_option_trace<J: JSXState>(
    property: ObjectPropertyKind<'_>,
    style: Style,
    jsx: J,
) -> Trace<J>
    decreases property, 0nat,
{
    match property {
        ObjectPropertyKind::ObjectProperty(property) => property_trace(
            property,
            is_with_key(property.key),
            style,
            jsx,
        ),
        ObjectPropertyKind::SpreadProperty(spread) => node_trace(*spread, style, jsx),
    }
}

/// The first `n` properties in the options of an import type.
pub open spec fn import_options_trace<J: JSXState>(
    properties: Seq<ObjectPropertyKind<'_>>,
    n: nat,
    style: Style,
    jsx: J,
) -> Trace<J>
    decreases properties, n,
{
    if n == 0 || n > properties.len() {
        Trace::none(jsx)
    } else {
        let before = import_options_trace(properties, (n - 1) as nat, style, jsx);
        before.then_trace(import_option_trace(properties[n - 1], style, before.jsx))
    }
}

/// An import type: its source, its options, its qualifier and its type arguments.
pub open spec fn import_type_trace<J: JSXState>(
    import_type: TSImportType<'_>,
    style: Style,
    jsx: J,
) -> Trace<J>
    decreases import_type, 0nat,
{
    let source = string_trace(import_type.source, jsx);
    let options = match import_type.options {
        Some(options) => source.then_trace(
            import_options_trace(options@, options@.len(), style, source.jsx),
        ),
        None => source,
    };
    let qualifier = match import_type.qualifier {
        Some(qualifier) => options.then_trace(node_trace(*qualifier, style, options.jsx)),
        None => options,
    };
    match import_type.type_arguments {
        Some(arguments) => qualifier.then_trace(node_trace(*arguments, style, qualifier.jsx)),
        None => qualifier,
    }
}

/// What `typeof` is applied to in a type. `this` is an identifier there.
pub open spec fn type_query_expr_name_trace<J: JSXState>(
    expr_name: TSTypeQueryExprName<'_>,
    style: Style,
    jsx: J,
) -> Trace<J>
    decreases expr_name, 0nat,
{
    match expr_name {
        TSTypeQueryExprName::ThisExpression(this_expr) => this_trace(this_expr.span.start, jsx),
        TSTypeQueryExprName::IdentifierReference(ident) => identifier_trace(ident, style, jsx),
        TSTypeQueryExprName::TSImportType(import_type) => import_type_trace(
            *import_type,
            style,
            jsx,
        ),
        TSTypeQueryExprName::QualifiedName(parts) => nodes_trace(parts@, parts@.len(), style, jsx),
    }
}

/// The name of a type. `this` is an identifier there.
pub open spec fn type_name_trace<J: JSXState>(
    ts_name: TSTypeName<'_>,
    style: Style,
    jsx: J,
) -> Trace<J>
    decreases ts_name, 0nat,
{
    match ts_name {
        TSTypeName::ThisExpression(this_expr) => this_trace(this_expr.span.start, jsx),
        TSTypeName::IdentifierReference(ident) => identifier_trace(ident, style, jsx),
        TSTypeName::QualifiedName(parts) => nodes_trace(parts@, parts@.len(), style, jsx),
    }
}

/// A `this` parameter: `this` itself is an identifier.
pub open spec fn this_parameter_trace<J: JSXState>(
    parameter: TSThisParameter<'_>,
    style: Style,
    jsx: J,
) -> Trace<J>
    decreases parameter, 0nat,
{
    this_trace(parameter.this_span.start, jsx).then_trace(
        nodes_trace(parameter.children@, parameter.children@.len(), style, jsx),
    )
}

/// A member expression: what is inside it, between entering and leaving it.
pub open spec fn member_expression_trace<J: JSXState>(
    member_expr: MemberExpression<'_>,
    style: Style,
    jsx: J,
) -> Trace<J>
    decreases member_expr, 0nat,
{
    let inside = nodes_trace(
        member_expr.children@,
        member_expr.children@.len(),
        style,
        jsx.spec_enter_member_expression(member_expr),
    );
    Trace { actions: inside.actions, jsx: inside.jsx.spec_exit_member_expression(member_expr) }
}

/// The name of a JSX element. A plain name is a JSX identifier.
pub open spec fn jsx_element_name_trace<J: JSXState>(
    name: JSXElementName<'_>,
    style: Style,
    jsx: J,
) -> Trace<J>
    decreases name, 0nat,
{
    match name {
        JSXElementName::IdentifierReference(identifier) => jsx_identifier_trace(identifier, jsx),
        JSXElementName::Other(children) => nodes_trace(children@, children@.len(), style, jsx),
    }
}

/// The object of a JSX member expression. A plain name is a JSX identifier.
pub open spec fn jsx_member_expression_object_trace<J: JSXState>(
    object: JSXMemberExpressionObject<'_>,
    style: Style,
    jsx: J,
) -> Trace<J>
    decreases object, 0nat,
{
    match object {
        JSXMemberExpressionObject::IdentifierReference(identifier) => jsx_identifier_trace(
            identifier,
            jsx,
        ),
        JSXMemberExpressionObject::Other(children) => nodes_trace(
            children@,
            children@.len(),
            style,
            jsx,
        ),
    }
}

/// A JSX attribute. A string as its value is JSX text.
pub open spec fn jsx_attribute_trace<J: JSXState>(
    attribute: JSXAttribute<'_>,
    style: Style,
    jsx: J,
) -> Trace<J>
    decreases attribute, 0nat,
{
    let name = node_trace(*attribute.name, style, jsx);
    match attribute.value {
        Some(JSXAttributeValue::StringLiteral(literal)) => name.then_trace(
            Trace::one(Action::JSXText { start: literal.span.start as int }, name.jsx),
        ),
        Some(JSXAttributeValue::Other(value)) => name.then_trace(
            node_trace(*value, style, name.jsx),
        ),
        None => name,
    }
}

/// A node of any sort.
pub open spec fn node_trace<J: JSXState>(node: Node<'_>, style: Style, jsx: J) -> Trace<J>
    decreases node, 0nat,
{
    match node {
        Node::IdentifierName(identifier) => identifier_trace(identifier, style, jsx),
        Node::IdentifierReference(identifier) => identifier_trace(identifier, style, jsx),
        Node::BindingIdentifier(identifier) => plain_identifier_trace(identifier, jsx),
        Node::LabelIdentifier(identifier) => plain_identifier_trace(identifier, jsx),
        Node::PrivateIdentifier(identifier) => private_identifier_trace(identifier, jsx),
        Node::StringLiteral(literal) => string_trace(literal, jsx),
        Node::RegExpLiteral(regexp) => Trace::one(regexp_action(regexp), jsx),
        Node::TemplateLiteral(literal) => template_trace(
            literal.quasis@,
            literal.expressions@,
            style,
            jsx,
        ),
        Node::MetaProperty => Trace::none(jsx),
        Node::MemberExpression(member_expr) => member_expression_trace(member_expr, style, jsx),
        // Key and value of a shorthand property are one token.
        Node::ObjectProperty(property) => property_trace(
            property,
            property.shorthand,
            style,
            jsx,
        ),
        Node::BindingProperty(property) => property_trace(
            property,
            property.shorthand,
            style,
            jsx,
        ),
        Node::ImportSpecifier(specifier) => import_specifier_trace(specifier, style, jsx),
        Node::ExportSpecifier(specifier) => export_specifier_trace(specifier, style, jsx),
        Node::TSTypeQueryExprName(expr_name) => type_query_expr_name_trace(expr_name, style, jsx),
        Node::TSTypeName(ts_name) => type_name_trace(ts_name, style, jsx),
        Node::TSImportType(import_type) => import_type_trace(import_type, style, jsx),
        Node::TSThisParameter(parameter) => this_parameter_trace(parameter, style, jsx),
        Node::TSTemplateLiteralType(literal) => template_trace(
            literal.quasis@,
            literal.types@,
            style,
            jsx,
        ),
        Node::JSXIdentifier(identifier) => jsx_identifier_trace(identifier, jsx),
        Node::JSXElementName(name) => jsx_element_name_trace(name, style, jsx),
        Node::JSXMemberExpressionObject(object) => jsx_member_expression_object_trace(
            object,
            style,
            jsx,
        ),
        Node::JSXNamespacedName(name) => jsx_namespaced_name_trace(name, style, jsx),
        Node::JSXExpressionContainer(container) => jsx_expression_trace(
            container.children@,
            style,
            jsx,
        ),
        Node::JSXSpreadAttribute(attribute) => jsx_expression_trace(
            attribute.children@,
            style,
            jsx,
        ),
        Node::JSXSpreadChild(child) => jsx_expression_trace(child.children@, style, jsx),
        Node::JSXText(text) => jsx_text_trace(text, jsx),
        Node::JSXAttribute(attribute) => jsx_attribute_trace(attribute, style, jsx),
        Node::Other(children) => nodes_trace(children@, children@.len(), style, jsx),
    }
}

/// A whole program.
pub open spec fn program_trace<J: JSXState>(program: Program<'_>, style: Style, jsx: J) -> Trace<J> {
    nodes_trace(program.children@, program.children@.len(), style, jsx)
}

} // verus!
