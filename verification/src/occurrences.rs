//! Which names, strings and other leaves of an AST are asked for, and in which order.
//!
//! What is asked for is said here leaf by leaf, without following any walk: a leaf is asked for if it
//! stands somewhere in the AST. Exceptions are the keys of shorthand properties and the second names
//! of specifiers, which are one token with what stands beside them, the key `with` in the options of
//! an import type, the names in meta properties, and, in TS style, JSX names with a namespace.

use vstd::prelude::*;

use crate::ast::{
    ExportSpecifier, Identifier, ImportSpecifier, JSXAttribute, JSXAttributeValue, JSXElementName,
    JSXMemberExpressionObject, JSXNamespacedName, MemberExpression, ModuleExportName, Node,
    ObjectPropertyKind, Program, Property, PropertyKey, TSImportType, TSThisParameter, TSTypeName,
    TSTypeQueryExprName, TemplateElement,
};
use crate::config::{ESTreeTokenConfig, JSXState};
use crate::serialize::requests;
use crate::token::Span;
use crate::trace::{
    export_specifier_trace, identifier_trace, import_option_trace, import_options_trace, import_specifier_trace,
    import_type_trace, interleaved_parts, interleaved_trace, jsx_attribute_trace,
    jsx_element_name_trace,
    jsx_expression_trace, jsx_member_expression_object_trace, jsx_namespaced_name_trace,
    jsx_identifier_trace, member_expression_trace, module_export_name_trace, node_trace,
    nodes_trace, plain_identifier_trace, property_key_trace, property_trace, quasi_action, regexp_action,
    string_trace, template_trace, this_parameter_trace, this_trace, type_name_trace,
    type_query_expr_name_trace, Action, Style, Trace,
};
use crate::walks::{
    import_option_complete, import_options_complete, import_type_complete, is_balanced,
    jsx_attribute_complete, jsx_element_name_complete, jsx_member_expression_object_complete,
    node_complete, nodes_complete, property_complete, property_key_complete, template_complete,
    type_name_complete, type_query_expr_name_complete,
};

verus! {

/// Is `action` a request for `identifier` as an identifier?
pub open spec fn is_name(identifier: Identifier<'_>, action: Action) -> bool {
    action == Action::Identifier { start: identifier.span.start as int, name: identifier.name@ }
}

/// Is `action` a request for `identifier` as a JSX identifier?
pub open spec fn is_jsx_name(identifier: Identifier<'_>, action: Action) -> bool {
    action == Action::JSXIdentifier { start: identifier.span.start as int, name: identifier.name@ }
}

/// Is `action` a request for the token at `start`, with its source text, as `token_type`?
pub open spec fn is_text(start: int, token_type: Seq<char>, action: Action) -> bool {
    action == Action::UnsafeToken { start, token_type }
}

/// Is `action` a request for `identifier`? In TS style the JSX state may make it a JSX identifier.
pub open spec fn asks_name<J: JSXState>(
    identifier: Identifier<'_>,
    action: Action,
    style: Style,
    jsx: J,
) -> bool {
    if style.ts && jsx.spec_should_emit_jsx_identifier() {
        is_jsx_name(identifier, action)
    } else {
        is_name(identifier, action)
    }
}

/// Where `name` stands.
pub open spec fn export_name_span(name: ModuleExportName<'_>) -> Span {
    match name {
        ModuleExportName::IdentifierName(identifier) => identifier.span,
        ModuleExportName::IdentifierReference(identifier) => identifier.span,
        ModuleExportName::StringLiteral(literal) => literal.span,
    }
}

/// Is `action` asked for by the name under which a module imports or exports something?
pub open spec fn asks_export_name<J: JSXState>(
    name: ModuleExportName<'_>,
    action: Action,
    style: Style,
    jsx: J,
) -> bool {
    match name {
        ModuleExportName::IdentifierName(identifier) => asks_name(identifier, action, style, jsx),
        ModuleExportName::IdentifierReference(identifier) => asks_name(identifier, action, style, jsx),
        ModuleExportName::StringLiteral(literal) => is_text(
            literal.span.start as int,
            "String"@,
            action,
        ),
    }
}

/// Is `action` asked for by an import specifier?
pub open spec fn asks_import_specifier<J: JSXState>(
    specifier: ImportSpecifier<'_>,
    action: Action,
    style: Style,
    jsx: J,
) -> bool {
    ||| is_name(specifier.local, action)
    ||| export_name_span(specifier.imported) != specifier.local.span && asks_export_name(
        specifier.imported,
        action,
        style,
        jsx,
    )
}

/// Is `action` asked for by an export specifier?
pub open spec fn asks_export_specifier<J: JSXState>(
    specifier: ExportSpecifier<'_>,
    action: Action,
    style: Style,
    jsx: J,
) -> bool {
    ||| asks_export_name(specifier.local, action, style, jsx)
    ||| export_name_span(specifier.exported) != export_name_span(specifier.local)
        && asks_export_name(specifier.exported, action, style, jsx)
}

/// Is `action` asked for by a JSX name with a namespace?
pub open spec fn asks_jsx_namespaced_name<J: JSXState>(
    name: JSXNamespacedName<'_>,
    action: Action,
    style: Style,
    jsx: J,
) -> bool {
    !style.ts && (is_jsx_name(name.namespace, action) || is_jsx_name(name.name, action))
}

/// Is `action` asked for by a text part of a template?
pub open spec fn asks_quasis(quasis: Seq<TemplateElement>, action: Action) -> bool {
    exists|i: int|
        0 <= i < quasis.len() && is_text(
            (#[trigger] quasis[i]).span.start - 1,
            "Template"@,
            action,
        )
}

/// Is `action` asked for by one of `nodes`?
pub open spec fn asks_nodes<J: JSXState>(
    nodes: Seq<Node<'_>>,
    action: Action,
    style: Style,
    jsx: J,
) -> bool
    decreases nodes, 1nat,
{
    exists|i: int| 0 <= i < nodes.len() && asks_node(#[trigger] nodes[i], action, style, jsx)
}

/// Is `action` asked for by a template?
pub open spec fn asks_template<J: JSXState>(
    quasis: Seq<TemplateElement>,
    parts: Seq<Node<'_>>,
    action: Action,
    style: Style,
    jsx: J,
) -> bool
    decreases parts, 2nat,
{
    ||| style.quasis && asks_quasis(quasis, action)
    ||| asks_nodes(parts, action, style, jsx)
}

/// Is `action` asked for by a property? `skip_key` says whether its key is left out.
pub open spec fn asks_property<J: JSXState>(
    property: Property<'_>,
    skip_key: bool,
    action: Action,
    style: Style,
    jsx: J,
) -> bool
    decreases property, 0nat,
{
    ||| !skip_key && asks_property_key(property.key, action, style, jsx)
    ||| asks_node(*property.value, action, style, jsx)
}

/// Is `action` asked for by the key of a property?
pub open spec fn asks_property_key<J: JSXState>(
    key: PropertyKey<'_>,
    action: Action,
    style: Style,
    jsx: J,
) -> bool
    decreases key, 0nat,
{
    match key {
        PropertyKey::StaticIdentifier(identifier) => asks_name(identifier, action, style, jsx),
        PropertyKey::Other(key) => asks_node(*key, action, style, jsx),
    }
}

/// Is `key` the key `with`?
pub open spec fn is_key_with(key: PropertyKey<'_>) -> bool {
    key matches PropertyKey::StaticIdentifier(identifier) && identifier.name@ == "with"@
}

/// Is `action` asked for by a property in the options of an import type?
pub open spec fn asks_import_option<J: JSXState>(
    property: ObjectPropertyKind<'_>,
    action: Action,
    style: Style,
    jsx: J,
) -> bool
    decreases property, 0nat,
{
    match property {
        ObjectPropertyKind::ObjectProperty(property) => asks_property(
            property,
            is_key_with(property.key),
            action,
            style,
            jsx,
        ),
        ObjectPropertyKind::SpreadProperty(spread) => asks_node(*spread, action, style, jsx),
    }
}

/// Is `action` asked for by the options of an import type?
pub open spec fn asks_import_options<J: JSXState>(
    properties: Seq<ObjectPropertyKind<'_>>,
    action: Action,
    style: Style,
    jsx: J,
) -> bool
    decreases properties, 1nat,
{
    exists|i: int|
        0 <= i < properties.len() && asks_import_option(
            #[trigger] properties[i],
            action,
            style,
            jsx,
        )
}

/// Is `action` asked for by an import type?
pub open spec fn asks_import_type<J: JSXState>(
    import_type: TSImportType<'_>,
    action: Action,
    style: Style,
    jsx: J,
) -> bool
    decreases import_type, 0nat,
{
    ||| is_text(import_type.source.span.start as int, "String"@, action)
    ||| import_type.options matches Some(options) && asks_import_options(
        options@,
        action,
        style,
        jsx,
    )
    ||| import_type.qualifier matches Some(qualifier) && asks_node(*qualifier, action, style, jsx)
    ||| import_type.type_arguments matches Some(arguments) && asks_node(
        *arguments,
        action,
        style,
        jsx,
    )
}

/// Is `action` asked for by what `typeof` is applied to?
pub open spec fn asks_type_query_expr_name<J: JSXState>(
    expr_name: TSTypeQueryExprName<'_>,
    action: Action,
    style: Style,
    jsx: J,
) -> bool
    decreases expr_name, 0nat,
{
    match expr_name {
        TSTypeQueryExprName::ThisExpression(this_expr) => action == (Action::ThisIdentifier {
            start: this_expr.span.start as int,
        }),
        TSTypeQueryExprName::IdentifierReference(ident) => asks_name(ident, action, style, jsx),
        TSTypeQueryExprName::TSImportType(import_type) => asks_import_type(
            *import_type,
            action,
            style,
            jsx,
        ),
        TSTypeQueryExprName::QualifiedName(parts) => asks_nodes(parts@, action, style, jsx),
    }
}

/// Is `action` asked for by the name of a type?
pub open spec fn asks_type_name<J: JSXState>(
    ts_name: TSTypeName<'_>,
    action: Action,
    style: Style,
    jsx: J,
) -> bool
    decreases ts_name, 0nat,
{
    match ts_name {
        TSTypeName::ThisExpression(this_expr) => action == (Action::ThisIdentifier {
            start: this_expr.span.start as int,
        }),
        TSTypeName::IdentifierReference(ident) => asks_name(ident, action, style, jsx),
        TSTypeName::QualifiedName(parts) => asks_nodes(parts@, action, style, jsx),
    }
}

/// Is `action` asked for by a `this` parameter?
pub open spec fn asks_this_parameter<J: JSXState>(
    parameter: TSThisParameter<'_>,
    action: Action,
    style: Style,
    jsx: J,
) -> bool
    decreases parameter, 0nat,
{
    ||| action == (Action::ThisIdentifier { start: parameter.this_span.start as int })
    ||| asks_nodes(parameter.children@, action, style, jsx)
}

/// Is `action` asked for by the name of a JSX element?
pub open spec fn asks_jsx_element_name<J: JSXState>(
    name: JSXElementName<'_>,
    action: Action,
    style: Style,
    jsx: J,
) -> bool
    decreases name, 0nat,
{
    match name {
        JSXElementName::IdentifierReference(identifier) => is_jsx_name(identifier, action),
        JSXElementName::Other(children) => asks_nodes(children@, action, style, jsx),
    }
}

/// Is `action` asked for by the object of a JSX member expression?
pub open spec fn asks_jsx_member_expression_object<J: JSXState>(
    object: JSXMemberExpressionObject<'_>,
    action: Action,
    style: Style,
    jsx: J,
) -> bool
    decreases object, 0nat,
{
    match object {
        JSXMemberExpressionObject::IdentifierReference(identifier) => is_jsx_name(
            identifier,
            action,
        ),
        JSXMemberExpressionObject::Other(children) => asks_nodes(children@, action, style, jsx),
    }
}

/// Is `action` asked for by the value of a JSX attribute?
pub open spec fn asks_jsx_attribute_value<J: JSXState>(
    value: Option<JSXAttributeValue<'_>>,
    action: Action,
    style: Style,
    jsx: J,
) -> bool
    decreases value, 0nat,
{
    match value {
        Some(JSXAttributeValue::StringLiteral(literal)) => action == (Action::JSXText {
            start: literal.span.start as int,
        }),
        Some(JSXAttributeValue::Other(value)) => asks_node(*value, action, style, jsx),
        None => false,
    }
}

/// Is `action` asked for by a JSX attribute?
pub open spec fn asks_jsx_attribute<J: JSXState>(
    attribute: JSXAttribute<'_>,
    action: Action,
    style: Style,
    jsx: J,
) -> bool
    decreases attribute, 0nat,
{
    ||| asks_node(*attribute.name, action, style, jsx)
    ||| asks_jsx_attribute_value(attribute.value, action, style, jsx)
}

/// Is `action` asked for by `node`?
///
/// `jsx` is the JSX state at the node. Only the expressions around a leaf count for its JSX state.
pub open spec fn asks_node<J: JSXState>(
    node: Node<'_>,
    action: Action,
    style: Style,
    jsx: J,
) -> bool
    decreases node, 0nat,
{
    match node {
        Node::IdentifierName(identifier) => asks_name(identifier, action, style, jsx),
        Node::IdentifierReference(identifier) => asks_name(identifier, action, style, jsx),
        Node::BindingIdentifier(identifier) => is_name(identifier, action),
        Node::LabelIdentifier(identifier) => is_name(identifier, action),
        Node::PrivateIdentifier(identifier) => action == (Action::PrivateIdentifier {
            start: identifier.span.start as int,
            name: identifier.name@,
        }),
        Node::StringLiteral(literal) => is_text(literal.span.start as int, "String"@, action),
        Node::RegExpLiteral(regexp) => action == (Action::RegExp {
            start: regexp.span.start as int,
            raw: match regexp.raw {
                Some(raw) => Some(raw@),
                None => None,
            },
            pattern: regexp.pattern@,
        }),
        Node::TemplateLiteral(literal) => asks_template(
            literal.quasis@,
            literal.expressions@,
            action,
            style,
            jsx,
        ),
        Node::MetaProperty => false,
        Node::MemberExpression(member_expr) => asks_nodes(
            member_expr.children@,
            action,
            style,
            jsx.spec_enter_member_expression(member_expr),
        ),
        Node::ObjectProperty(property) => asks_property(
            property,
            property.shorthand,
            action,
            style,
            jsx,
        ),
        Node::BindingProperty(property) => asks_property(
            property,
            property.shorthand,
            action,
            style,
            jsx,
        ),
        Node::ImportSpecifier(specifier) => asks_import_specifier(specifier, action, style, jsx),
        Node::ExportSpecifier(specifier) => asks_export_specifier(specifier, action, style, jsx),
        Node::TSTypeQueryExprName(expr_name) => asks_type_query_expr_name(expr_name, action, style, jsx),
        Node::TSTypeName(ts_name) => asks_type_name(ts_name, action, style, jsx),
        Node::TSImportType(import_type) => asks_import_type(import_type, action, style, jsx),
        Node::TSThisParameter(parameter) => asks_this_parameter(parameter, action, style, jsx),
        Node::TSTemplateLiteralType(literal) => asks_template(
            literal.quasis@,
            literal.types@,
            action,
            style,
            jsx,
        ),
        Node::JSXIdentifier(identifier) => is_jsx_name(identifier, action),
        Node::JSXElementName(name) => asks_jsx_element_name(name, action, style, jsx),
        Node::JSXMemberExpressionObject(object) => asks_jsx_member_expression_object(
            object,
            action,
            style,
            jsx,
        ),
        Node::JSXNamespacedName(name) => asks_jsx_namespaced_name(name, action, style, jsx),
        Node::JSXExpressionContainer(container) => asks_nodes(
            container.children@,
            action,
            style,
            jsx.spec_enter_jsx_expression(),
        ),
        Node::JSXSpreadAttribute(attribute) => asks_nodes(
            attribute.children@,
            action,
            style,
            jsx.spec_enter_jsx_expression(),
        ),
        Node::JSXSpreadChild(child) => asks_nodes(
            child.children@,
            action,
            style,
            jsx.spec_enter_jsx_expression(),
        ),
        Node::JSXText(text) => is_text(text.span.start as int, "JSXText"@, action),
        Node::JSXAttribute(attribute) => asks_jsx_attribute(attribute, action, style, jsx),
        Node::Other(children) => asks_nodes(children@, action, style, jsx),
    }
}

/// Do `actions` ask for one token after the other?
pub open spec fn is_increasing(actions: Seq<Action>) -> bool {
    forall|j: int, k: int|
        0 <= j < k < actions.len() ==> (#[trigger] actions[j]).start() < (
        #[trigger] actions[k]).start()
}

/// Do `nodes` stand in source order, and is the same true of what is inside each of them?
pub open spec fn nodes_ordered<J: JSXState>(nodes: Seq<Node<'_>>, style: Style, jsx: J) -> bool
    decreases nodes, 1nat,
{
    &&& forall|i: int| 0 <= i < nodes.len() ==> node_ordered(#[trigger] nodes[i], style, jsx)
    &&& forall|i: int, j: int, a: Action, b: Action|
        0 <= i < j < nodes.len() && #[trigger] asks_node(nodes[i], a, style, jsx)
            && #[trigger] asks_node(nodes[j], b, style, jsx) ==> a.start() < b.start()
}

/// Do the parts of a template stand in source order?
pub open spec fn template_ordered<J: JSXState>(
    quasis: Seq<TemplateElement>,
    parts: Seq<Node<'_>>,
    style: Style,
    jsx: J,
) -> bool
    decreases parts, 2nat,
{
    &&& nodes_ordered(parts, style, jsx)
    &&& forall|i: int, j: int|
        0 <= i < j < quasis.len() ==> (#[trigger] quasis[i]).span.start < (
        #[trigger] quasis[j]).span.start
    &&& forall|i: int, a: Action|
        0 <= i < parts.len() && #[trigger] asks_node(parts[i], a, style, jsx) ==> quasis[i].span.start
            - 1 < a.start() < quasis[i + 1].span.start - 1
}

/// Does the key of a property stand before its value?
pub open spec fn property_ordered<J: JSXState>(
    property: Property<'_>,
    skip_key: bool,
    style: Style,
    jsx: J,
) -> bool
    decreases property, 0nat,
{
    &&& !skip_key ==> property_key_ordered(property.key, style, jsx)
    &&& node_ordered(*property.value, style, jsx)
    &&& forall|a: Action, b: Action|
        !skip_key && #[trigger] asks_property_key(property.key, a, style, jsx)
            && #[trigger] asks_node(*property.value, b, style, jsx) ==> a.start() < b.start()
}

/// Does the key of a property stand in source order?
pub open spec fn property_key_ordered<J: JSXState>(
    key: PropertyKey<'_>,
    style: Style,
    jsx: J,
) -> bool
    decreases key, 0nat,
{
    match key {
        PropertyKey::StaticIdentifier(_) => true,
        PropertyKey::Other(key) => node_ordered(*key, style, jsx),
    }
}

/// Does a property in the options of an import type stand in source order?
pub open spec fn import_option_ordered<J: JSXState>(
    property: ObjectPropertyKind<'_>,
    style: Style,
    jsx: J,
) -> bool
    decreases property, 0nat,
{
    match property {
        ObjectPropertyKind::ObjectProperty(property) => property_ordered(
            property,
            is_key_with(property.key),
            style,
            jsx,
        ),
        ObjectPropertyKind::SpreadProperty(spread) => node_ordered(*spread, style, jsx),
    }
}

/// Do the options of an import type stand in source order?
pub open spec fn import_options_ordered<J: JSXState>(
    properties: Seq<ObjectPropertyKind<'_>>,
    style: Style,
    jsx: J,
) -> bool
    decreases properties, 1nat,
{
    &&& forall|i: int|
        0 <= i < properties.len() ==> import_option_ordered(#[trigger] properties[i], style, jsx)
    &&& forall|i: int, j: int, a: Action, b: Action|
        0 <= i < j < properties.len() && #[trigger] asks_import_option(
            properties[i],
            a,
            style,
            jsx,
        ) && #[trigger] asks_import_option(properties[j], b, style, jsx) ==> a.start() < b.start()
}

/// Is `action` asked for by `node`, if there is one?
pub open spec fn asks_optional<J: JSXState>(
    node: Option<Box<Node<'_>>>,
    action: Action,
    style: Style,
    jsx: J,
) -> bool {
    node matches Some(node) && asks_node(*node, action, style, jsx)
}

/// Is `action` asked for by the options of an import type, if there are any?
pub open spec fn asks_optional_options<J: JSXState>(
    options: Option<Vec<ObjectPropertyKind<'_>>>,
    action: Action,
    style: Style,
    jsx: J,
) -> bool {
    options matches Some(options) && asks_import_options(options@, action, style, jsx)
}

/// Do the parts of an import type stand in source order?
pub open spec fn import_type_ordered<J: JSXState>(
    import_type: TSImportType<'_>,
    style: Style,
    jsx: J,
) -> bool
    decreases import_type, 0nat,
{
    let options = import_type.options;
    let qualifier = import_type.qualifier;
    let arguments = import_type.type_arguments;
    &&& options matches Some(options) ==> import_options_ordered(options@, style, jsx)
    &&& qualifier matches Some(qualifier) ==> node_ordered(*qualifier, style, jsx)
    &&& arguments matches Some(arguments) ==> node_ordered(*arguments, style, jsx)
    &&& forall|a: Action|
        (#[trigger] asks_optional_options(options, a, style, jsx)) ==> import_type.source.span.start
            < a.start()
    &&& forall|a: Action|
        (#[trigger] asks_optional(qualifier, a, style, jsx)) ==> import_type.source.span.start
            < a.start()
    &&& forall|a: Action|
        (#[trigger] asks_optional(arguments, a, style, jsx)) ==> import_type.source.span.start
            < a.start()
    &&& forall|a: Action, b: Action|
        (#[trigger] asks_optional_options(options, a, style, jsx)) && (#[trigger] asks_optional(
            qualifier,
            b,
            style,
            jsx,
        )) ==> a.start() < b.start()
    &&& forall|a: Action, b: Action|
        (#[trigger] asks_optional_options(options, a, style, jsx)) && (#[trigger] asks_optional(
            arguments,
            b,
            style,
            jsx,
        )) ==> a.start() < b.start()
    &&& forall|a: Action, b: Action|
        (#[trigger] asks_optional(qualifier, a, style, jsx)) && (#[trigger] asks_optional(
            arguments,
            b,
            style,
            jsx,
        )) ==> a.start() < b.start()
}

/// Does what `typeof` is applied to stand in source order?
pub open spec fn type_query_expr_name_ordered<J: JSXState>(
    expr_name: TSTypeQueryExprName<'_>,
    style: Style,
    jsx: J,
) -> bool
    decreases expr_name, 0nat,
{
    match expr_name {
        TSTypeQueryExprName::TSImportType(import_type) => import_type_ordered(*import_type, style, jsx),
        TSTypeQueryExprName::QualifiedName(parts) => nodes_ordered(parts@, style, jsx),
        _ => true,
    }
}

/// Does the name of a type stand in source order?
pub open spec fn type_name_ordered<J: JSXState>(
    ts_name: TSTypeName<'_>,
    style: Style,
    jsx: J,
) -> bool
    decreases ts_name, 0nat,
{
    ts_name matches TSTypeName::QualifiedName(parts) ==> nodes_ordered(parts@, style, jsx)
}

/// Does a `this` parameter stand in source order?
pub open spec fn this_parameter_ordered<J: JSXState>(
    parameter: TSThisParameter<'_>,
    style: Style,
    jsx: J,
) -> bool
    decreases parameter, 0nat,
{
    &&& nodes_ordered(parameter.children@, style, jsx)
    &&& forall|a: Action|
        (#[trigger] asks_nodes(parameter.children@, a, style, jsx)) ==> parameter.this_span.start
            < a.start()
}

/// Does the name of a JSX attribute stand before its value?
pub open spec fn jsx_attribute_ordered<J: JSXState>(
    attribute: JSXAttribute<'_>,
    style: Style,
    jsx: J,
) -> bool
    decreases attribute, 0nat,
{
    &&& node_ordered(*attribute.name, style, jsx)
    &&& attribute.value matches Some(JSXAttributeValue::Other(value)) ==> node_ordered(
        *value,
        style,
        jsx,
    )
    &&& forall|a: Action, b: Action|
        (#[trigger] asks_node(*attribute.name, a, style, jsx)) && (
        #[trigger] asks_jsx_attribute_value(attribute.value, b, style, jsx)) ==> a.start()
            < b.start()
}

/// Does what is inside `node` stand in source order?
pub open spec fn node_ordered<J: JSXState>(
    node: Node<'_>,
    style: Style,
    jsx: J,
) -> bool
    decreases node, 0nat,
{
    match node {
        Node::TemplateLiteral(literal) => template_ordered(
            literal.quasis@,
            literal.expressions@,
            style,
            jsx,
        ),
        Node::TSTemplateLiteralType(literal) => template_ordered(
            literal.quasis@,
            literal.types@,
            style,
            jsx,
        ),
        Node::MemberExpression(member_expr) => nodes_ordered(
            member_expr.children@,
            style,
            jsx.spec_enter_member_expression(member_expr),
        ),
        Node::ObjectProperty(property) => property_ordered(property, property.shorthand, style, jsx),
        Node::BindingProperty(property) => property_ordered(property, property.shorthand, style, jsx),
        Node::ImportSpecifier(specifier) => export_name_span(specifier.imported) != specifier.local.span
            ==> export_name_span(specifier.imported).start < specifier.local.span.start,
        Node::ExportSpecifier(specifier) => export_name_span(specifier.exported) != export_name_span(
            specifier.local,
        ) ==> export_name_span(specifier.local).start < export_name_span(
            specifier.exported,
        ).start,
        Node::TSTypeQueryExprName(expr_name) => type_query_expr_name_ordered(expr_name, style, jsx),
        Node::TSTypeName(ts_name) => type_name_ordered(ts_name, style, jsx),
        Node::TSImportType(import_type) => import_type_ordered(import_type, style, jsx),
        Node::TSThisParameter(parameter) => this_parameter_ordered(parameter, style, jsx),
        Node::JSXElementName(name) => name matches JSXElementName::Other(children) ==> nodes_ordered(
            children@,
            style,
            jsx,
        ),
        Node::JSXMemberExpressionObject(object) => object matches JSXMemberExpressionObject::Other(
            children,
        ) ==> nodes_ordered(children@, style, jsx),
        Node::JSXNamespacedName(name) => name.namespace.span.start < name.name.span.start,
        Node::JSXExpressionContainer(container) => nodes_ordered(
            container.children@,
            style,
            jsx.spec_enter_jsx_expression(),
        ),
        Node::JSXSpreadAttribute(attribute) => nodes_ordered(
            attribute.children@,
            style,
            jsx.spec_enter_jsx_expression(),
        ),
        Node::JSXSpreadChild(child) => nodes_ordered(
            child.children@,
            style,
            jsx.spec_enter_jsx_expression(),
        ),
        Node::JSXAttribute(attribute) => jsx_attribute_ordered(attribute, style, jsx),
        Node::Other(children) => nodes_ordered(children@, style, jsx),
        _ => true,
    }
}

/// The requests of two walks, one after the other.
proof fn lemma_concat<J>(first: Trace<J>, second: Trace<J>)
    ensures
        forall|a: Action| #[trigger]
            first.then_trace(second).actions.contains(a) <==> first.actions.contains(a)
                || second.actions.contains(a),
        is_increasing(first.actions) && is_increasing(second.actions) && (forall|
            a: Action,
            b: Action,
        | #[trigger]
            first.actions.contains(a) && #[trigger] second.actions.contains(b) ==> a.start()
                < b.start()) ==> is_increasing(first.then_trace(second).actions),
{
    let both = first.then_trace(second).actions;
    let n = first.actions.len() as int;
    assert forall|a: Action| #[trigger]
        both.contains(a) <==> first.actions.contains(a) || second.actions.contains(a) by {
        if first.actions.contains(a) {
            let i = choose|i: int| 0 <= i < n && first.actions[i] == a;
            assert(both[i] == a);
        }
        if second.actions.contains(a) {
            let i = choose|i: int| 0 <= i < second.actions.len() && second.actions[i] == a;
            assert(both[n + i] == a);
        }
        if both.contains(a) {
            let i = choose|i: int| 0 <= i < both.len() && both[i] == a;
            if i < n {
                assert(first.actions[i] == a);
            } else {
                assert(second.actions[i - n] == a);
            }
        }
    }
    if is_increasing(first.actions) && is_increasing(second.actions) && (forall|
        a: Action,
        b: Action,
    | #[trigger]
        first.actions.contains(a) && #[trigger] second.actions.contains(b) ==> a.start()
            < b.start()) {
        assert forall|j: int, k: int| 0 <= j < k < both.len() implies (
        #[trigger] both[j]).start() < (#[trigger] both[k]).start() by {
            if k < n {
                assert(first.actions[j].start() < first.actions[k].start());
            } else if j >= n {
                assert(second.actions[j - n].start() < second.actions[k - n].start());
            } else {
                assert(first.actions.contains(first.actions[j]));
                assert(second.actions.contains(second.actions[k - n]));
            }
        }
    }
}

/// A walk which asks for one thing, and one which asks for nothing.
proof fn lemma_one<J>(action: Action, jsx: J)
    ensures
        forall|a: Action| #[trigger] Trace::one(action, jsx).actions.contains(a) <==> a == action,
        is_increasing(Trace::one(action, jsx).actions),
        forall|a: Action| !(#[trigger] Trace::none(jsx).actions.contains(a)),
        is_increasing(Trace::none(jsx).actions),
{
    assert(Trace::one(action, jsx).actions[0] == action);
}

// Each of the following lemmas is about walks over one sort of node:
// - they ask for what stands in it, and for nothing else;
// - they ask for it in source order, if it stands in source order;
// - they end in the JSX state in which they started, if that is balanced.
//
// `seen` is the JSX state that the expressions around the node make.

proof fn lemma_name<J: JSXState>(
    identifier: Identifier<'_>,
    style: Style,
    jsx: J,
    seen: J,
)
    requires
        style.ts ==> is_balanced::<J>() && jsx == seen,
    ensures
        forall|a: Action| #[trigger]
            identifier_trace(identifier, style, jsx).actions.contains(a)
                <==> asks_name(identifier, a, style, seen),
        is_increasing(identifier_trace(identifier, style, jsx).actions),
        is_balanced::<J>() ==> identifier_trace(identifier, style, jsx).jsx == jsx,
{
    if style.ts && jsx.spec_should_emit_jsx_identifier() {
        lemma_jsx_name(identifier, jsx);
    } else {
        lemma_plain_name(identifier, jsx);
    }
}

proof fn lemma_plain_name<J>(identifier: Identifier<'_>, jsx: J)
    ensures
        forall|a: Action| #[trigger]
            plain_identifier_trace(identifier, jsx).actions.contains(a) <==> is_name(identifier, a),
        is_increasing(plain_identifier_trace(identifier, jsx).actions),
{
    lemma_one(
        Action::Identifier { start: identifier.span.start as int, name: identifier.name@ },
        jsx,
    );
}

proof fn lemma_jsx_name<J>(identifier: Identifier<'_>, jsx: J)
    ensures
        forall|a: Action| #[trigger]
            jsx_identifier_trace(identifier, jsx).actions.contains(a) <==> is_jsx_name(
                identifier,
                a,
            ),
        is_increasing(jsx_identifier_trace(identifier, jsx).actions),
{
    lemma_one(
        Action::JSXIdentifier { start: identifier.span.start as int, name: identifier.name@ },
        jsx,
    );
}

proof fn lemma_export_name<J: JSXState>(
    name: ModuleExportName<'_>,
    style: Style,
    jsx: J,
    seen: J,
)
    requires
        style.ts ==> is_balanced::<J>() && jsx == seen,
    ensures
        forall|a: Action| #[trigger]
            module_export_name_trace(name, style, jsx).actions.contains(a)
                <==> asks_export_name(name, a, style, seen),
        is_increasing(module_export_name_trace(name, style, jsx).actions),
        is_balanced::<J>() ==> module_export_name_trace(name, style, jsx).jsx == jsx,
{
    match name {
        ModuleExportName::IdentifierName(identifier) => {
            lemma_name(identifier, style, jsx, seen);
        },
        ModuleExportName::IdentifierReference(identifier) => {
            lemma_name(identifier, style, jsx, seen);
        },
        ModuleExportName::StringLiteral(literal) => {
            lemma_one(
                Action::UnsafeToken { start: literal.span.start as int, token_type: "String"@ },
                jsx,
            );
        },
    }
}

proof fn lemma_import_specifier<J: JSXState>(
    specifier: ImportSpecifier<'_>,
    style: Style,
    jsx: J,
    seen: J,
)
    requires
        style.ts ==> is_balanced::<J>() && jsx == seen,
    ensures
        forall|a: Action| #[trigger]
            import_specifier_trace(specifier, style, jsx).actions.contains(a)
                <==> asks_import_specifier(specifier, a, style, seen),
        node_ordered(Node::ImportSpecifier(specifier), style, seen) ==> is_increasing(
            import_specifier_trace(specifier, style, jsx).actions,
        ),
        is_balanced::<J>() ==> import_specifier_trace(specifier, style, jsx).jsx == jsx,
{
    let imported = module_export_name_trace(specifier.imported, style, jsx);
    lemma_export_name(specifier.imported, style, jsx, seen);
    lemma_plain_name(specifier.local, jsx);
    lemma_plain_name(specifier.local, imported.jsx);
    lemma_concat(imported, plain_identifier_trace(specifier.local, imported.jsx));
}

proof fn lemma_export_specifier<J: JSXState>(
    specifier: ExportSpecifier<'_>,
    style: Style,
    jsx: J,
    seen: J,
)
    requires
        style.ts ==> is_balanced::<J>() && jsx == seen,
    ensures
        forall|a: Action| #[trigger]
            export_specifier_trace(specifier, style, jsx).actions.contains(a)
                <==> asks_export_specifier(specifier, a, style, seen),
        node_ordered(Node::ExportSpecifier(specifier), style, seen) ==> is_increasing(
            export_specifier_trace(specifier, style, jsx).actions,
        ),
        is_balanced::<J>() ==> export_specifier_trace(specifier, style, jsx).jsx == jsx,
{
    let local = module_export_name_trace(specifier.local, style, jsx);
    lemma_export_name(specifier.local, style, jsx, seen);
    lemma_export_name(specifier.exported, style, local.jsx, seen);
    lemma_concat(local, module_export_name_trace(specifier.exported, style, local.jsx));
}

proof fn lemma_jsx_namespaced_name<J: JSXState>(
    name: JSXNamespacedName<'_>,
    style: Style,
    jsx: J,
    seen: J,
)
    requires
        style.ts ==> is_balanced::<J>() && jsx == seen,
    ensures
        forall|a: Action| #[trigger]
            jsx_namespaced_name_trace(name, style, jsx).actions.contains(a)
                <==> asks_jsx_namespaced_name(name, a, style, seen),
        name.namespace.span.start < name.name.span.start ==> is_increasing(
            jsx_namespaced_name_trace(name, style, jsx).actions,
        ),
        is_balanced::<J>() ==> jsx_namespaced_name_trace(name, style, jsx).jsx == jsx,
{
    lemma_jsx_name(name.namespace, jsx);
    lemma_jsx_name(name.name, jsx);
    lemma_concat(
        jsx_identifier_trace(name.namespace, jsx),
        jsx_identifier_trace(name.name, jsx),
    );
}

proof fn lemma_nodes<J: JSXState>(
    nodes: Seq<Node<'_>>,
    n: nat,
    style: Style,
    jsx: J,
    seen: J,
)
    requires
        n <= nodes.len(),
        nodes_complete(nodes),
        style.ts ==> is_balanced::<J>() && jsx == seen,
    ensures
        forall|a: Action| #[trigger]
            nodes_trace(nodes, n, style, jsx).actions.contains(a) <==> exists|i: int|
                0 <= i < n && asks_node(#[trigger] nodes[i], a, style, seen),
        nodes_ordered(nodes, style, seen) ==> is_increasing(
            nodes_trace(nodes, n, style, jsx).actions,
        ),
        is_balanced::<J>() ==> nodes_trace(nodes, n, style, jsx).jsx == jsx,
    decreases nodes, n,
{
    if n > 0 {
        let last = nodes[n - 1];
        lemma_nodes(nodes, (n - 1) as nat, style, jsx, seen);
        let before = nodes_trace(nodes, (n - 1) as nat, style, jsx);
        lemma_node(last, style, before.jsx, seen);
        let part = node_trace(last, style, before.jsx);
        lemma_concat(before, part);
        let all = nodes_trace(nodes, n, style, jsx).actions;
        assert forall|a: Action| #[trigger]
            all.contains(a) <==> exists|i: int|
                0 <= i < n && asks_node(#[trigger] nodes[i], a, style, seen) by {
            if part.actions.contains(a) {
                assert(asks_node(nodes[n - 1], a, style, seen));
            }
        }
    }
}

proof fn lemma_import_options<J: JSXState>(
    properties: Seq<ObjectPropertyKind<'_>>,
    n: nat,
    style: Style,
    jsx: J,
    seen: J,
)
    requires
        n <= properties.len(),
        import_options_complete(properties),
        style.ts ==> is_balanced::<J>() && jsx == seen,
    ensures
        forall|a: Action| #[trigger]
            import_options_trace(properties, n, style, jsx).actions.contains(a) <==> exists|i: int|
                0 <= i < n && asks_import_option(#[trigger] properties[i], a, style, seen),
        import_options_ordered(properties, style, seen) ==> is_increasing(
            import_options_trace(properties, n, style, jsx).actions,
        ),
        is_balanced::<J>() ==> import_options_trace(properties, n, style, jsx).jsx == jsx,
    decreases properties, n,
{
    if n > 0 {
        let last = properties[n - 1];
        lemma_import_options(properties, (n - 1) as nat, style, jsx, seen);
        let before = import_options_trace(properties, (n - 1) as nat, style, jsx);
        lemma_import_option(last, style, before.jsx, seen);
        let part = import_option_trace(last, style, before.jsx);
        lemma_concat(before, part);
        let all = import_options_trace(properties, n, style, jsx).actions;
        assert forall|a: Action| #[trigger]
            all.contains(a) <==> exists|i: int|
                0 <= i < n && asks_import_option(#[trigger] properties[i], a, style, seen) by {
            if part.actions.contains(a) {
                assert(asks_import_option(properties[n - 1], a, style, seen));
            }
        }
    }
}

proof fn lemma_interleaved<J: JSXState>(
    quasis: Seq<TemplateElement>,
    parts: Seq<Node<'_>>,
    n: nat,
    style: Style,
    jsx: J,
    seen: J,
)
    requires
        n <= parts.len(),
        template_complete(quasis, parts),
        style.ts ==> is_balanced::<J>() && jsx == seen,
    ensures
        forall|a: Action| #[trigger]
            interleaved_trace(quasis, parts, n, style, jsx).actions.contains(a) <==> {
                ||| exists|i: int|
                    0 <= i <= n && is_text(
                        (#[trigger] quasis[i]).span.start - 1,
                        "Template"@,
                        a,
                    )
                ||| exists|i: int| 0 <= i < n && asks_node(#[trigger] parts[i], a, style, seen)
            },
        template_ordered(quasis, parts, style, seen) ==> is_increasing(
            interleaved_trace(quasis, parts, n, style, jsx).actions,
        ),
        is_balanced::<J>() ==> interleaved_trace(quasis, parts, n, style, jsx).jsx == jsx,
    decreases parts, n,
{
    if n == 0 {
        lemma_one(quasi_action(quasis[0]), jsx);
    } else {
        lemma_interleaved(quasis, parts, (n - 1) as nat, style, jsx, seen);
        let before = interleaved_trace(quasis, parts, (n - 1) as nat, style, jsx);
        lemma_node(parts[n - 1], style, before.jsx, seen);
        let part = node_trace(parts[n - 1], style, before.jsx);
        lemma_concat(before, part);
        let last = Trace::one(quasi_action(quasis[n as int]), part.jsx);
        lemma_one(quasi_action(quasis[n as int]), part.jsx);
        lemma_concat(before.then_trace(part), last);
        let all = interleaved_trace(quasis, parts, n, style, jsx).actions;
        assert forall|a: Action| #[trigger]
            all.contains(a) <==> {
                ||| exists|i: int|
                    0 <= i <= n && is_text(
                        (#[trigger] quasis[i]).span.start - 1,
                        "Template"@,
                        a,
                    )
                ||| exists|i: int| 0 <= i < n && asks_node(#[trigger] parts[i], a, style, seen)
            } by {
            if part.actions.contains(a) {
                assert(asks_node(parts[n - 1], a, style, seen));
            }
            if last.actions.contains(a) {
                assert(is_text(quasis[n as int].span.start - 1, "Template"@, a));
            }
        }
        if template_ordered(quasis, parts, style, seen) {
            assert forall|a: Action, b: Action| #[trigger]
                before.actions.contains(a) && #[trigger] part.actions.contains(b) implies a.start()
                < b.start() by {
                assert(asks_node(parts[n - 1], b, style, seen));
                if exists|i: int|
                    0 <= i < n && is_text(
                        (#[trigger] quasis[i]).span.start - 1,
                        "Template"@,
                        a,
                    ) {
                    let i = choose|i: int|
                        0 <= i < n && is_text(
                            (#[trigger] quasis[i]).span.start - 1,
                            "Template"@,
                            a,
                        );
                    assert(i == n - 1 || quasis[i].span.start < quasis[n - 1].span.start);
                } else {
                    let i = choose|i: int|
                        0 <= i < n - 1 && asks_node(#[trigger] parts[i], a, style, seen);
                    assert(asks_node(parts[i], a, style, seen));
                }
            }
            let most = before.then_trace(part);
            assert forall|a: Action, b: Action| #[trigger]
                most.actions.contains(a) && #[trigger] last.actions.contains(b) implies a.start()
                < b.start() by {
                if part.actions.contains(a) {
                    assert(asks_node(parts[n - 1], a, style, seen));
                } else if exists|i: int|
                    0 <= i < n && is_text(
                        (#[trigger] quasis[i]).span.start - 1,
                        "Template"@,
                        a,
                    ) {
                    let i = choose|i: int|
                        0 <= i < n && is_text(
                            (#[trigger] quasis[i]).span.start - 1,
                            "Template"@,
                            a,
                        );
                    assert(quasis[i].span.start < quasis[n as int].span.start);
                } else {
                    let i = choose|i: int|
                        0 <= i < n - 1 && asks_node(#[trigger] parts[i], a, style, seen);
                    assert(asks_node(parts[i], a, style, seen));
                    assert(i + 1 == n || quasis[i + 1].span.start < quasis[n as int].span.start);
                }
            }
        }
    }
}

proof fn lemma_template<J: JSXState>(
    quasis: Seq<TemplateElement>,
    parts: Seq<Node<'_>>,
    style: Style,
    jsx: J,
    seen: J,
)
    requires
        template_complete(quasis, parts),
        style.ts ==> is_balanced::<J>() && jsx == seen,
    ensures
        forall|a: Action| #[trigger]
            template_trace(quasis, parts, style, jsx).actions.contains(a) <==> asks_template(
                quasis,
                parts,
                a,
                style,
                seen,
            ),
        template_ordered(quasis, parts, style, seen) ==> is_increasing(
            template_trace(quasis, parts, style, jsx).actions,
        ),
        is_balanced::<J>() ==> template_trace(quasis, parts, style, jsx).jsx == jsx,
    decreases parts, parts.len() + 1,
{
    lemma_nodes(parts, parts.len(), style, jsx, seen);
    lemma_interleaved(quasis, parts, parts.len(), style, jsx, seen);
    let all = template_trace(quasis, parts, style, jsx).actions;
    let interleaved = interleaved_trace(quasis, parts, parts.len(), style, jsx);
    let plain = nodes_trace(parts, parts.len(), style, jsx);
    assert(interleaved_parts(quasis, parts) == parts.len());
    assert(template_trace(quasis, parts, style, jsx) == if style.quasis {
        interleaved
    } else {
        plain
    });
    assert forall|a: Action| #[trigger]
        all.contains(a) <==> asks_template(quasis, parts, a, style, seen) by {
        if asks_quasis(quasis, a) {
            let i = choose|i: int|
                0 <= i < quasis.len() && is_text(
                    (#[trigger] quasis[i]).span.start - 1,
                    "Template"@,
                    a,
                );
            assert(0 <= i <= parts.len());
        }
        assert(plain.actions.contains(a) <==> asks_nodes(parts, a, style, seen));
        if style.quasis {
            assert(interleaved.actions.contains(a) <==> asks_quasis(quasis, a) || asks_nodes(
                parts,
                a,
                style,
                seen,
            ));
        }
    }
}

proof fn lemma_jsx_expression<J: JSXState>(
    children: Seq<Node<'_>>,
    style: Style,
    jsx: J,
    seen: J,
)
    requires
        nodes_complete(children),
        style.ts ==> is_balanced::<J>() && jsx == seen,
    ensures
        forall|a: Action| #[trigger]
            jsx_expression_trace(children, style, jsx).actions.contains(a) <==> asks_nodes(
                children,
                a,
                style,
                seen.spec_enter_jsx_expression(),
            ),
        nodes_ordered(children, style, seen.spec_enter_jsx_expression()) ==> is_increasing(
            jsx_expression_trace(children, style, jsx).actions,
        ),
        is_balanced::<J>() ==> jsx_expression_trace(children, style, jsx).jsx == jsx,
    decreases children, children.len() + 1,
{
    lemma_nodes(
        children,
        children.len(),
        style,
        jsx.spec_enter_jsx_expression(),
        seen.spec_enter_jsx_expression(),
    );
    let inside = nodes_trace(children, children.len(), style, jsx.spec_enter_jsx_expression());
    assert(jsx_expression_trace(children, style, jsx).actions == inside.actions);
}

proof fn lemma_property_key<J: JSXState>(
    key: PropertyKey<'_>,
    style: Style,
    jsx: J,
    seen: J,
)
    requires
        property_key_complete(key),
        style.ts ==> is_balanced::<J>() && jsx == seen,
    ensures
        forall|a: Action| #[trigger]
            property_key_trace(key, style, jsx).actions.contains(a)
                <==> asks_property_key(key, a, style, seen),
        property_key_ordered(key, style, seen) ==> is_increasing(
            property_key_trace(key, style, jsx).actions,
        ),
        is_balanced::<J>() ==> property_key_trace(key, style, jsx).jsx == jsx,
    decreases key, 0nat,
{
    match key {
        PropertyKey::StaticIdentifier(identifier) => {
            lemma_name(identifier, style, jsx, seen);
        },
        PropertyKey::Other(node) => {
            lemma_node(*node, style, jsx, seen);
            assert(property_key_trace(key, style, jsx) == node_trace(*node, style, jsx));
        },
    }
}

proof fn lemma_property<J: JSXState>(
    property: Property<'_>,
    skip_key: bool,
    style: Style,
    jsx: J,
    seen: J,
)
    requires
        property_complete(property),
        style.ts ==> is_balanced::<J>() && jsx == seen,
    ensures
        forall|a: Action| #[trigger]
            property_trace(property, skip_key, style, jsx).actions.contains(a)
                <==> asks_property(property, skip_key, a, style, seen),
        property_ordered(property, skip_key, style, seen) ==> is_increasing(
            property_trace(property, skip_key, style, jsx).actions,
        ),
        is_balanced::<J>() ==> property_trace(property, skip_key, style, jsx).jsx == jsx,
    decreases property, 0nat,
{
    let key = property_key_trace(property.key, style, jsx);
    lemma_property_key(property.key, style, jsx, seen);
    lemma_node(*property.value, style, jsx, seen);
    lemma_node(*property.value, style, key.jsx, seen);
    let value = node_trace(*property.value, style, key.jsx);
    lemma_concat(key, value);
    assert(property_trace(property, skip_key, style, jsx) == if skip_key {
        node_trace(*property.value, style, jsx)
    } else {
        key.then_trace(value)
    });
}

proof fn lemma_import_option<J: JSXState>(
    property: ObjectPropertyKind<'_>,
    style: Style,
    jsx: J,
    seen: J,
)
    requires
        import_option_complete(property),
        style.ts ==> is_balanced::<J>() && jsx == seen,
    ensures
        forall|a: Action| #[trigger]
            import_option_trace(property, style, jsx).actions.contains(a)
                <==> asks_import_option(property, a, style, seen),
        import_option_ordered(property, style, seen) ==> is_increasing(
            import_option_trace(property, style, jsx).actions,
        ),
        is_balanced::<J>() ==> import_option_trace(property, style, jsx).jsx == jsx,
    decreases property, 0nat,
{
    let trace = import_option_trace(property, style, jsx);
    match property {
        ObjectPropertyKind::ObjectProperty(property) => {
            let skip_key = is_key_with(property.key);
            lemma_property(property, skip_key, style, jsx, seen);
            assert(trace == property_trace(property, skip_key, style, jsx));
        },
        ObjectPropertyKind::SpreadProperty(spread) => {
            lemma_node(*spread, style, jsx, seen);
            assert(trace == node_trace(*spread, style, jsx));
        },
    }
}

proof fn lemma_import_type<J: JSXState>(
    import_type: TSImportType<'_>,
    style: Style,
    jsx: J,
    seen: J,
)
    requires
        import_type_complete(import_type),
        style.ts ==> is_balanced::<J>() && jsx == seen,
    ensures
        forall|a: Action| #[trigger]
            import_type_trace(import_type, style, jsx).actions.contains(a)
                <==> asks_import_type(import_type, a, style, seen),
        import_type_ordered(import_type, style, seen) ==> is_increasing(
            import_type_trace(import_type, style, jsx).actions,
        ),
        is_balanced::<J>() ==> import_type_trace(import_type, style, jsx).jsx == jsx,
    decreases import_type, 0nat,
{
    let source = string_trace(import_type.source, jsx);
    let start = import_type.source.span.start as int;
    lemma_one(Action::UnsafeToken { start, token_type: "String"@ }, jsx);
    let options = match import_type.options {
        Some(options) => {
            lemma_import_options(options@, options@.len(), style, source.jsx, seen);
            let trace = import_options_trace(options@, options@.len(), style, source.jsx);
            lemma_concat(source, trace);
            assert forall|a: Action| #[trigger]
                trace.actions.contains(a) <==> asks_optional_options(
                    import_type.options,
                    a,
                    style,
                    seen,
                ) by {}
            source.then_trace(trace)
        },
        None => source,
    };
    assert forall|a: Action| #[trigger]
        options.actions.contains(a) <==> is_text(start, "String"@, a) || asks_optional_options(
            import_type.options,
            a,
            style,
            seen,
        ) by {}
    let qualifier = match import_type.qualifier {
        Some(qualifier) => {
            lemma_node(*qualifier, style, options.jsx, seen);
            let trace = node_trace(*qualifier, style, options.jsx);
            lemma_concat(options, trace);
            assert forall|a: Action| #[trigger]
                trace.actions.contains(a) <==> asks_optional(
                    import_type.qualifier,
                    a,
                    style,
                    seen,
                ) by {}
            options.then_trace(trace)
        },
        None => options,
    };
    assert forall|a: Action| #[trigger]
        qualifier.actions.contains(a) <==> is_text(start, "String"@, a) || asks_optional_options(
            import_type.options,
            a,
            style,
            seen,
        ) || asks_optional(import_type.qualifier, a, style, seen) by {}
    if let Some(arguments) = import_type.type_arguments {
        lemma_node(*arguments, style, qualifier.jsx, seen);
        let trace = node_trace(*arguments, style, qualifier.jsx);
        lemma_concat(qualifier, trace);
        assert forall|a: Action| #[trigger]
            trace.actions.contains(a) <==> asks_optional(
                import_type.type_arguments,
                a,
                style,
                seen,
            ) by {}
        assert(import_type_trace(import_type, style, jsx) == qualifier.then_trace(trace));
    } else {
        assert(import_type_trace(import_type, style, jsx) == qualifier);
    }
}

proof fn lemma_type_query_expr_name<J: JSXState>(
    expr_name: TSTypeQueryExprName<'_>,
    style: Style,
    jsx: J,
    seen: J,
)
    requires
        type_query_expr_name_complete(expr_name),
        style.ts ==> is_balanced::<J>() && jsx == seen,
    ensures
        forall|a: Action| #[trigger]
            type_query_expr_name_trace(expr_name, style, jsx).actions.contains(a)
                <==> asks_type_query_expr_name(expr_name, a, style, seen),
        type_query_expr_name_ordered(expr_name, style, seen) ==> is_increasing(
            type_query_expr_name_trace(expr_name, style, jsx).actions,
        ),
        is_balanced::<J>() ==> type_query_expr_name_trace(expr_name, style, jsx).jsx == jsx,
    decreases expr_name, 0nat,
{
    match expr_name {
        TSTypeQueryExprName::ThisExpression(this_expr) => {
            lemma_one(Action::ThisIdentifier { start: this_expr.span.start as int }, jsx);
        },
        TSTypeQueryExprName::IdentifierReference(ident) => {
            lemma_name(ident, style, jsx, seen);
        },
        TSTypeQueryExprName::TSImportType(import_type) => {
            lemma_import_type(*import_type, style, jsx, seen);
            assert(type_query_expr_name_trace(expr_name, style, jsx) == import_type_trace(
                *import_type,
                style,
                jsx,
            ));
        },
        TSTypeQueryExprName::QualifiedName(parts) => {
            lemma_nodes(parts@, parts@.len(), style, jsx, seen);
            assert(type_query_expr_name_trace(expr_name, style, jsx) == nodes_trace(
                parts@,
                parts@.len(),
                style,
                jsx,
            ));
        },
    }
}

proof fn lemma_type_name<J: JSXState>(
    ts_name: TSTypeName<'_>,
    style: Style,
    jsx: J,
    seen: J,
)
    requires
        type_name_complete(ts_name),
        style.ts ==> is_balanced::<J>() && jsx == seen,
    ensures
        forall|a: Action| #[trigger]
            type_name_trace(ts_name, style, jsx).actions.contains(a)
                <==> asks_type_name(ts_name, a, style, seen),
        type_name_ordered(ts_name, style, seen) ==> is_increasing(
            type_name_trace(ts_name, style, jsx).actions,
        ),
        is_balanced::<J>() ==> type_name_trace(ts_name, style, jsx).jsx == jsx,
    decreases ts_name, 0nat,
{
    match ts_name {
        TSTypeName::ThisExpression(this_expr) => {
            lemma_one(Action::ThisIdentifier { start: this_expr.span.start as int }, jsx);
        },
        TSTypeName::IdentifierReference(ident) => {
            lemma_name(ident, style, jsx, seen);
        },
        TSTypeName::QualifiedName(parts) => {
            lemma_nodes(parts@, parts@.len(), style, jsx, seen);
            assert(type_name_trace(ts_name, style, jsx) == nodes_trace(
                parts@,
                parts@.len(),
                style,
                jsx,
            ));
        },
    }
}

proof fn lemma_this_parameter<J: JSXState>(
    parameter: TSThisParameter<'_>,
    style: Style,
    jsx: J,
    seen: J,
)
    requires
        nodes_complete(parameter.children@),
        style.ts ==> is_balanced::<J>() && jsx == seen,
    ensures
        forall|a: Action| #[trigger]
            this_parameter_trace(parameter, style, jsx).actions.contains(a)
                <==> asks_this_parameter(parameter, a, style, seen),
        this_parameter_ordered(parameter, style, seen) ==> is_increasing(
            this_parameter_trace(parameter, style, jsx).actions,
        ),
        is_balanced::<J>() ==> this_parameter_trace(parameter, style, jsx).jsx == jsx,
    decreases parameter, 0nat,
{
    let children = parameter.children@;
    lemma_one(Action::ThisIdentifier { start: parameter.this_span.start as int }, jsx);
    lemma_nodes(children, children.len(), style, jsx, seen);
    let inside = nodes_trace(children, children.len(), style, jsx);
    assert forall|a: Action| #[trigger]
        inside.actions.contains(a) <==> asks_nodes(children, a, style, seen) by {}
    let this = this_trace(parameter.this_span.start, jsx);
    lemma_concat(this, inside);
    assert(this_parameter_trace(parameter, style, jsx) == this.then_trace(inside));
}

proof fn lemma_member_expression<J: JSXState>(
    member_expr: MemberExpression<'_>,
    style: Style,
    jsx: J,
    seen: J,
)
    requires
        nodes_complete(member_expr.children@),
        style.ts ==> is_balanced::<J>() && jsx == seen,
    ensures
        forall|a: Action| #[trigger]
            member_expression_trace(member_expr, style, jsx).actions.contains(a) <==> asks_nodes(
                member_expr.children@,
                a,
                style,
                seen.spec_enter_member_expression(member_expr),
            ),
        nodes_ordered(
            member_expr.children@,
            style,
            seen.spec_enter_member_expression(member_expr),
        ) ==> is_increasing(member_expression_trace(member_expr, style, jsx).actions),
        is_balanced::<J>() ==> member_expression_trace(member_expr, style, jsx).jsx == jsx,
    decreases member_expr, 0nat,
{
    lemma_nodes(
        member_expr.children@,
        member_expr.children@.len(),
        style,
        jsx.spec_enter_member_expression(member_expr),
        seen.spec_enter_member_expression(member_expr),
    );
    let inside = nodes_trace(
        member_expr.children@,
        member_expr.children@.len(),
        style,
        jsx.spec_enter_member_expression(member_expr),
    );
    assert(member_expression_trace(member_expr, style, jsx).actions == inside.actions);
}

proof fn lemma_jsx_element_name<J: JSXState>(
    name: JSXElementName<'_>,
    style: Style,
    jsx: J,
    seen: J,
)
    requires
        jsx_element_name_complete(name),
        style.ts ==> is_balanced::<J>() && jsx == seen,
    ensures
        forall|a: Action| #[trigger]
            jsx_element_name_trace(name, style, jsx).actions.contains(a)
                <==> asks_jsx_element_name(name, a, style, seen),
        node_ordered(Node::JSXElementName(name), style, seen) ==> is_increasing(
            jsx_element_name_trace(name, style, jsx).actions,
        ),
        is_balanced::<J>() ==> jsx_element_name_trace(name, style, jsx).jsx == jsx,
    decreases name, 0nat,
{
    match name {
        JSXElementName::IdentifierReference(identifier) => {
            lemma_jsx_name(identifier, jsx);
        },
        JSXElementName::Other(children) => {
            lemma_nodes(children@, children@.len(), style, jsx, seen);
            assert(jsx_element_name_trace(name, style, jsx) == nodes_trace(
                children@,
                children@.len(),
                style,
                jsx,
            ));
        },
    }
}

proof fn lemma_jsx_member_expression_object<J: JSXState>(
    object: JSXMemberExpressionObject<'_>,
    style: Style,
    jsx: J,
    seen: J,
)
    requires
        jsx_member_expression_object_complete(object),
        style.ts ==> is_balanced::<J>() && jsx == seen,
    ensures
        forall|a: Action| #[trigger]
            jsx_member_expression_object_trace(object, style, jsx).actions.contains(a)
                <==> asks_jsx_member_expression_object(object, a, style, seen),
        node_ordered(Node::JSXMemberExpressionObject(object), style, seen) ==> is_increasing(
            jsx_member_expression_object_trace(object, style, jsx).actions,
        ),
        is_balanced::<J>() ==> jsx_member_expression_object_trace(object, style, jsx).jsx == jsx,
    decreases object, 0nat,
{
    match object {
        JSXMemberExpressionObject::IdentifierReference(identifier) => {
            lemma_jsx_name(identifier, jsx);
        },
        JSXMemberExpressionObject::Other(children) => {
            lemma_nodes(children@, children@.len(), style, jsx, seen);
            assert(jsx_member_expression_object_trace(object, style, jsx) == nodes_trace(
                children@,
                children@.len(),
                style,
                jsx,
            ));
        },
    }
}

proof fn lemma_jsx_attribute<J: JSXState>(
    attribute: JSXAttribute<'_>,
    style: Style,
    jsx: J,
    seen: J,
)
    requires
        jsx_attribute_complete(attribute),
        style.ts ==> is_balanced::<J>() && jsx == seen,
    ensures
        forall|a: Action| #[trigger]
            jsx_attribute_trace(attribute, style, jsx).actions.contains(a)
                <==> asks_jsx_attribute(attribute, a, style, seen),
        jsx_attribute_ordered(attribute, style, seen) ==> is_increasing(
            jsx_attribute_trace(attribute, style, jsx).actions,
        ),
        is_balanced::<J>() ==> jsx_attribute_trace(attribute, style, jsx).jsx == jsx,
    decreases attribute, 0nat,
{
    let name = node_trace(*attribute.name, style, jsx);
    lemma_node(*attribute.name, style, jsx, seen);
    match attribute.value {
        Some(JSXAttributeValue::StringLiteral(literal)) => {
            let action = Action::JSXText { start: literal.span.start as int };
            lemma_one(action, name.jsx);
            let value = Trace::one(action, name.jsx);
            assert forall|a: Action| #[trigger]
                value.actions.contains(a) <==> asks_jsx_attribute_value(
                    attribute.value,
                    a,
                    style,
                    seen,
                ) by {}
            lemma_concat(name, value);
            assert(jsx_attribute_trace(attribute, style, jsx) == name.then_trace(value));
        },
        Some(JSXAttributeValue::Other(value)) => {
            lemma_node(*value, style, name.jsx, seen);
            let value = node_trace(*value, style, name.jsx);
            assert forall|a: Action| #[trigger]
                value.actions.contains(a) <==> asks_jsx_attribute_value(
                    attribute.value,
                    a,
                    style,
                    seen,
                ) by {}
            lemma_concat(name, value);
            assert(jsx_attribute_trace(attribute, style, jsx) == name.then_trace(value));
        },
        None => {
            assert(jsx_attribute_trace(attribute, style, jsx) == name);
        },
    }
}

proof fn lemma_node<J: JSXState>(
    node: Node<'_>,
    style: Style,
    jsx: J,
    seen: J,
)
    requires
        node_complete(node),
        style.ts ==> is_balanced::<J>() && jsx == seen,
    ensures
        forall|a: Action| #[trigger]
            node_trace(node, style, jsx).actions.contains(a) <==> asks_node(node, a, style, seen),
        node_ordered(node, style, seen) ==> is_increasing(node_trace(node, style, jsx).actions),
        is_balanced::<J>() ==> node_trace(node, style, jsx).jsx == jsx,
    decreases node, 0nat,
{
    let trace = node_trace(node, style, jsx);
    match node {
        Node::IdentifierName(identifier) => {
            lemma_name(identifier, style, jsx, seen);
        },
        Node::IdentifierReference(identifier) => {
            lemma_name(identifier, style, jsx, seen);
        },
        Node::BindingIdentifier(identifier) => {
            lemma_plain_name(identifier, jsx);
        },
        Node::LabelIdentifier(identifier) => {
            lemma_plain_name(identifier, jsx);
        },
        Node::PrivateIdentifier(identifier) => {
            lemma_one(
                Action::PrivateIdentifier {
                    start: identifier.span.start as int,
                    name: identifier.name@,
                },
                jsx,
            );
        },
        Node::StringLiteral(literal) => {
            lemma_one(
                Action::UnsafeToken { start: literal.span.start as int, token_type: "String"@ },
                jsx,
            );
        },
        Node::RegExpLiteral(regexp) => {
            lemma_one(regexp_action(regexp), jsx);
        },
        Node::TemplateLiteral(literal) => {
            lemma_template(literal.quasis@, literal.expressions@, style, jsx, seen);
            assert(trace == template_trace(literal.quasis@, literal.expressions@, style, jsx));
        },
        Node::MetaProperty => {
            lemma_one(Action::ThisIdentifier { start: 0 }, jsx);
        },
        Node::MemberExpression(member_expr) => {
            lemma_member_expression(member_expr, style, jsx, seen);
            assert(trace == member_expression_trace(member_expr, style, jsx));
        },
        Node::ObjectProperty(property) => {
            lemma_property(property, property.shorthand, style, jsx, seen);
            assert(trace == property_trace(property, property.shorthand, style, jsx));
        },
        Node::BindingProperty(property) => {
            lemma_property(property, property.shorthand, style, jsx, seen);
            assert(trace == property_trace(property, property.shorthand, style, jsx));
        },
        Node::ImportSpecifier(specifier) => {
            lemma_import_specifier(specifier, style, jsx, seen);
            assert(trace == import_specifier_trace(specifier, style, jsx));
        },
        Node::ExportSpecifier(specifier) => {
            lemma_export_specifier(specifier, style, jsx, seen);
            assert(trace == export_specifier_trace(specifier, style, jsx));
        },
        Node::TSTypeQueryExprName(expr_name) => {
            lemma_type_query_expr_name(expr_name, style, jsx, seen);
            assert(trace == type_query_expr_name_trace(expr_name, style, jsx));
        },
        Node::TSTypeName(ts_name) => {
            lemma_type_name(ts_name, style, jsx, seen);
            assert(trace == type_name_trace(ts_name, style, jsx));
        },
        Node::TSImportType(import_type) => {
            lemma_import_type(import_type, style, jsx, seen);
            assert(trace == import_type_trace(import_type, style, jsx));
        },
        Node::TSThisParameter(parameter) => {
            lemma_this_parameter(parameter, style, jsx, seen);
            assert(trace == this_parameter_trace(parameter, style, jsx));
        },
        Node::TSTemplateLiteralType(literal) => {
            lemma_template(literal.quasis@, literal.types@, style, jsx, seen);
            assert(trace == template_trace(literal.quasis@, literal.types@, style, jsx));
        },
        Node::JSXIdentifier(identifier) => {
            lemma_jsx_name(identifier, jsx);
        },
        Node::JSXElementName(name) => {
            lemma_jsx_element_name(name, style, jsx, seen);
            assert(trace == jsx_element_name_trace(name, style, jsx));
        },
        Node::JSXMemberExpressionObject(object) => {
            lemma_jsx_member_expression_object(object, style, jsx, seen);
            assert(trace == jsx_member_expression_object_trace(object, style, jsx));
        },
        Node::JSXNamespacedName(name) => {
            lemma_jsx_namespaced_name(name, style, jsx, seen);
            assert(trace == jsx_namespaced_name_trace(name, style, jsx));
        },
        Node::JSXExpressionContainer(container) => {
            lemma_jsx_expression(container.children@, style, jsx, seen);
            assert(trace == jsx_expression_trace(container.children@, style, jsx));
        },
        Node::JSXSpreadAttribute(attribute) => {
            lemma_jsx_expression(attribute.children@, style, jsx, seen);
            assert(trace == jsx_expression_trace(attribute.children@, style, jsx));
        },
        Node::JSXSpreadChild(child) => {
            lemma_jsx_expression(child.children@, style, jsx, seen);
            assert(trace == jsx_expression_trace(child.children@, style, jsx));
        },
        Node::JSXText(text) => {
            lemma_one(
                Action::UnsafeToken { start: text.span.start as int, token_type: "JSXText"@ },
                jsx,
            );
        },
        Node::JSXAttribute(attribute) => {
            lemma_jsx_attribute(attribute, style, jsx, seen);
            assert(trace == jsx_attribute_trace(attribute, style, jsx));
        },
        Node::Other(children) => {
            lemma_nodes(children@, children@.len(), style, jsx, seen);
            assert(trace == nodes_trace(children@, children@.len(), style, jsx));
        },
    }
}

/// Is `action` asked for somewhere in `program`?
pub open spec fn program_asks<O: ESTreeTokenConfig>(
    program: Program<'_>,
    options: O,
    quasis: bool,
    action: Action,
) -> bool {
    asks_nodes(
        program.children@,
        action,
        Style { ts: options.spec_is_ts(), quasis },
        O::JSXState::spec_initial(),
    )
}

/// Does everything that is asked for in `program` stand in source order?
pub open spec fn program_ordered<O: ESTreeTokenConfig>(
    program: Program<'_>,
    options: O,
    quasis: bool,
) -> bool {
    nodes_ordered(
        program.children@,
        Style { ts: options.spec_is_ts(), quasis },
        O::JSXState::spec_initial(),
    )
}

/// A walk over a program asks for every name, string or other leaf that stands in it, wherever that
/// is, and for nothing else.
///
/// In TS style, leaving an expression has to undo what entering it did to the JSX state.
pub proof fn law_requests_are_what_is_asked_for<O: ESTreeTokenConfig>(
    program: Program<'_>,
    options: O,
    quasis: bool,
    action: Action,
)
    requires
        nodes_complete(program.children@),
        options.spec_is_ts() ==> is_balanced::<O::JSXState>(),
    ensures
        requests(program, options, quasis).contains(action) <==> program_asks(
            program,
            options,
            quasis,
            action,
        ),
{
    lemma_nodes(
        program.children@,
        program.children@.len(),
        Style { ts: options.spec_is_ts(), quasis },
        O::JSXState::spec_initial(),
        O::JSXState::spec_initial(),
    );
}

/// A walk over a program asks for one token after the other, if what stands in the program stands in
/// source order.
pub proof fn law_requests_follow_the_source<O: ESTreeTokenConfig>(
    program: Program<'_>,
    options: O,
    quasis: bool,
)
    requires
        nodes_complete(program.children@),
        options.spec_is_ts() ==> is_balanced::<O::JSXState>(),
        program_ordered(program, options, quasis),
    ensures
        is_increasing(requests(program, options, quasis)),
{
    lemma_nodes(
        program.children@,
        program.children@.len(),
        Style { ts: options.spec_is_ts(), quasis },
        O::JSXState::spec_initial(),
        O::JSXState::spec_initial(),
    );
}

} // verus!
