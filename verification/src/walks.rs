//! What holds of walks over an AST, whatever they are for.

use vstd::prelude::*;

use crate::ast::{
    JSXAttribute, JSXAttributeValue, JSXElementName, JSXMemberExpressionObject,
    MemberExpression, Node, ObjectPropertyKind, Program, Property, PropertyKey, TSImportType,
    TSThisParameter, TSTypeName, TSTypeQueryExprName, TemplateElement,
};
use crate::config::JSXState;
use crate::kind::is_estree_type;
use crate::trace::{
    import_option_trace, import_options_trace, import_type_trace,
    interleaved_parts, interleaved_trace, is_with_key, jsx_attribute_trace, jsx_element_name_trace,
    jsx_expression_trace, jsx_member_expression_object_trace, member_expression_trace, node_trace,
    nodes_trace, program_trace, property_key_trace, property_trace, quasi_action,
    string_trace, template_trace, this_parameter_trace, this_trace, type_name_trace,
    type_query_expr_name_trace, Action, Style, Trace,
};
use crate::update::{is_update, updates};

verus! {

/// Does every template in `nodes` have one text part more than it has interpolated parts?
pub open spec fn nodes_complete(nodes: Seq<Node<'_>>) -> bool
    decreases nodes, 1nat,
{
    forall|i: int| 0 <= i < nodes.len() ==> node_complete(#[trigger] nodes[i])
}

/// Does a template have one text part more than it has interpolated parts, and is the same true of
/// every template in those?
pub open spec fn template_complete(quasis: Seq<TemplateElement>, parts: Seq<Node<'_>>) -> bool
    decreases parts, 2nat,
{
    quasis.len() == parts.len() + 1 && nodes_complete(parts)
}

/// Is every template in the key of a property complete?
pub open spec fn property_key_complete(key: PropertyKey<'_>) -> bool
    decreases key, 0nat,
{
    match key {
        PropertyKey::StaticIdentifier(_) => true,
        PropertyKey::Other(key) => node_complete(*key),
    }
}

/// Is every template in a property complete?
pub open spec fn property_complete(property: Property<'_>) -> bool
    decreases property, 0nat,
{
    property_key_complete(property.key) && node_complete(*property.value)
}

/// Is every template in a property in the options of an import type complete?
pub open spec fn import_option_complete(property: ObjectPropertyKind<'_>) -> bool
    decreases property, 0nat,
{
    match property {
        ObjectPropertyKind::ObjectProperty(property) => property_complete(property),
        ObjectPropertyKind::SpreadProperty(spread) => node_complete(*spread),
    }
}

/// Is every template in the options of an import type complete?
pub open spec fn import_options_complete(properties: Seq<ObjectPropertyKind<'_>>) -> bool
    decreases properties, 1nat,
{
    forall|i: int| 0 <= i < properties.len() ==> import_option_complete(#[trigger] properties[i])
}

/// Is every template in an import type complete?
pub open spec fn import_type_complete(import_type: TSImportType<'_>) -> bool
    decreases import_type, 0nat,
{
    &&& match import_type.options {
        Some(options) => import_options_complete(options@),
        None => true,
    }
    &&& match import_type.qualifier {
        Some(qualifier) => node_complete(*qualifier),
        None => true,
    }
    &&& match import_type.type_arguments {
        Some(arguments) => node_complete(*arguments),
        None => true,
    }
}

/// Is every template in what `typeof` is applied to complete?
pub open spec fn type_query_expr_name_complete(expr_name: TSTypeQueryExprName<'_>) -> bool
    decreases expr_name, 0nat,
{
    match expr_name {
        TSTypeQueryExprName::ThisExpression(_) => true,
        TSTypeQueryExprName::IdentifierReference(_) => true,
        TSTypeQueryExprName::TSImportType(import_type) => import_type_complete(*import_type),
        TSTypeQueryExprName::QualifiedName(parts) => nodes_complete(parts@),
    }
}

/// Is every template in the name of a type complete?
pub open spec fn type_name_complete(ts_name: TSTypeName<'_>) -> bool
    decreases ts_name, 0nat,
{
    match ts_name {
        TSTypeName::ThisExpression(_) => true,
        TSTypeName::IdentifierReference(_) => true,
        TSTypeName::QualifiedName(parts) => nodes_complete(parts@),
    }
}

/// Is every template in the name of a JSX element complete?
pub open spec fn jsx_element_name_complete(name: JSXElementName<'_>) -> bool
    decreases name, 0nat,
{
    match name {
        JSXElementName::IdentifierReference(_) => true,
        JSXElementName::Other(children) => nodes_complete(children@),
    }
}

/// Is every template in the object of a JSX member expression complete?
pub open spec fn jsx_member_expression_object_complete(
    object: JSXMemberExpressionObject<'_>,
) -> bool
    decreases object, 0nat,
{
    match object {
        JSXMemberExpressionObject::IdentifierReference(_) => true,
        JSXMemberExpressionObject::Other(children) => nodes_complete(children@),
    }
}

/// Is every template in a JSX attribute complete?
pub open spec fn jsx_attribute_complete(attribute: JSXAttribute<'_>) -> bool
    decreases attribute, 0nat,
{
    &&& node_complete(*attribute.name)
    &&& match attribute.value {
        Some(JSXAttributeValue::Other(value)) => node_complete(*value),
        _ => true,
    }
}

/// Is every template in `node` complete?
pub open spec fn node_complete(node: Node<'_>) -> bool
    decreases node, 0nat,
{
    match node {
        Node::TemplateLiteral(literal) => template_complete(
            literal.quasis@,
            literal.expressions@,
        ),
        Node::TSTemplateLiteralType(literal) => template_complete(literal.quasis@, literal.types@),
        Node::MemberExpression(member_expr) => nodes_complete(member_expr.children@),
        Node::ObjectProperty(property) => property_complete(property),
        Node::BindingProperty(property) => property_complete(property),
        Node::TSTypeQueryExprName(expr_name) => type_query_expr_name_complete(expr_name),
        Node::TSTypeName(ts_name) => type_name_complete(ts_name),
        Node::TSImportType(import_type) => import_type_complete(import_type),
        Node::TSThisParameter(parameter) => nodes_complete(parameter.children@),
        Node::JSXElementName(name) => jsx_element_name_complete(name),
        Node::JSXMemberExpressionObject(object) => jsx_member_expression_object_complete(object),
        Node::JSXExpressionContainer(container) => nodes_complete(container.children@),
        Node::JSXSpreadAttribute(attribute) => nodes_complete(attribute.children@),
        Node::JSXSpreadChild(child) => nodes_complete(child.children@),
        Node::JSXAttribute(attribute) => jsx_attribute_complete(attribute),
        Node::Other(children) => nodes_complete(children@),
        _ => true,
    }
}

/// Does leaving an expression always undo what entering it did to the JSX state?
pub open spec fn is_balanced<J: JSXState>() -> bool {
    &&& forall|jsx: J| (#[trigger] jsx.spec_enter_jsx_expression()).spec_exit_jsx_expression() == jsx
    &&& forall|jsx: J, member_expr: MemberExpression<'_>|
        (#[trigger] jsx.spec_enter_member_expression(member_expr)).spec_exit_member_expression(
            member_expr,
        ) == jsx
}

/// Do two walks change the same kinds, and come to the same JSX state?
spec fn is_same_update<J>(first: Trace<J>, second: Trace<J>) -> bool {
    updates(first.actions) == updates(second.actions) && first.jsx == second.jsx
}

/// Does each request name an ESTree token type, if it names any?
pub open spec fn has_estree_types(actions: Seq<Action>) -> bool {
    forall|k: int|
        0 <= k < actions.len() ==> ((#[trigger] actions[k]) matches Action::UnsafeToken {
            token_type,
            ..
        } ==> is_estree_type(token_type))
}

/// Style `ts`, with the text parts of templates or without them.
spec fn style(ts: bool, quasis: bool) -> Style {
    Style { ts, quasis }
}

/// The requests of two walks, one after the other.
proof fn lemma_then_trace<J>(first: Trace<J>, second: Trace<J>)
    ensures
        updates(first.then_trace(second).actions) == updates(first.actions) + updates(
            second.actions,
        ),
        has_estree_types(first.actions) && has_estree_types(second.actions) ==> has_estree_types(
            first.then_trace(second).actions,
        ),
{
    Seq::filter_distributes_over_add(
        first.actions,
        second.actions,
        |action: Action| is_update(action),
    );
}

/// A request for a text part of a template changes no kind.
proof fn lemma_no_update<J>(quasi: TemplateElement, jsx: J)
    ensures
        updates(Trace::one(quasi_action(quasi), jsx).actions) == Seq::<Action>::empty(),
{
    reveal(Seq::filter);
    let actions = seq![quasi_action(quasi)];
    assert(actions.drop_last() =~= Seq::empty());
    assert(updates(actions.drop_last()) == Seq::<Action>::empty());
}

// Each of the following lemmas is about walks over one sort of node:
// - they change the same kinds, whether they ask for the text parts of templates or not;
// - they end in the JSX state in which they started, if that is balanced;
// - they ask for ESTree token types.

proof fn lemma_nodes<J: JSXState>(nodes: Seq<Node<'_>>, n: nat, ts: bool, jsx: J)
    requires
        n <= nodes.len(),
    ensures
        nodes_complete(nodes) ==> is_same_update(
            nodes_trace(nodes, n, style(ts, true), jsx),
            nodes_trace(nodes, n, style(ts, false), jsx),
        ),
        is_balanced::<J>() ==> nodes_trace(nodes, n, style(ts, true), jsx).jsx == jsx,
        has_estree_types(nodes_trace(nodes, n, style(ts, true), jsx).actions),
        is_balanced::<J>() ==> nodes_trace(nodes, n, style(ts, false), jsx).jsx == jsx,
        has_estree_types(nodes_trace(nodes, n, style(ts, false), jsx).actions),
    decreases nodes, n,
{
    if n > 0 {
        lemma_nodes(nodes, (n - 1) as nat, ts, jsx);
        let first = nodes_trace(nodes, (n - 1) as nat, style(ts, true), jsx);
        let second = nodes_trace(nodes, (n - 1) as nat, style(ts, false), jsx);
        lemma_node(nodes[n - 1], ts, first.jsx);
        lemma_node(nodes[n - 1], ts, second.jsx);
        lemma_then_trace(first, node_trace(nodes[n - 1], style(ts, true), first.jsx));
        lemma_then_trace(second, node_trace(nodes[n - 1], style(ts, false), second.jsx));
    }
}

proof fn lemma_jsx_expression<J: JSXState>(children: Seq<Node<'_>>, ts: bool, jsx: J)
    ensures
        nodes_complete(children) ==> is_same_update(
            jsx_expression_trace(children, style(ts, true), jsx),
            jsx_expression_trace(children, style(ts, false), jsx),
        ),
        is_balanced::<J>() ==> jsx_expression_trace(children, style(ts, true), jsx).jsx == jsx,
        has_estree_types(jsx_expression_trace(children, style(ts, true), jsx).actions),
        is_balanced::<J>() ==> jsx_expression_trace(children, style(ts, false), jsx).jsx == jsx,
        has_estree_types(jsx_expression_trace(children, style(ts, false), jsx).actions),
    decreases children, children.len() + 1,
{
    lemma_nodes(children, children.len(), ts, jsx.spec_enter_jsx_expression());
}

proof fn lemma_interleaved<J: JSXState>(
    quasis: Seq<TemplateElement>,
    parts: Seq<Node<'_>>,
    n: nat,
    ts: bool,
    jsx: J,
)
    requires
        n <= interleaved_parts(quasis, parts),
    ensures
        template_complete(quasis, parts) ==> is_same_update(
            interleaved_trace(quasis, parts, n, style(ts, true), jsx),
            nodes_trace(parts, n, style(ts, false), jsx),
        ),
        is_balanced::<J>() ==> interleaved_trace(quasis, parts, n, style(ts, true), jsx).jsx == jsx,
        has_estree_types(interleaved_trace(quasis, parts, n, style(ts, true), jsx).actions),
    decreases parts, n,
{
    if n == 0 {
        if quasis.len() > 0 {
            lemma_no_update(quasis[0], jsx);
        }
        reveal(Seq::filter);
    } else {
        lemma_interleaved(quasis, parts, (n - 1) as nat, ts, jsx);
        let first = interleaved_trace(quasis, parts, (n - 1) as nat, style(ts, true), jsx);
        let second = nodes_trace(parts, (n - 1) as nat, style(ts, false), jsx);
        lemma_node(parts[n - 1], ts, first.jsx);
        lemma_node(parts[n - 1], ts, second.jsx);
        let part = node_trace(parts[n - 1], style(ts, true), first.jsx);
        lemma_then_trace(first, part);
        lemma_no_update(quasis[n as int], part.jsx);
        lemma_then_trace(
            first.then_trace(part),
            Trace::one(quasi_action(quasis[n as int]), part.jsx),
        );
        lemma_then_trace(second, node_trace(parts[n - 1], style(ts, false), second.jsx));
        assert(nodes_complete(parts) ==> node_complete(parts[n - 1]));
        assert(updates(first.then_trace(part).actions) + Seq::<Action>::empty() =~= updates(
            first.then_trace(part).actions,
        ));
    }
}

proof fn lemma_template<J: JSXState>(
    quasis: Seq<TemplateElement>,
    parts: Seq<Node<'_>>,
    ts: bool,
    jsx: J,
)
    ensures
        template_complete(quasis, parts) ==> is_same_update(
            template_trace(quasis, parts, style(ts, true), jsx),
            template_trace(quasis, parts, style(ts, false), jsx),
        ),
        is_balanced::<J>() ==> template_trace(quasis, parts, style(ts, true), jsx).jsx == jsx,
        has_estree_types(template_trace(quasis, parts, style(ts, true), jsx).actions),
        is_balanced::<J>() ==> template_trace(quasis, parts, style(ts, false), jsx).jsx == jsx,
        has_estree_types(template_trace(quasis, parts, style(ts, false), jsx).actions),
    decreases parts, parts.len() + 1,
{
    lemma_interleaved(quasis, parts, interleaved_parts(quasis, parts), ts, jsx);
    lemma_nodes(parts, parts.len(), ts, jsx);
}

proof fn lemma_property_key<J: JSXState>(key: PropertyKey<'_>, ts: bool, jsx: J)
    ensures
        property_key_complete(key) ==> is_same_update(
            property_key_trace(key, style(ts, true), jsx),
            property_key_trace(key, style(ts, false), jsx),
        ),
        is_balanced::<J>() ==> property_key_trace(key, style(ts, true), jsx).jsx == jsx,
        has_estree_types(property_key_trace(key, style(ts, true), jsx).actions),
        is_balanced::<J>() ==> property_key_trace(key, style(ts, false), jsx).jsx == jsx,
        has_estree_types(property_key_trace(key, style(ts, false), jsx).actions),
    decreases key, 0nat,
{
    match key {
        PropertyKey::StaticIdentifier(_) => {},
        PropertyKey::Other(key) => {
            lemma_node(*key, ts, jsx);
        },
    }
}

proof fn lemma_property<J: JSXState>(property: Property<'_>, skip_key: bool, ts: bool, jsx: J)
    ensures
        property_complete(property) ==> is_same_update(
            property_trace(property, skip_key, style(ts, true), jsx),
            property_trace(property, skip_key, style(ts, false), jsx),
        ),
        is_balanced::<J>() ==> property_trace(property, skip_key, style(ts, true), jsx).jsx == jsx,
        has_estree_types(property_trace(property, skip_key, style(ts, true), jsx).actions),
        is_balanced::<J>() ==> property_trace(property, skip_key, style(ts, false), jsx).jsx == jsx,
        has_estree_types(property_trace(property, skip_key, style(ts, false), jsx).actions),
    decreases property, 0nat,
{
    let first = property_key_trace(property.key, style(ts, true), jsx);
    let second = property_key_trace(property.key, style(ts, false), jsx);
    lemma_property_key(property.key, ts, jsx);
    lemma_node(*property.value, ts, jsx);
    lemma_node(*property.value, ts, first.jsx);
    lemma_node(*property.value, ts, second.jsx);
    lemma_then_trace(first, node_trace(*property.value, style(ts, true), first.jsx));
    lemma_then_trace(second, node_trace(*property.value, style(ts, false), second.jsx));
}

proof fn lemma_import_option<J: JSXState>(property: ObjectPropertyKind<'_>, ts: bool, jsx: J)
    ensures
        import_option_complete(property) ==> is_same_update(
            import_option_trace(property, style(ts, true), jsx),
            import_option_trace(property, style(ts, false), jsx),
        ),
        is_balanced::<J>() ==> import_option_trace(property, style(ts, true), jsx).jsx == jsx,
        has_estree_types(import_option_trace(property, style(ts, true), jsx).actions),
        is_balanced::<J>() ==> import_option_trace(property, style(ts, false), jsx).jsx == jsx,
        has_estree_types(import_option_trace(property, style(ts, false), jsx).actions),
    decreases property, 0nat,
{
    match property {
        ObjectPropertyKind::ObjectProperty(property) => {
            lemma_property(property, is_with_key(property.key), ts, jsx);
        },
        ObjectPropertyKind::SpreadProperty(spread) => {
            lemma_node(*spread, ts, jsx);
        },
    }
}

proof fn lemma_import_options<J: JSXState>(
    properties: Seq<ObjectPropertyKind<'_>>,
    n: nat,
    ts: bool,
    jsx: J,
)
    requires
        n <= properties.len(),
    ensures
        import_options_complete(properties) ==> is_same_update(
            import_options_trace(properties, n, style(ts, true), jsx),
            import_options_trace(properties, n, style(ts, false), jsx),
        ),
        is_balanced::<J>() ==> import_options_trace(properties, n, style(ts, true), jsx).jsx == jsx,
        has_estree_types(import_options_trace(properties, n, style(ts, true), jsx).actions),
        is_balanced::<J>() ==> import_options_trace(properties, n, style(ts, false), jsx).jsx
            == jsx,
        has_estree_types(import_options_trace(properties, n, style(ts, false), jsx).actions),
    decreases properties, n,
{
    if n > 0 {
        let property = properties[n - 1];
        lemma_import_options(properties, (n - 1) as nat, ts, jsx);
        let first = import_options_trace(properties, (n - 1) as nat, style(ts, true), jsx);
        let second = import_options_trace(properties, (n - 1) as nat, style(ts, false), jsx);
        lemma_import_option(property, ts, first.jsx);
        lemma_import_option(property, ts, second.jsx);
        lemma_then_trace(first, import_option_trace(property, style(ts, true), first.jsx));
        lemma_then_trace(second, import_option_trace(property, style(ts, false), second.jsx));
    }
}

proof fn lemma_import_type<J: JSXState>(import_type: TSImportType<'_>, ts: bool, jsx: J)
    ensures
        import_type_complete(import_type) ==> is_same_update(
            import_type_trace(import_type, style(ts, true), jsx),
            import_type_trace(import_type, style(ts, false), jsx),
        ),
        is_balanced::<J>() ==> import_type_trace(import_type, style(ts, true), jsx).jsx == jsx,
        has_estree_types(import_type_trace(import_type, style(ts, true), jsx).actions),
        is_balanced::<J>() ==> import_type_trace(import_type, style(ts, false), jsx).jsx == jsx,
        has_estree_types(import_type_trace(import_type, style(ts, false), jsx).actions),
    decreases import_type, 0nat,
{
    let source = string_trace(import_type.source, jsx);
    let (first, second) = match import_type.options {
        Some(options) => {
            lemma_import_options(options@, options@.len(), ts, source.jsx);
            let first = import_options_trace(
                options@,
                options@.len(),
                style(ts, true),
                source.jsx,
            );
            let second = import_options_trace(
                options@,
                options@.len(),
                style(ts, false),
                source.jsx,
            );
            lemma_then_trace(source, first);
            lemma_then_trace(source, second);
            (source.then_trace(first), source.then_trace(second))
        },
        None => (source, source),
    };
    let (first, second) = match import_type.qualifier {
        Some(qualifier) => {
            lemma_node(*qualifier, ts, first.jsx);
            lemma_node(*qualifier, ts, second.jsx);
            let first_next = node_trace(*qualifier, style(ts, true), first.jsx);
            let second_next = node_trace(*qualifier, style(ts, false), second.jsx);
            lemma_then_trace(first, first_next);
            lemma_then_trace(second, second_next);
            (first.then_trace(first_next), second.then_trace(second_next))
        },
        None => (first, second),
    };
    if let Some(arguments) = import_type.type_arguments {
        lemma_node(*arguments, ts, first.jsx);
        lemma_node(*arguments, ts, second.jsx);
        lemma_then_trace(first, node_trace(*arguments, style(ts, true), first.jsx));
        lemma_then_trace(second, node_trace(*arguments, style(ts, false), second.jsx));
    }
}

proof fn lemma_type_query_expr_name<J: JSXState>(expr_name: TSTypeQueryExprName<'_>, ts: bool, jsx: J)
    ensures
        type_query_expr_name_complete(expr_name) ==> is_same_update(
            type_query_expr_name_trace(expr_name, style(ts, true), jsx),
            type_query_expr_name_trace(expr_name, style(ts, false), jsx),
        ),
        is_balanced::<J>() ==> type_query_expr_name_trace(expr_name, style(ts, true), jsx).jsx == jsx,
        has_estree_types(type_query_expr_name_trace(expr_name, style(ts, true), jsx).actions),
        is_balanced::<J>() ==> type_query_expr_name_trace(expr_name, style(ts, false), jsx).jsx == jsx,
        has_estree_types(type_query_expr_name_trace(expr_name, style(ts, false), jsx).actions),
    decreases expr_name, 0nat,
{
    match expr_name {
        TSTypeQueryExprName::TSImportType(import_type) => {
            lemma_import_type(*import_type, ts, jsx);
        },
        TSTypeQueryExprName::QualifiedName(parts) => {
            lemma_nodes(parts@, parts@.len(), ts, jsx);
        },
        _ => {},
    }
}

proof fn lemma_type_name<J: JSXState>(ts_name: TSTypeName<'_>, ts: bool, jsx: J)
    ensures
        type_name_complete(ts_name) ==> is_same_update(
            type_name_trace(ts_name, style(ts, true), jsx),
            type_name_trace(ts_name, style(ts, false), jsx),
        ),
        is_balanced::<J>() ==> type_name_trace(ts_name, style(ts, true), jsx).jsx == jsx,
        has_estree_types(type_name_trace(ts_name, style(ts, true), jsx).actions),
        is_balanced::<J>() ==> type_name_trace(ts_name, style(ts, false), jsx).jsx == jsx,
        has_estree_types(type_name_trace(ts_name, style(ts, false), jsx).actions),
    decreases ts_name, 0nat,
{
    match ts_name {
        TSTypeName::QualifiedName(parts) => {
            lemma_nodes(parts@, parts@.len(), ts, jsx);
        },
        _ => {},
    }
}

proof fn lemma_this_parameter<J: JSXState>(parameter: TSThisParameter<'_>, ts: bool, jsx: J)
    ensures
        nodes_complete(parameter.children@) ==> is_same_update(
            this_parameter_trace(parameter, style(ts, true), jsx),
            this_parameter_trace(parameter, style(ts, false), jsx),
        ),
        is_balanced::<J>() ==> this_parameter_trace(parameter, style(ts, true), jsx).jsx == jsx,
        has_estree_types(this_parameter_trace(parameter, style(ts, true), jsx).actions),
        is_balanced::<J>() ==> this_parameter_trace(parameter, style(ts, false), jsx).jsx == jsx,
        has_estree_types(this_parameter_trace(parameter, style(ts, false), jsx).actions),
    decreases parameter, 0nat,
{
    let children = parameter.children@;
    let this = this_trace(parameter.this_span.start, jsx);
    lemma_nodes(children, children.len(), ts, jsx);
    lemma_then_trace(this, nodes_trace(children, children.len(), style(ts, true), jsx));
    lemma_then_trace(this, nodes_trace(children, children.len(), style(ts, false), jsx));
}

proof fn lemma_member_expression<J: JSXState>(
    member_expr: MemberExpression<'_>,
    ts: bool,
    jsx: J,
)
    ensures
        nodes_complete(member_expr.children@) ==> is_same_update(
            member_expression_trace(member_expr, style(ts, true), jsx),
            member_expression_trace(member_expr, style(ts, false), jsx),
        ),
        is_balanced::<J>() ==> member_expression_trace(member_expr, style(ts, true), jsx).jsx
            == jsx,
        has_estree_types(member_expression_trace(member_expr, style(ts, true), jsx).actions),
        is_balanced::<J>() ==> member_expression_trace(member_expr, style(ts, false), jsx).jsx
            == jsx,
        has_estree_types(member_expression_trace(member_expr, style(ts, false), jsx).actions),
    decreases member_expr, 0nat,
{
    lemma_nodes(
        member_expr.children@,
        member_expr.children@.len(),
        ts,
        jsx.spec_enter_member_expression(member_expr),
    );
}

proof fn lemma_jsx_element_name<J: JSXState>(name: JSXElementName<'_>, ts: bool, jsx: J)
    ensures
        jsx_element_name_complete(name) ==> is_same_update(
            jsx_element_name_trace(name, style(ts, true), jsx),
            jsx_element_name_trace(name, style(ts, false), jsx),
        ),
        is_balanced::<J>() ==> jsx_element_name_trace(name, style(ts, true), jsx).jsx == jsx,
        has_estree_types(jsx_element_name_trace(name, style(ts, true), jsx).actions),
        is_balanced::<J>() ==> jsx_element_name_trace(name, style(ts, false), jsx).jsx == jsx,
        has_estree_types(jsx_element_name_trace(name, style(ts, false), jsx).actions),
    decreases name, 0nat,
{
    if let JSXElementName::Other(children) = name {
        lemma_nodes(children@, children@.len(), ts, jsx);
    }
}

proof fn lemma_jsx_member_expression_object<J: JSXState>(object: JSXMemberExpressionObject<'_>, ts: bool, jsx: J)
    ensures
        jsx_member_expression_object_complete(object) ==> is_same_update(
            jsx_member_expression_object_trace(object, style(ts, true), jsx),
            jsx_member_expression_object_trace(object, style(ts, false), jsx),
        ),
        is_balanced::<J>() ==> jsx_member_expression_object_trace(object, style(ts, true), jsx).jsx == jsx,
        has_estree_types(jsx_member_expression_object_trace(object, style(ts, true), jsx).actions),
        is_balanced::<J>() ==> jsx_member_expression_object_trace(object, style(ts, false), jsx).jsx == jsx,
        has_estree_types(jsx_member_expression_object_trace(object, style(ts, false), jsx).actions),
    decreases object, 0nat,
{
    if let JSXMemberExpressionObject::Other(children) = object {
        lemma_nodes(children@, children@.len(), ts, jsx);
    }
}

proof fn lemma_jsx_attribute<J: JSXState>(attribute: JSXAttribute<'_>, ts: bool, jsx: J)
    ensures
        jsx_attribute_complete(attribute) ==> is_same_update(
            jsx_attribute_trace(attribute, style(ts, true), jsx),
            jsx_attribute_trace(attribute, style(ts, false), jsx),
        ),
        is_balanced::<J>() ==> jsx_attribute_trace(attribute, style(ts, true), jsx).jsx == jsx,
        has_estree_types(jsx_attribute_trace(attribute, style(ts, true), jsx).actions),
        is_balanced::<J>() ==> jsx_attribute_trace(attribute, style(ts, false), jsx).jsx == jsx,
        has_estree_types(jsx_attribute_trace(attribute, style(ts, false), jsx).actions),
    decreases attribute, 0nat,
{
    let first = node_trace(*attribute.name, style(ts, true), jsx);
    let second = node_trace(*attribute.name, style(ts, false), jsx);
    lemma_node(*attribute.name, ts, jsx);
    match attribute.value {
        Some(JSXAttributeValue::StringLiteral(literal)) => {
            let action = Action::JSXText { start: literal.span.start as int };
            lemma_then_trace(first, Trace::one(action, first.jsx));
            lemma_then_trace(second, Trace::one(action, second.jsx));
        },
        Some(JSXAttributeValue::Other(value)) => {
            lemma_node(*value, ts, first.jsx);
            lemma_node(*value, ts, second.jsx);
            lemma_then_trace(first, node_trace(*value, style(ts, true), first.jsx));
            lemma_then_trace(second, node_trace(*value, style(ts, false), second.jsx));
        },
        None => {},
    }
}

proof fn lemma_node<J: JSXState>(node: Node<'_>, ts: bool, jsx: J)
    ensures
        node_complete(node) ==> is_same_update(
            node_trace(node, style(ts, true), jsx),
            node_trace(node, style(ts, false), jsx),
        ),
        is_balanced::<J>() ==> node_trace(node, style(ts, true), jsx).jsx == jsx,
        has_estree_types(node_trace(node, style(ts, true), jsx).actions),
        is_balanced::<J>() ==> node_trace(node, style(ts, false), jsx).jsx == jsx,
        has_estree_types(node_trace(node, style(ts, false), jsx).actions),
    decreases node, 0nat,
{
    match node {
        Node::TemplateLiteral(literal) => {
            lemma_template(literal.quasis@, literal.expressions@, ts, jsx);
        },
        Node::TSTemplateLiteralType(literal) => {
            lemma_template(literal.quasis@, literal.types@, ts, jsx);
        },
        Node::MemberExpression(member_expr) => {
            lemma_member_expression(member_expr, ts, jsx);
        },
        Node::ObjectProperty(property) => {
            lemma_property(property, property.shorthand, ts, jsx);
        },
        Node::BindingProperty(property) => {
            lemma_property(property, property.shorthand, ts, jsx);
        },
        Node::TSTypeQueryExprName(expr_name) => {
            lemma_type_query_expr_name(expr_name, ts, jsx);
        },
        Node::TSTypeName(ts_name) => {
            lemma_type_name(ts_name, ts, jsx);
        },
        Node::TSImportType(import_type) => {
            lemma_import_type(import_type, ts, jsx);
        },
        Node::TSThisParameter(parameter) => {
            lemma_this_parameter(parameter, ts, jsx);
        },
        Node::JSXElementName(name) => {
            lemma_jsx_element_name(name, ts, jsx);
        },
        Node::JSXMemberExpressionObject(object) => {
            lemma_jsx_member_expression_object(object, ts, jsx);
        },
        Node::JSXExpressionContainer(container) => {
            lemma_jsx_expression(container.children@, ts, jsx);
        },
        Node::JSXSpreadAttribute(attribute) => {
            lemma_jsx_expression(attribute.children@, ts, jsx);
        },
        Node::JSXSpreadChild(child) => {
            lemma_jsx_expression(child.children@, ts, jsx);
        },
        Node::JSXAttribute(attribute) => {
            lemma_jsx_attribute(attribute, ts, jsx);
        },
        Node::Other(children) => {
            lemma_nodes(children@, children@.len(), ts, jsx);
        },
        _ => {},
    }
}

/// Whether a walk asks for the text parts of templates or not, it changes the same kinds, as long as
/// every template has one text part more than it has interpolated parts.
pub proof fn law_text_parts_change_no_kind<J: JSXState>(program: Program<'_>, ts: bool, jsx: J)
    requires
        nodes_complete(program.children@),
    ensures
        updates(program_trace(program, (Style { ts, quasis: true }), jsx).actions) == updates(
            program_trace(program, (Style { ts, quasis: false }), jsx).actions,
        ),
{
    lemma_nodes(program.children@, program.children@.len(), ts, jsx);
}

/// If leaving an expression undoes what entering it did to the JSX state, then a walk over a program
/// ends in the JSX state in which it started.
pub proof fn law_jsx_state_is_restored<J: JSXState>(program: Program<'_>, style: Style, jsx: J)
    requires
        is_balanced::<J>(),
    ensures
        program_trace(program, style, jsx).jsx == jsx,
{
    lemma_nodes(program.children@, program.children@.len(), style.ts, jsx);
}

/// A walk asks for nothing but ESTree token types.
pub proof fn law_requests_have_estree_types<J: JSXState>(
    program: Program<'_>,
    style: Style,
    jsx: J,
)
    ensures
        has_estree_types(program_trace(program, style, jsx).actions),
{
    lemma_nodes(program.children@, program.children@.len(), style.ts, jsx);
}

} // verus!
