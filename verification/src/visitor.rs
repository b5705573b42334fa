//! The walk over an AST.

use vstd::prelude::*;

use crate::ast::{
    BindingProperty, ExportSpecifier, Identifier, ImportSpecifier, JSXAttribute, JSXAttributeValue,
    JSXElementName, JSXExpressionContainer, JSXMemberExpressionObject, JSXNamespacedName,
    JSXSpreadAttribute, JSXSpreadChild, JSXText, MemberExpression, ModuleExportName, Node,
    ObjectProperty, ObjectPropertyKind, Program, Property, PropertyKey, RegExpLiteral, StringLiteral,
    TSImportType, TSTemplateLiteralType, TSThisParameter, TSTypeName, TSTypeQueryExprName,
    TemplateElement, TemplateLiteral,
};
use crate::config::JSXState;
use crate::context::{accepts_all, lemma_run_concat, run, Context};
use crate::text::same_text;
use crate::trace::{
    export_specifier_trace, identifier_trace, import_option_trace,
    import_options_trace, import_specifier_trace, import_type_trace, interleaved_parts,
    interleaved_trace, jsx_attribute_trace, jsx_element_name_trace,
    jsx_expression_trace, jsx_identifier_trace, jsx_member_expression_object_trace,
    jsx_namespaced_name_trace, jsx_text_trace, member_expression_trace, module_export_name_trace,
    node_trace, nodes_trace, plain_identifier_trace,
    private_identifier_trace, program_trace, property_key_trace, property_trace, quasi_action, regexp_action,
    string_trace, template_trace, this_parameter_trace, this_trace, type_name_trace,
    type_query_expr_name_trace, Action, Style, Trace,
};

verus! {

/// Walks an AST, and hands its requests to a context, in source order.
pub struct Visitor<C> {
    pub ctx: C,
}

impl<'a, C: Context<'a>> Visitor<C> {
    /// What the requests depend on besides the AST and the JSX state.
    pub open spec fn style(self) -> Style {
        Style { ts: self.ctx.spec_is_ts(), quasis: C::spec_needs_quasis() }
    }

    /// May the walk `trace` be made?
    pub open spec fn ready(self, trace: Trace<C::JSXState>) -> bool {
        self.ctx.inv() && accepts_all::<C>(self.ctx.model(), trace.actions)
    }

    /// Has the walk `trace`, and nothing else, been made since `before`?
    pub open spec fn walked(self, before: Self, trace: Trace<C::JSXState>) -> bool {
        &&& self.ctx.inv()
        &&& self.ctx.model() == run::<C>(before.ctx.model(), trace.actions)
        &&& self.ctx.jsx() == trace.jsx
        &&& self.ctx.spec_is_ts() == before.ctx.spec_is_ts()
    }

    /// A walk in two parts may be made if the first may be made, and then the second.
    proof fn lemma_then_trace(self, first: Trace<C::JSXState>, second: Trace<C::JSXState>)
        ensures
            run::<C>(self.ctx.model(), first.then_trace(second).actions) == run::<C>(
                run::<C>(self.ctx.model(), first.actions),
                second.actions,
            ),
            accepts_all::<C>(self.ctx.model(), first.then_trace(second).actions) <==> {
                &&& accepts_all::<C>(self.ctx.model(), first.actions)
                &&& accepts_all::<C>(run::<C>(self.ctx.model(), first.actions), second.actions)
            },
    {
        lemma_run_concat::<C>(self.ctx.model(), first.actions, second.actions);
    }

    /// If all of `nodes` may be visited, then so may the first `n`.
    proof fn lemma_nodes_ready(self, nodes: Seq<Node<'a>>, n: nat)
        requires
            n <= nodes.len(),
            self.ready(nodes_trace(nodes, nodes.len(), self.style(), self.ctx.jsx())),
        ensures
            self.ready(nodes_trace(nodes, n, self.style(), self.ctx.jsx())),
        decreases nodes.len() - n,
    {
        if n < nodes.len() {
            self.lemma_nodes_ready(nodes, n + 1);
            let before = nodes_trace(nodes, n, self.style(), self.ctx.jsx());
            self.lemma_then_trace(before, node_trace(nodes[n as int], self.style(), before.jsx));
        }
    }

    /// If all of `properties` may be visited, then so may the first `n`.
    proof fn lemma_import_options_ready(self, properties: Seq<ObjectPropertyKind<'a>>, n: nat)
        requires
            n <= properties.len(),
            self.ready(
                import_options_trace(
                    properties,
                    properties.len(),
                    self.style(),
                    self.ctx.jsx(),
                ),
            ),
        ensures
            self.ready(import_options_trace(properties, n, self.style(), self.ctx.jsx())),
        decreases properties.len() - n,
    {
        if n < properties.len() {
            self.lemma_import_options_ready(properties, n + 1);
            let before = import_options_trace(properties, n, self.style(), self.ctx.jsx());
            self.lemma_then_trace(
                before,
                import_option_trace(properties[n as int], self.style(), before.jsx),
            );
        }
    }

    /// If a whole template may be visited, then so may its first `n` interpolated parts.
    proof fn lemma_interleaved_ready(
        self,
        quasis: Seq<TemplateElement>,
        parts: Seq<Node<'a>>,
        n: nat,
    )
        requires
            n <= interleaved_parts(quasis, parts),
            self.ready(
                interleaved_trace(
                    quasis,
                    parts,
                    interleaved_parts(quasis, parts),
                    self.style(),
                    self.ctx.jsx(),
                ),
            ),
        ensures
            self.ready(interleaved_trace(quasis, parts, n, self.style(), self.ctx.jsx())),
        decreases interleaved_parts(quasis, parts) - n,
    {
        if n < interleaved_parts(quasis, parts) {
            self.lemma_interleaved_ready(quasis, parts, n + 1);
            let before = interleaved_trace(quasis, parts, n, self.style(), self.ctx.jsx());
            let part = node_trace(parts[n as int], self.style(), before.jsx);
            self.lemma_then_trace(before, part);
            self.lemma_then_trace(
                before.then_trace(part),
                Trace::one(quasi_action(quasis[(n + 1) as int]), part.jsx),
            );
        }
    }

    /// The name of a property, or another name which is no reference.
    pub fn visit_identifier_name(&mut self, identifier: &Identifier<'a>)
        requires
            old(self).ready(identifier_trace(*identifier, old(self).style(), old(self).ctx.jsx())),
        ensures
            final(self).walked(
                *old(self),
                identifier_trace(*identifier, old(self).style(), old(self).ctx.jsx()),
            ),
    {
        if self.ctx.is_ts() && self.ctx.jsx_state().should_emit_jsx_identifier() {
            self.ctx.emit_jsx_identifier_at(identifier.span.start, identifier.name);
        } else {
            self.ctx.emit_identifier_at(identifier.span.start, identifier.name);
        }
    }

    /// A reference to a variable.
    pub fn visit_identifier_reference(&mut self, identifier: &Identifier<'a>)
        requires
            old(self).ready(identifier_trace(*identifier, old(self).style(), old(self).ctx.jsx())),
        ensures
            final(self).walked(
                *old(self),
                identifier_trace(*identifier, old(self).style(), old(self).ctx.jsx()),
            ),
    {
        if self.ctx.is_ts() && self.ctx.jsx_state().should_emit_jsx_identifier() {
            self.ctx.emit_jsx_identifier_at(identifier.span.start, identifier.name);
        } else {
            self.ctx.emit_identifier_at(identifier.span.start, identifier.name);
        }
    }

    /// The name of a variable that is declared.
    pub fn visit_binding_identifier(&mut self, identifier: &Identifier<'a>)
        requires
            old(self).ready(plain_identifier_trace(*identifier, old(self).ctx.jsx())),
        ensures
            final(self).walked(
                *old(self),
                plain_identifier_trace(*identifier, old(self).ctx.jsx()),
            ),
    {
        self.ctx.emit_identifier_at(identifier.span.start, identifier.name);
    }

    /// A label.
    pub fn visit_label_identifier(&mut self, identifier: &Identifier<'a>)
        requires
            old(self).ready(plain_identifier_trace(*identifier, old(self).ctx.jsx())),
        ensures
            final(self).walked(
                *old(self),
                plain_identifier_trace(*identifier, old(self).ctx.jsx()),
            ),
    {
        self.ctx.emit_identifier_at(identifier.span.start, identifier.name);
    }

    /// A private name.
    pub fn visit_private_identifier(&mut self, identifier: &Identifier<'a>)
        requires
            old(self).ready(private_identifier_trace(*identifier, old(self).ctx.jsx())),
        ensures
            final(self).walked(
                *old(self),
                private_identifier_trace(*identifier, old(self).ctx.jsx()),
            ),
    {
        self.ctx.emit_private_identifier_at(identifier.span.start, identifier.name);
    }

    /// A regular expression.
    pub fn visit_reg_exp_literal(&mut self, regexp: &RegExpLiteral<'a>)
        requires
            old(self).ready(Trace::one(regexp_action(*regexp), old(self).ctx.jsx())),
        ensures
            final(self).walked(
                *old(self),
                Trace::one(regexp_action(*regexp), old(self).ctx.jsx()),
            ),
    {
        self.ctx.emit_regexp(regexp);
    }

    /// A string.
    pub fn visit_string_literal(&mut self, literal: &StringLiteral)
        requires
            old(self).ready(string_trace(*literal, old(self).ctx.jsx())),
        ensures
            final(self).walked(
                *old(self),
                string_trace(*literal, old(self).ctx.jsx()),
            ),
    {
        self.ctx.emit_unsafe_token_at(literal.span.start, "String");
    }

    /// JSX text.
    pub fn visit_jsx_text(&mut self, text: &JSXText)
        requires
            old(self).ready(jsx_text_trace(*text, old(self).ctx.jsx())),
        ensures
            final(self).walked(
                *old(self),
                jsx_text_trace(*text, old(self).ctx.jsx()),
            ),
    {
        self.ctx.emit_unsafe_token_at(text.span.start, "JSXText");
    }

    /// A name in JSX.
    pub fn visit_jsx_identifier(&mut self, identifier: &Identifier<'a>)
        requires
            old(self).ready(jsx_identifier_trace(*identifier, old(self).ctx.jsx())),
        ensures
            final(self).walked(
                *old(self),
                jsx_identifier_trace(*identifier, old(self).ctx.jsx()),
            ),
    {
        self.ctx.emit_jsx_identifier_at(identifier.span.start, identifier.name);
    }

    /// `import.meta` or `new.target`.
    ///
    /// Nothing to ask for: the keyword is a keyword, and the name after the dot an identifier.
    pub fn visit_meta_property(&mut self)
        requires
            old(self).ctx.inv(),
        ensures
            final(self).walked(*old(self), Trace::none(old(self).ctx.jsx())),
    {
    }

    /// The name under which a module imports or exports something.
    pub fn visit_module_export_name(&mut self, name: &ModuleExportName<'a>)
        requires
            old(self).ready(
                module_export_name_trace(*name, old(self).style(), old(self).ctx.jsx()),
            ),
        ensures
            final(self).walked(
                *old(self),
                module_export_name_trace(*name, old(self).style(), old(self).ctx.jsx()),
            ),
    {
        match name {
            ModuleExportName::IdentifierName(identifier) => {
                self.visit_identifier_name(identifier);
            },
            ModuleExportName::IdentifierReference(identifier) => {
                self.visit_identifier_reference(identifier);
            },
            ModuleExportName::StringLiteral(literal) => {
                self.visit_string_literal(literal);
            },
        }
    }

    /// For `import { x }`, `imported` and `local` share the same span.
    /// Only visit `imported` when it differs from `local`, to avoid emitting the same token twice.
    pub fn visit_import_specifier(&mut self, specifier: &ImportSpecifier<'a>)
        requires
            old(self).ready(
                import_specifier_trace(*specifier, old(self).style(), old(self).ctx.jsx()),
            ),
        ensures
            final(self).walked(
                *old(self),
                import_specifier_trace(*specifier, old(self).style(), old(self).ctx.jsx()),
            ),
    {
        if specifier.imported.span() != specifier.local.span {
            proof {
                let imported = module_export_name_trace(
                    specifier.imported,
                    self.style(),
                    self.ctx.jsx(),
                );
                self.lemma_then_trace(
                    imported,
                    plain_identifier_trace(specifier.local, imported.jsx),
                );
            }
            self.visit_module_export_name(&specifier.imported);
        }
        self.visit_binding_identifier(&specifier.local);
    }

    /// For `export { x }`, `local` and `exported` share the same span.
    /// Only visit `exported` when it differs from `local`, to avoid emitting the same token twice.
    pub fn visit_export_specifier(&mut self, specifier: &ExportSpecifier<'a>)
        requires
            old(self).ready(
                export_specifier_trace(*specifier, old(self).style(), old(self).ctx.jsx()),
            ),
        ensures
            final(self).walked(
                *old(self),
                export_specifier_trace(*specifier, old(self).style(), old(self).ctx.jsx()),
            ),
    {
        proof {
            let local = module_export_name_trace(specifier.local, self.style(), self.ctx.jsx());
            self.lemma_then_trace(
                local,
                module_export_name_trace(specifier.exported, self.style(), local.jsx),
            );
        }
        self.visit_module_export_name(&specifier.local);
        if specifier.exported.span() != specifier.local.span() {
            self.visit_module_export_name(&specifier.exported);
        }
    }

    /// A JSX name with a namespace.
    pub fn visit_jsx_namespaced_name(&mut self, name: &JSXNamespacedName<'a>)
        requires
            old(self).ready(
                jsx_namespaced_name_trace(*name, old(self).style(), old(self).ctx.jsx()),
            ),
        ensures
            final(self).walked(
                *old(self),
                jsx_namespaced_name_trace(*name, old(self).style(), old(self).ctx.jsx()),
            ),
    {
        if self.ctx.is_js() {
            proof {
                self.lemma_then_trace(
                    jsx_identifier_trace(name.namespace, self.ctx.jsx()),
                    jsx_identifier_trace(name.name, self.ctx.jsx()),
                );
            }
            self.ctx.emit_jsx_identifier_at(name.namespace.span.start, name.namespace.name);
            self.ctx.emit_jsx_identifier_at(name.name.span.start, name.name.name);
        } else {
            // In TS style, these tokens retain their default type (`Identifier`)
        }
    }

    /// Nodes, one after the other.
    pub fn visit_nodes(&mut self, nodes: &Vec<Node<'a>>)
        requires
            old(self).ready(
                nodes_trace(nodes@, nodes@.len(), old(self).style(), old(self).ctx.jsx()),
            ),
        ensures
            final(self).walked(
                *old(self),
                nodes_trace(nodes@, nodes@.len(), old(self).style(), old(self).ctx.jsx()),
            ),
        decreases nodes@, 1nat,
    {
        let ghost before = *self;
        let mut i: usize = 0;
        while i < nodes.len()
            invariant
                i <= nodes@.len(),
                before.ready(nodes_trace(nodes@, nodes@.len(), before.style(), before.ctx.jsx())),
                self.walked(before, nodes_trace(nodes@, i as nat, before.style(), before.ctx.jsx())),
            decreases nodes@.len() - i,
        {
            proof {
                before.lemma_nodes_ready(nodes@, (i + 1) as nat);
                let done = nodes_trace(nodes@, i as nat, before.style(), before.ctx.jsx());
                before.lemma_then_trace(
                    done,
                    node_trace(nodes@[i as int], before.style(), done.jsx),
                );
            }
            self.visit_node(&nodes[i]);
            i += 1;
        }
    }

    /// What is inside a JSX expression: the JSX state changes for as long as it takes.
    pub fn visit_jsx_expression(&mut self, children: &Vec<Node<'a>>)
        requires
            old(self).ready(
                jsx_expression_trace(children@, old(self).style(), old(self).ctx.jsx()),
            ),
        ensures
            final(self).walked(
                *old(self),
                jsx_expression_trace(children@, old(self).style(), old(self).ctx.jsx()),
            ),
        decreases children@, 2nat,
    {
        self.ctx.jsx_state_mut().enter_jsx_expression();
        self.visit_nodes(children);
        self.ctx.jsx_state_mut().exit_jsx_expression();
    }

    /// A JSX expression.
    pub fn visit_jsx_expression_container(&mut self, container: &JSXExpressionContainer<'a>)
        requires
            old(self).ready(
                jsx_expression_trace(container.children@, old(self).style(), old(self).ctx.jsx()),
            ),
        ensures
            final(self).walked(
                *old(self),
                jsx_expression_trace(container.children@, old(self).style(), old(self).ctx.jsx()),
            ),
        decreases *container, 0nat,
    {
        self.visit_jsx_expression(&container.children);
    }

    /// Attributes which are spread into a JSX element.
    pub fn visit_jsx_spread_attribute(&mut self, attribute: &JSXSpreadAttribute<'a>)
        requires
            old(self).ready(
                jsx_expression_trace(attribute.children@, old(self).style(), old(self).ctx.jsx()),
            ),
        ensures
            final(self).walked(
                *old(self),
                jsx_expression_trace(attribute.children@, old(self).style(), old(self).ctx.jsx()),
            ),
        decreases *attribute, 0nat,
    {
        self.visit_jsx_expression(&attribute.children);
    }

    /// Children which are spread into a JSX element.
    pub fn visit_jsx_spread_child(&mut self, spread_child: &JSXSpreadChild<'a>)
        requires
            old(self).ready(
                jsx_expression_trace(
                    spread_child.children@,
                    old(self).style(),
                    old(self).ctx.jsx(),
                ),
            ),
        ensures
            final(self).walked(
                *old(self),
                jsx_expression_trace(
                    spread_child.children@,
                    old(self).style(),
                    old(self).ctx.jsx(),
                ),
            ),
        decreases *spread_child, 0nat,
    {
        self.visit_jsx_expression(&spread_child.children);
    }

    /// A member expression.
    pub fn visit_member_expression(&mut self, member_expr: &MemberExpression<'a>)
        requires
            old(self).ready(
                member_expression_trace(*member_expr, old(self).style(), old(self).ctx.jsx()),
            ),
        ensures
            final(self).walked(
                *old(self),
                member_expression_trace(*member_expr, old(self).style(), old(self).ctx.jsx()),
            ),
        decreases *member_expr, 0nat,
    {
        self.ctx.jsx_state_mut().enter_member_expression(member_expr);
        self.visit_nodes(&member_expr.children);
        self.ctx.jsx_state_mut().exit_member_expression(member_expr);
    }

    /// The key of a property.
    pub fn visit_property_key(&mut self, key: &PropertyKey<'a>)
        requires
            old(self).ready(property_key_trace(*key, old(self).style(), old(self).ctx.jsx())),
        ensures
            final(self).walked(
                *old(self),
                property_key_trace(*key, old(self).style(), old(self).ctx.jsx()),
            ),
        decreases *key, 0nat,
    {
        match key {
            PropertyKey::StaticIdentifier(identifier) => {
                self.visit_identifier_name(identifier);
            },
            PropertyKey::Other(key) => {
                self.visit_node(key);
            },
        }
    }

    /// The key of a property, unless it is skipped, and then the value.
    pub fn visit_property(&mut self, property: &Property<'a>, skip_key: bool)
        requires
            old(self).ready(
                property_trace(*property, skip_key, old(self).style(), old(self).ctx.jsx()),
            ),
        ensures
            final(self).walked(
                *old(self),
                property_trace(*property, skip_key, old(self).style(), old(self).ctx.jsx()),
            ),
        decreases *property, 0nat,
    {
        proof {
            let key = property_key_trace(property.key, self.style(), self.ctx.jsx());
            self.lemma_then_trace(key, node_trace(*property.value, self.style(), key.jsx));
        }
        if !skip_key {
            self.visit_property_key(&property.key);
        }
        self.visit_node(&property.value);
    }

    /// For shorthand `{ x }`, key and value share the same span.
    /// Skip the key to avoid emitting the same token twice.
    pub fn visit_object_property(&mut self, property: &ObjectProperty<'a>)
        requires
            old(self).ready(
                property_trace(
                    *property,
                    property.shorthand,
                    old(self).style(),
                    old(self).ctx.jsx(),
                ),
            ),
        ensures
            final(self).walked(
                *old(self),
                property_trace(
                    *property,
                    property.shorthand,
                    old(self).style(),
                    old(self).ctx.jsx(),
                ),
            ),
        decreases *property, 1nat,
    {
        self.visit_property(property, property.shorthand);
    }

    /// For shorthand `{ x }`, key and value share the same span.
    /// Skip the key to avoid emitting the same token twice.
    pub fn visit_binding_property(&mut self, property: &BindingProperty<'a>)
        requires
            old(self).ready(
                property_trace(
                    *property,
                    property.shorthand,
                    old(self).style(),
                    old(self).ctx.jsx(),
                ),
            ),
        ensures
            final(self).walked(
                *old(self),
                property_trace(
                    *property,
                    property.shorthand,
                    old(self).style(),
                    old(self).ctx.jsx(),
                ),
            ),
        decreases *property, 1nat,
    {
        self.visit_property(property, property.shorthand);
    }

    /// What `typeof` is applied to in a type.
    pub fn visit_ts_type_query_expr_name(&mut self, expr_name: &TSTypeQueryExprName<'a>)
        requires
            old(self).ready(
                type_query_expr_name_trace(*expr_name, old(self).style(), old(self).ctx.jsx()),
            ),
        ensures
            final(self).walked(
                *old(self),
                type_query_expr_name_trace(*expr_name, old(self).style(), old(self).ctx.jsx()),
            ),
        decreases *expr_name, 0nat,
    {
        // `this` is emitted as `Identifier` token instead of `Keyword`
        match expr_name {
            TSTypeQueryExprName::ThisExpression(this_expr) => {
                self.ctx.emit_this_identifier_at(this_expr.span.start);
            },
            TSTypeQueryExprName::IdentifierReference(ident) => {
                self.visit_identifier_reference(ident);
            },
            TSTypeQueryExprName::TSImportType(import_type) => {
                self.visit_ts_import_type(import_type);
            },
            TSTypeQueryExprName::QualifiedName(parts) => {
                self.visit_nodes(parts);
            },
        }
    }

    /// The name of a type.
    pub fn visit_ts_type_name(&mut self, ts_name: &TSTypeName<'a>)
        requires
            old(self).ready(type_name_trace(*ts_name, old(self).style(), old(self).ctx.jsx())),
        ensures
            final(self).walked(
                *old(self),
                type_name_trace(*ts_name, old(self).style(), old(self).ctx.jsx()),
            ),
        decreases *ts_name, 0nat,
    {
        // `this` is emitted as `Identifier` token instead of `Keyword`
        match ts_name {
            TSTypeName::ThisExpression(this_expr) => {
                self.ctx.emit_this_identifier_at(this_expr.span.start);
            },
            TSTypeName::IdentifierReference(ident) => {
                self.visit_identifier_reference(ident);
            },
            TSTypeName::QualifiedName(parts) => {
                self.visit_nodes(parts);
            },
        }
    }

    /// A property in the options of an import type.
    ///
    /// The key `with` is not visited: it needs to remain a `Keyword` token, and not get converted to
    /// `Identifier`.
    pub fn visit_import_option(&mut self, property: &ObjectPropertyKind<'a>)
        requires
            old(self).ready(import_option_trace(*property, old(self).style(), old(self).ctx.jsx())),
        ensures
            final(self).walked(
                *old(self),
                import_option_trace(*property, old(self).style(), old(self).ctx.jsx()),
            ),
        decreases *property, 0nat,
    {
        match property {
            ObjectPropertyKind::ObjectProperty(property) => {
                let is_with = match &property.key {
                    PropertyKey::StaticIdentifier(id) => same_text(id.name, "with"),
                    PropertyKey::Other(_) => false,
                };
                self.visit_property(property, is_with);
            },
            ObjectPropertyKind::SpreadProperty(spread) => {
                self.visit_node(spread);
            },
        }
    }

    /// The options of an import type.
    pub fn visit_import_options(&mut self, properties: &Vec<ObjectPropertyKind<'a>>)
        requires
            old(self).ready(
                import_options_trace(
                    properties@,
                    properties@.len(),
                    old(self).style(),
                    old(self).ctx.jsx(),
                ),
            ),
        ensures
            final(self).walked(
                *old(self),
                import_options_trace(
                    properties@,
                    properties@.len(),
                    old(self).style(),
                    old(self).ctx.jsx(),
                ),
            ),
        decreases properties@, 1nat,
    {
        let ghost before = *self;
        let mut i: usize = 0;
        while i < properties.len()
            invariant
                i <= properties@.len(),
                before.ready(
                    import_options_trace(
                        properties@,
                        properties@.len(),
                        before.style(),
                        before.ctx.jsx(),
                    ),
                ),
                self.walked(
                    before,
                    import_options_trace(properties@, i as nat, before.style(), before.ctx.jsx()),
                ),
            decreases properties@.len() - i,
        {
            proof {
                before.lemma_import_options_ready(properties@, (i + 1) as nat);
                let done = import_options_trace(
                    properties@,
                    i as nat,
                    before.style(),
                    before.ctx.jsx(),
                );
                before.lemma_then_trace(
                    done,
                    import_option_trace(properties@[i as int], before.style(), done.jsx),
                );
            }
            self.visit_import_option(&properties[i]);
            i += 1;
        }
    }

    /// An import type.
    ///
    /// `source` is visited to ensure that it is emitted with JSON encoding. The options are walked by
    /// hand, because of the key `with`.
    pub fn visit_ts_import_type(&mut self, import_type: &TSImportType<'a>)
        requires
            old(self).ready(
                import_type_trace(*import_type, old(self).style(), old(self).ctx.jsx()),
            ),
        ensures
            final(self).walked(
                *old(self),
                import_type_trace(*import_type, old(self).style(), old(self).ctx.jsx()),
            ),
        decreases *import_type, 0nat,
    {
        proof {
            let style = self.style();
            let source = string_trace(import_type.source, self.ctx.jsx());
            let options = match &import_type.options {
                Some(options) => {
                    let trace = import_options_trace(options@, options@.len(), style, source.jsx);
                    self.lemma_then_trace(source, trace);
                    source.then_trace(trace)
                },
                None => source,
            };
            let qualifier = match &import_type.qualifier {
                Some(qualifier) => {
                    let trace = node_trace(**qualifier, style, options.jsx);
                    self.lemma_then_trace(options, trace);
                    options.then_trace(trace)
                },
                None => options,
            };
            if let Some(arguments) = &import_type.type_arguments {
                self.lemma_then_trace(qualifier, node_trace(**arguments, style, qualifier.jsx));
            }
        }

        self.visit_string_literal(&import_type.source);

        if let Some(options) = &import_type.options {
            self.visit_import_options(options);
        }

        if let Some(qualifier) = &import_type.qualifier {
            self.visit_node(qualifier);
        }

        if let Some(type_arguments) = &import_type.type_arguments {
            self.visit_node(type_arguments);
        }
    }

    /// A `this` parameter.
    pub fn visit_ts_this_parameter(&mut self, parameter: &TSThisParameter<'a>)
        requires
            old(self).ready(
                this_parameter_trace(*parameter, old(self).style(), old(self).ctx.jsx()),
            ),
        ensures
            final(self).walked(
                *old(self),
                this_parameter_trace(*parameter, old(self).style(), old(self).ctx.jsx()),
            ),
        decreases *parameter, 0nat,
    {
        proof {
            self.lemma_then_trace(
                this_trace(parameter.this_span.start, self.ctx.jsx()),
                nodes_trace(
                    parameter.children@,
                    parameter.children@.len(),
                    self.style(),
                    self.ctx.jsx(),
                ),
            );
        }
        self.ctx.emit_this_identifier_at(parameter.this_span.start);
        self.visit_nodes(&parameter.children);
    }

    /// The name of a JSX element.
    pub fn visit_jsx_element_name(&mut self, name: &JSXElementName<'a>)
        requires
            old(self).ready(jsx_element_name_trace(*name, old(self).style(), old(self).ctx.jsx())),
        ensures
            final(self).walked(
                *old(self),
                jsx_element_name_trace(*name, old(self).style(), old(self).ctx.jsx()),
            ),
        decreases *name, 0nat,
    {
        match name {
            JSXElementName::IdentifierReference(identifier) => {
                self.ctx.emit_jsx_identifier_at(identifier.span.start, identifier.name);
            },
            JSXElementName::Other(children) => {
                self.visit_nodes(children);
            },
        }
    }

    /// The object of a JSX member expression.
    pub fn visit_jsx_member_expression_object(&mut self, object: &JSXMemberExpressionObject<'a>)
        requires
            old(self).ready(
                jsx_member_expression_object_trace(*object, old(self).style(), old(self).ctx.jsx()),
            ),
        ensures
            final(self).walked(
                *old(self),
                jsx_member_expression_object_trace(*object, old(self).style(), old(self).ctx.jsx()),
            ),
        decreases *object, 0nat,
    {
        match object {
            JSXMemberExpressionObject::IdentifierReference(identifier) => {
                self.ctx.emit_jsx_identifier_at(identifier.span.start, identifier.name);
            },
            JSXMemberExpressionObject::Other(children) => {
                self.visit_nodes(children);
            },
        }
    }

    /// A JSX attribute. Its value gets the token type `JSXText` if it is a string.
    pub fn visit_jsx_attribute(&mut self, attribute: &JSXAttribute<'a>)
        requires
            old(self).ready(
                jsx_attribute_trace(*attribute, old(self).style(), old(self).ctx.jsx()),
            ),
        ensures
            final(self).walked(
                *old(self),
                jsx_attribute_trace(*attribute, old(self).style(), old(self).ctx.jsx()),
            ),
        decreases *attribute, 0nat,
    {
        proof {
            let name = node_trace(*attribute.name, self.style(), self.ctx.jsx());
            match &attribute.value {
                Some(JSXAttributeValue::StringLiteral(literal)) => {
                    self.lemma_then_trace(
                        name,
                        Trace::one(Action::JSXText { start: literal.span.start as int }, name.jsx),
                    );
                },
                Some(JSXAttributeValue::Other(value)) => {
                    self.lemma_then_trace(name, node_trace(**value, self.style(), name.jsx));
                },
                None => {},
            }
        }
        self.visit_node(&attribute.name);
        match &attribute.value {
            Some(JSXAttributeValue::StringLiteral(string_literal)) => {
                self.ctx.emit_jsx_text_at(string_literal.span.start);
            },
            Some(JSXAttributeValue::Other(value)) => self.visit_node(value),
            None => {},
        }
    }

    /// Walk the text parts of a template interleaved with its interpolated parts (expressions or
    /// TS types), in source order. Where text parts are not asked for, only visit the interpolated
    /// parts.
    pub fn walk_template_quasis_interleaved(
        &mut self,
        quasis: &Vec<TemplateElement>,
        interpolations: &Vec<Node<'a>>,
    )
        requires
            old(self).ready(
                template_trace(quasis@, interpolations@, old(self).style(), old(self).ctx.jsx()),
            ),
        ensures
            final(self).walked(
                *old(self),
                template_trace(quasis@, interpolations@, old(self).style(), old(self).ctx.jsx()),
            ),
        decreases interpolations@, 2nat,
    {
        if !C::needs_quasis() {
            self.visit_nodes(interpolations);
            return;
        }
        if quasis.len() == 0 {
            return;
        }
        let ghost before = *self;
        let ghost total = interleaved_parts(quasis@, interpolations@);

        // First quasi (TemplateHead or NoSubstitutionTemplate)
        proof {
            before.lemma_interleaved_ready(quasis@, interpolations@, 0);
        }
        self.visit_quasi(&quasis[0]);

        // Remaining quasis interleaved with interpolations
        let mut i: usize = 0;
        while i < interpolations.len() && i + 1 < quasis.len()
            invariant
                quasis@.len() > 0,
                total == interleaved_parts(quasis@, interpolations@),
                i <= total,
                before.ready(
                    interleaved_trace(
                        quasis@,
                        interpolations@,
                        total,
                        before.style(),
                        before.ctx.jsx(),
                    ),
                ),
                self.walked(
                    before,
                    interleaved_trace(
                        quasis@,
                        interpolations@,
                        i as nat,
                        before.style(),
                        before.ctx.jsx(),
                    ),
                ),
            decreases interpolations@.len() - i,
        {
            proof {
                before.lemma_interleaved_ready(quasis@, interpolations@, (i + 1) as nat);
                let done = interleaved_trace(
                    quasis@,
                    interpolations@,
                    i as nat,
                    before.style(),
                    before.ctx.jsx(),
                );
                let part = node_trace(interpolations@[i as int], before.style(), done.jsx);
                before.lemma_then_trace(done, part);
                before.lemma_then_trace(
                    done.then_trace(part),
                    Trace::one(quasi_action(quasis@[i + 1]), part.jsx),
                );
            }
            self.visit_node(&interpolations[i]);
            self.visit_quasi(&quasis[i + 1]);
            i += 1;
        }
    }

    /// A text part of a template.
    pub fn visit_quasi(&mut self, quasi: &TemplateElement)
        requires
            old(self).ready(Trace::one(quasi_action(*quasi), old(self).ctx.jsx())),
        ensures
            final(self).walked(
                *old(self),
                Trace::one(quasi_action(*quasi), old(self).ctx.jsx()),
            ),
    {
        self.ctx.emit_template_element(quasi);
    }

    /// A template.
    pub fn visit_template_literal(&mut self, literal: &TemplateLiteral<'a>)
        requires
            old(self).ready(
                template_trace(
                    literal.quasis@,
                    literal.expressions@,
                    old(self).style(),
                    old(self).ctx.jsx(),
                ),
            ),
        ensures
            final(self).walked(
                *old(self),
                template_trace(
                    literal.quasis@,
                    literal.expressions@,
                    old(self).style(),
                    old(self).ctx.jsx(),
                ),
            ),
        decreases *literal, 0nat,
    {
        self.walk_template_quasis_interleaved(&literal.quasis, &literal.expressions);
    }

    /// A template type.
    pub fn visit_ts_template_literal_type(&mut self, literal: &TSTemplateLiteralType<'a>)
        requires
            old(self).ready(
                template_trace(
                    literal.quasis@,
                    literal.types@,
                    old(self).style(),
                    old(self).ctx.jsx(),
                ),
            ),
        ensures
            final(self).walked(
                *old(self),
                template_trace(
                    literal.quasis@,
                    literal.types@,
                    old(self).style(),
                    old(self).ctx.jsx(),
                ),
            ),
        decreases *literal, 0nat,
    {
        self.walk_template_quasis_interleaved(&literal.quasis, &literal.types);
    }

    /// A node of any sort.
    pub fn visit_node(&mut self, node: &Node<'a>)
        requires
            old(self).ready(node_trace(*node, old(self).style(), old(self).ctx.jsx())),
        ensures
            final(self).walked(
                *old(self),
                node_trace(*node, old(self).style(), old(self).ctx.jsx()),
            ),
        decreases *node, 0nat,
    {
        match node {
            Node::IdentifierName(identifier) => self.visit_identifier_name(identifier),
            Node::IdentifierReference(identifier) => self.visit_identifier_reference(identifier),
            Node::BindingIdentifier(identifier) => self.visit_binding_identifier(identifier),
            Node::LabelIdentifier(identifier) => self.visit_label_identifier(identifier),
            Node::PrivateIdentifier(identifier) => self.visit_private_identifier(identifier),
            Node::StringLiteral(literal) => self.visit_string_literal(literal),
            Node::RegExpLiteral(regexp) => self.visit_reg_exp_literal(regexp),
            Node::TemplateLiteral(literal) => self.visit_template_literal(literal),
            Node::MemberExpression(member_expr) => self.visit_member_expression(member_expr),
            Node::ObjectProperty(property) => self.visit_object_property(property),
            Node::BindingProperty(property) => self.visit_binding_property(property),
            Node::ImportSpecifier(specifier) => self.visit_import_specifier(specifier),
            Node::ExportSpecifier(specifier) => self.visit_export_specifier(specifier),
            Node::TSTypeQueryExprName(expr_name) => self.visit_ts_type_query_expr_name(expr_name),
            Node::TSTypeName(ts_name) => self.visit_ts_type_name(ts_name),
            Node::TSImportType(import_type) => self.visit_ts_import_type(import_type),
            Node::TSThisParameter(parameter) => self.visit_ts_this_parameter(parameter),
            Node::TSTemplateLiteralType(literal) => self.visit_ts_template_literal_type(literal),
            Node::JSXIdentifier(identifier) => self.visit_jsx_identifier(identifier),
            Node::JSXElementName(name) => self.visit_jsx_element_name(name),
            Node::JSXMemberExpressionObject(object) => self.visit_jsx_member_expression_object(object),
            Node::JSXNamespacedName(name) => self.visit_jsx_namespaced_name(name),
            Node::JSXExpressionContainer(container) => self.visit_jsx_expression_container(container),
            Node::JSXSpreadAttribute(attribute) => self.visit_jsx_spread_attribute(attribute),
            Node::JSXSpreadChild(spread_child) => self.visit_jsx_spread_child(spread_child),
            Node::JSXText(text) => self.visit_jsx_text(text),
            Node::JSXAttribute(attribute) => self.visit_jsx_attribute(attribute),
            Node::MetaProperty => self.visit_meta_property(),
            Node::Other(children) => self.visit_nodes(children),
        }
    }

    /// A whole program.
    pub fn visit_program(&mut self, program: &Program<'a>)
        requires
            old(self).ready(program_trace(*program, old(self).style(), old(self).ctx.jsx())),
        ensures
            final(self).walked(
                *old(self),
                program_trace(*program, old(self).style(), old(self).ctx.jsx()),
            ),
    {
        self.visit_nodes(&program.children);
    }
}

} // verus!
