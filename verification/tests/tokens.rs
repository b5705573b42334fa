use estree_tokens::ast::{
    BindingProperty, ExportSpecifier, Identifier, ImportSpecifier, JSXAttribute, JSXAttributeValue,
    JSXElementName, JSXExpressionContainer, JSXMemberExpressionObject, JSXNamespacedName,
    JSXSpreadAttribute, JSXSpreadChild, JSXText, MemberExpression, MemberExpressionKind,
    ModuleExportName, Node, ObjectProperty, ObjectPropertyKind, Program, PropertyKey,
    RegExpLiteral, StringLiteral, TSImportType, TSTemplateLiteralType, TSThisParameter, TSTypeName,
    TSTypeQueryExprName, TemplateElement, TemplateLiteral, ThisExpression,
};
use estree_tokens::config::{ESTreeTokenConfig, JSStyle, JSXState};
use estree_tokens::estree::ESTreeToken;
use estree_tokens::kind::{get_token_type, Kind};
use estree_tokens::serialize::{
    can_serialize_tokens, can_update_tokens, serialize_tokens, try_serialize_tokens,
    try_update_tokens, update_tokens,
};
use estree_tokens::token::{Span, Token};
use oxc_ast_visit::utf8_to_utf16::Utf8ToUtf16;

/// Counts JSX expressions and the member expressions inside them.
#[derive(Default)]
struct Depths {
    jsx_expressions: usize,
    members: usize,
}

impl JSXState for Depths {
    fn spec_initial() -> Self {
        unreachable!()
    }

    fn spec_should_emit_jsx_identifier(self) -> bool {
        unreachable!()
    }

    fn spec_enter_jsx_expression(self) -> Self {
        unreachable!()
    }

    fn spec_exit_jsx_expression(self) -> Self {
        unreachable!()
    }

    fn spec_enter_member_expression(self, _: MemberExpression<'_>) -> Self {
        unreachable!()
    }

    fn spec_exit_member_expression(self, _: MemberExpression<'_>) -> Self {
        unreachable!()
    }

    fn initial() -> Self {
        Depths::default()
    }

    fn should_emit_jsx_identifier(&self) -> bool {
        self.members > 0
    }

    fn enter_jsx_expression(&mut self) {
        self.jsx_expressions += 1;
    }

    fn exit_jsx_expression(&mut self) {
        self.jsx_expressions -= 1;
    }

    fn enter_member_expression(&mut self, member_expr: &MemberExpression<'_>) {
        if self.jsx_expressions > 0 && member_expr.kind != MemberExpressionKind::Computed {
            self.members += 1;
        }
    }

    fn exit_member_expression(&mut self, member_expr: &MemberExpression<'_>) {
        if self.jsx_expressions > 0 && member_expr.kind != MemberExpressionKind::Computed {
            self.members -= 1;
        }
    }
}

#[derive(Clone, Copy)]
struct TSStyle;

impl ESTreeTokenConfig for TSStyle {
    type JSXState = Depths;

    fn spec_is_ts(&self) -> bool {
        unreachable!()
    }

    fn is_ts(&self) -> bool {
        true
    }
}

/// Tokens of `source`: each word is looked for after the one before it.
fn lex(source: &str, words: &[(&str, Kind)]) -> Vec<Token> {
    let mut tokens = vec![];
    let mut position = 0;
    for &(word, kind) in words {
        let start = position + source[position..].find(word).unwrap();
        position = start + word.len();
        tokens.push(Token {
            span: Span { start: start as u32, end: position as u32 },
            kind,
            escaped: word.contains("\\u"),
        });
    }
    tokens
}

/// Span of the `nth` token.
fn nth(tokens: &[Token], nth: usize) -> Span {
    tokens[nth].span
}

fn ident<'a>(span: Span, name: &'a str) -> Identifier<'a> {
    Identifier { span, name }
}

fn reference<'a>(span: Span, name: &'a str) -> Node<'a> {
    Node::IdentifierReference(ident(span, name))
}

fn binding<'a>(span: Span, name: &'a str) -> Node<'a> {
    Node::BindingIdentifier(ident(span, name))
}

fn program(children: Vec<Node<'_>>) -> Program<'_> {
    Program { children }
}

/// Type, value and span of a token, and whether its value needs no escaping in JSON.
type Record = (&'static str, String, u32, u32, bool);

fn record(token: &ESTreeToken<'_>) -> Record {
    match token {
        ESTreeToken::Safe(t) => {
            (t.token_type, t.value.to_string(), t.span.start, t.span.end, true)
        }
        ESTreeToken::Unsafe(t) => {
            (t.token_type, t.value.to_string(), t.span.start, t.span.end, false)
        }
        ESTreeToken::RegExp(t) => {
            ("RegularExpression", t.value.to_string(), t.span.start, t.span.end, false)
        }
    }
}

fn serialize<O: ESTreeTokenConfig>(
    source: &str,
    tokens: &[Token],
    program: &Program<'_>,
    options: O,
) -> Vec<Record> {
    let table = Utf8ToUtf16::new(source);
    assert!(can_serialize_tokens(tokens, program, source, &table, &options));
    serialize_tokens(tokens, program, source, &table, options).iter().map(record).collect()
}

fn update<O: ESTreeTokenConfig>(
    source: &str,
    tokens: &[Token],
    program: &Program<'_>,
    options: O,
) -> Vec<Token> {
    let table = Utf8ToUtf16::new(source);
    assert!(can_update_tokens(tokens, program, &table, &options));
    let mut tokens = tokens.to_vec();
    update_tokens(&mut tokens, program, &table, options);
    tokens
}

/// Serializes and updates, and compares what comes of the two.
fn types<O: ESTreeTokenConfig + Copy>(
    source: &str,
    tokens: &[Token],
    program: &Program<'_>,
    options: O,
) -> Vec<(&'static str, String)> {
    let records = serialize(source, tokens, program, options);
    let updated = update(source, tokens, program, options);
    assert_eq!(records.len(), tokens.len());
    assert_eq!(updated.len(), tokens.len());
    for (i, (token_type, _, start, end, _)) in records.iter().enumerate() {
        assert_eq!(get_token_type(updated[i].kind()), *token_type);
        assert_eq!(updated[i].span(), Span { start: *start, end: *end });
        assert_eq!(updated[i].escaped(), tokens[i].escaped());
    }
    records.into_iter().map(|(token_type, value, ..)| (token_type, value)).collect()
}

fn pairs(expected: &[(&'static str, &str)]) -> Vec<(&'static str, String)> {
    expected.iter().map(|&(token_type, value)| (token_type, value.to_string())).collect()
}

#[test]
fn default_types() {
    let source = "const x = [1, 2n, true, null, async];";
    let tokens = lex(
        source,
        &[
            ("const", Kind::Const),
            ("x", Kind::Ident),
            ("=", Kind::Eq),
            ("[", Kind::LBrack),
            ("1", Kind::Decimal),
            (",", Kind::Comma),
            ("2n", Kind::DecimalBigInt),
            (",", Kind::Comma),
            ("true", Kind::True),
            (",", Kind::Comma),
            ("null", Kind::Null),
            (",", Kind::Comma),
            ("async", Kind::Async),
            ("]", Kind::RBrack),
            (";", Kind::Semicolon),
        ],
    );
    let expected = pairs(&[
        ("Keyword", "const"),
        ("Identifier", "x"),
        ("Punctuator", "="),
        ("Punctuator", "["),
        ("Numeric", "1"),
        ("Punctuator", ","),
        ("Numeric", "2n"),
        ("Punctuator", ","),
        ("Boolean", "true"),
        ("Punctuator", ","),
        ("Null", "null"),
        ("Punctuator", ","),
        ("Identifier", "async"),
        ("Punctuator", "]"),
        ("Punctuator", ";"),
    ]);
    // Types do not depend on the AST here
    assert_eq!(types(source, &tokens, &program(vec![]), JSStyle), expected);
    let program = program(vec![Node::Other(vec![
        binding(nth(&tokens, 1), "x"),
        Node::Other(vec![reference(nth(&tokens, 12), "async")]),
    ])]);
    assert_eq!(types(source, &tokens, &program, JSStyle), expected);
    assert_eq!(types(source, &tokens, &program, TSStyle), expected);
}

#[test]
fn records_are_exact() {
    let source = "a = 'b';";
    let tokens = lex(
        source,
        &[("a", Kind::Ident), ("=", Kind::Eq), ("'b'", Kind::Str), (";", Kind::Semicolon)],
    );
    let program = program(vec![
        reference(nth(&tokens, 0), "a"),
        Node::StringLiteral(StringLiteral { span: nth(&tokens, 2) }),
    ]);
    assert_eq!(
        serialize(source, &tokens, &program, JSStyle),
        vec![
            ("Identifier", "a".to_string(), 0, 1, true),
            ("Punctuator", "=".to_string(), 2, 3, true),
            ("String", "'b'".to_string(), 4, 7, false),
            ("Punctuator", ";".to_string(), 7, 8, true),
        ]
    );
}

#[test]
fn keyword_as_property_name_is_identifier() {
    let source = "a.if";
    let tokens = lex(source, &[("a", Kind::Ident), (".", Kind::Dot), ("if", Kind::If)]);
    let program = program(vec![Node::MemberExpression(MemberExpression {
        kind: MemberExpressionKind::Static,
        children: vec![
            reference(nth(&tokens, 0), "a"),
            Node::IdentifierName(ident(nth(&tokens, 2), "if")),
        ],
    })]);
    let expected = pairs(&[("Identifier", "a"), ("Punctuator", "."), ("Identifier", "if")]);
    assert_eq!(types(source, &tokens, &program, JSStyle), expected);
    assert_eq!(types(source, &tokens, &program, TSStyle), expected);
    let updated = update(source, &tokens, &program, JSStyle);
    assert_eq!(updated[1].kind(), Kind::Dot);
    assert_eq!(updated[2].kind(), Kind::Ident);
}

#[test]
fn js_style_keeps_yield_let_static_as_keywords() {
    let source = "yield; let; static; get;";
    let tokens = lex(
        source,
        &[
            ("yield", Kind::Yield),
            (";", Kind::Semicolon),
            ("let", Kind::Let),
            (";", Kind::Semicolon),
            ("static", Kind::Static),
            (";", Kind::Semicolon),
            ("get", Kind::GetKeyword),
            (";", Kind::Semicolon),
        ],
    );
    let program = program(vec![
        reference(nth(&tokens, 0), "yield"),
        binding(nth(&tokens, 2), "let"),
        Node::LabelIdentifier(ident(nth(&tokens, 4), "static")),
        Node::IdentifierName(ident(nth(&tokens, 6), "get")),
    ]);
    let js = types(source, &tokens, &program, JSStyle);
    assert_eq!(js[0].0, "Keyword");
    assert_eq!(js[2].0, "Keyword");
    assert_eq!(js[4].0, "Keyword");
    assert_eq!(js[6].0, "Identifier");
    let ts = types(source, &tokens, &program, TSStyle);
    assert_eq!(ts[0].0, "Identifier");
    assert_eq!(ts[2].0, "Identifier");
    assert_eq!(ts[4].0, "Identifier");
    assert_eq!(ts[6].0, "Identifier");
    let updated = update(source, &tokens, &program, JSStyle);
    assert_eq!(updated[0].kind(), Kind::Yield);
    assert_eq!(updated[2].kind(), Kind::Let);
    assert_eq!(updated[4].kind(), Kind::Static);
    assert_eq!(updated[6].kind(), Kind::Ident);
}

#[test]
fn escaped_identifier_is_decoded_in_js_style_only() {
    let source = "\\u0061b;";
    let tokens = lex(source, &[("\\u0061b", Kind::Ident), (";", Kind::Semicolon)]);
    let program = program(vec![reference(nth(&tokens, 0), "ab")]);
    assert_eq!(
        serialize(source, &tokens, &program, JSStyle)[0],
        ("Identifier", "ab".to_string(), 0, 7, true)
    );
    assert_eq!(
        serialize(source, &tokens, &program, TSStyle)[0],
        ("Identifier", "\\u0061b".to_string(), 0, 7, false)
    );
}

#[test]
fn private_identifiers_lose_their_hash() {
    let source = "#abc #\\u0061b";
    let tokens = lex(
        source,
        &[("#abc", Kind::PrivateIdentifier), ("#\\u0061b", Kind::PrivateIdentifier)],
    );
    let program = program(vec![
        Node::PrivateIdentifier(ident(nth(&tokens, 0), "abc")),
        Node::PrivateIdentifier(ident(nth(&tokens, 1), "ab")),
    ]);
    assert_eq!(
        serialize(source, &tokens, &program, JSStyle),
        vec![
            ("PrivateIdentifier", "abc".to_string(), 0, 4, true),
            ("PrivateIdentifier", "ab".to_string(), 5, 13, true),
        ]
    );
    assert_eq!(
        serialize(source, &tokens, &program, TSStyle),
        vec![
            ("PrivateIdentifier", "abc".to_string(), 0, 4, true),
            ("PrivateIdentifier", "\\u0061b".to_string(), 5, 13, false),
        ]
    );
    assert_eq!(update(source, &tokens, &program, TSStyle), tokens);
}

#[test]
fn this_is_identifier_in_type_positions() {
    let source = "function f(this: this.T, x: typeof this) { this }";
    let tokens = lex(
        source,
        &[
            ("function", Kind::Function),
            ("f", Kind::Ident),
            ("(", Kind::LParen),
            ("this", Kind::This),
            (":", Kind::Colon),
            ("this", Kind::This),
            (".", Kind::Dot),
            ("T", Kind::Ident),
            (",", Kind::Comma),
            ("x", Kind::Ident),
            (":", Kind::Colon),
            ("typeof", Kind::Typeof),
            ("this", Kind::This),
            (")", Kind::RParen),
            ("{", Kind::LCurly),
            ("this", Kind::This),
            ("}", Kind::RCurly),
        ],
    );
    let program = program(vec![
        binding(nth(&tokens, 1), "f"),
        Node::TSThisParameter(TSThisParameter {
            this_span: nth(&tokens, 3),
            children: vec![Node::TSTypeName(TSTypeName::QualifiedName(vec![
                Node::TSTypeName(TSTypeName::ThisExpression(ThisExpression {
                    span: nth(&tokens, 5),
                })),
                Node::IdentifierName(ident(nth(&tokens, 7), "T")),
            ]))],
        }),
        binding(nth(&tokens, 9), "x"),
        Node::TSTypeQueryExprName(TSTypeQueryExprName::ThisExpression(ThisExpression {
            span: nth(&tokens, 12),
        })),
    ]);
    let found = types(source, &tokens, &program, TSStyle);
    assert_eq!(found[3], ("Identifier", "this".to_string()));
    assert_eq!(found[5], ("Identifier", "this".to_string()));
    assert_eq!(found[12], ("Identifier", "this".to_string()));
    assert_eq!(found[15], ("Keyword", "this".to_string()));
}

#[test]
fn names_after_typeof_and_of_types() {
    let source = "typeof async; async; typeof a.b; typeof import('m')";
    let tokens = lex(
        source,
        &[
            ("typeof", Kind::Typeof),
            ("async", Kind::Async),
            (";", Kind::Semicolon),
            ("async", Kind::Async),
            (";", Kind::Semicolon),
            ("typeof", Kind::Typeof),
            ("a", Kind::Ident),
            (".", Kind::Dot),
            ("b", Kind::Ident),
            (";", Kind::Semicolon),
            ("typeof", Kind::Typeof),
            ("import", Kind::Import),
            ("(", Kind::LParen),
            ("'m'", Kind::Str),
            (")", Kind::RParen),
        ],
    );
    let program = program(vec![
        Node::TSTypeQueryExprName(TSTypeQueryExprName::IdentifierReference(ident(
            nth(&tokens, 1),
            "async",
        ))),
        Node::TSTypeName(TSTypeName::IdentifierReference(ident(nth(&tokens, 3), "async"))),
        Node::TSTypeQueryExprName(TSTypeQueryExprName::QualifiedName(vec![
            reference(nth(&tokens, 6), "a"),
            Node::IdentifierName(ident(nth(&tokens, 8), "b")),
        ])),
        Node::TSTypeQueryExprName(TSTypeQueryExprName::TSImportType(Box::new(TSImportType {
            source: StringLiteral { span: nth(&tokens, 13) },
            options: None,
            qualifier: None,
            type_arguments: None,
        }))),
    ]);
    let found = types(source, &tokens, &program, TSStyle);
    assert_eq!(found[1].0, "Identifier");
    assert_eq!(found[3].0, "Identifier");
    assert_eq!(found[8].0, "Identifier");
    assert_eq!(found[13], ("String", "'m'".to_string()));
    assert_eq!(update(source, &tokens, &program, TSStyle)[1].kind(), Kind::Ident);
}

#[test]
fn with_stays_a_keyword_in_import_type_options() {
    let source = "import('m', { with: { type: 'json' }, ...rest }).Q<T>";
    let tokens = lex(
        source,
        &[
            ("import", Kind::Import),
            ("(", Kind::LParen),
            ("'m'", Kind::Str),
            (",", Kind::Comma),
            ("{", Kind::LCurly),
            ("with", Kind::With),
            (":", Kind::Colon),
            ("{", Kind::LCurly),
            ("type", Kind::Type),
            (":", Kind::Colon),
            ("'json'", Kind::Str),
            ("}", Kind::RCurly),
            (",", Kind::Comma),
            ("...", Kind::Dot3),
            ("rest", Kind::Ident),
            ("}", Kind::RCurly),
            (")", Kind::RParen),
            (".", Kind::Dot),
            ("Q", Kind::Ident),
            ("<", Kind::LAngle),
            ("T", Kind::Ident),
            (">", Kind::RAngle),
        ],
    );
    let attributes = Node::ObjectProperty(ObjectProperty {
        key: PropertyKey::StaticIdentifier(ident(nth(&tokens, 8), "type")),
        value: Box::new(Node::StringLiteral(StringLiteral { span: nth(&tokens, 10) })),
        shorthand: false,
    });
    let program = program(vec![Node::TSImportType(TSImportType {
        source: StringLiteral { span: nth(&tokens, 2) },
        options: Some(vec![
            ObjectPropertyKind::ObjectProperty(ObjectProperty {
                key: PropertyKey::StaticIdentifier(ident(nth(&tokens, 5), "with")),
                value: Box::new(Node::Other(vec![attributes])),
                shorthand: false,
            }),
            ObjectPropertyKind::SpreadProperty(Box::new(Node::Other(vec![reference(
                nth(&tokens, 14),
                "rest",
            )]))),
        ]),
        qualifier: Some(Box::new(Node::IdentifierName(ident(nth(&tokens, 18), "Q")))),
        type_arguments: Some(Box::new(Node::TSTypeName(TSTypeName::IdentifierReference(ident(
            nth(&tokens, 20),
            "T",
        ))))),
    })]);
    let found = types(source, &tokens, &program, TSStyle);
    assert_eq!(found[2], ("String", "'m'".to_string()));
    assert_eq!(found[5], ("Keyword", "with".to_string()));
    assert_eq!(found[8], ("Identifier", "type".to_string()));
    assert_eq!(found[10], ("String", "'json'".to_string()));
    assert_eq!(found[14], ("Identifier", "rest".to_string()));
    assert_eq!(found[18], ("Identifier", "Q".to_string()));
}

#[test]
fn other_keys_in_import_type_options_are_identifiers() {
    let source = "import('m', { assert: x, 'k': y })";
    let tokens = lex(
        source,
        &[
            ("import", Kind::Import),
            ("(", Kind::LParen),
            ("'m'", Kind::Str),
            (",", Kind::Comma),
            ("{", Kind::LCurly),
            ("assert", Kind::With),
            (":", Kind::Colon),
            ("x", Kind::Ident),
            (",", Kind::Comma),
            ("'k'", Kind::Str),
            (":", Kind::Colon),
            ("y", Kind::Ident),
            ("}", Kind::RCurly),
            (")", Kind::RParen),
        ],
    );
    let program = program(vec![Node::TSImportType(TSImportType {
        source: StringLiteral { span: nth(&tokens, 2) },
        options: Some(vec![
            ObjectPropertyKind::ObjectProperty(ObjectProperty {
                key: PropertyKey::StaticIdentifier(ident(nth(&tokens, 5), "assert")),
                value: Box::new(reference(nth(&tokens, 7), "x")),
                shorthand: false,
            }),
            ObjectPropertyKind::ObjectProperty(ObjectProperty {
                key: PropertyKey::Other(Box::new(Node::StringLiteral(StringLiteral {
                    span: nth(&tokens, 9),
                }))),
                value: Box::new(reference(nth(&tokens, 11), "y")),
                shorthand: false,
            }),
        ]),
        qualifier: None,
        type_arguments: None,
    })]);
    let found = types(source, &tokens, &program, TSStyle);
    assert_eq!(found[5].0, "Identifier");
    assert_eq!(found[9].0, "String");
}

#[test]
fn shorthand_properties_are_visited_once() {
    let source = "({ yield, if: b } = { if: c, d })";
    let tokens = lex(
        source,
        &[
            ("(", Kind::LParen),
            ("{", Kind::LCurly),
            ("yield", Kind::Yield),
            (",", Kind::Comma),
            ("if", Kind::If),
            (":", Kind::Colon),
            ("b", Kind::Ident),
            ("}", Kind::RCurly),
            ("=", Kind::Eq),
            ("{", Kind::LCurly),
            ("if", Kind::If),
            (":", Kind::Colon),
            ("c", Kind::Ident),
            (",", Kind::Comma),
            ("d", Kind::Ident),
            ("}", Kind::RCurly),
            (")", Kind::RParen),
        ],
    );
    let program = program(vec![
        Node::BindingProperty(BindingProperty {
            key: PropertyKey::StaticIdentifier(ident(nth(&tokens, 2), "yield")),
            value: Box::new(binding(nth(&tokens, 2), "yield")),
            shorthand: true,
        }),
        Node::BindingProperty(BindingProperty {
            key: PropertyKey::StaticIdentifier(ident(nth(&tokens, 4), "if")),
            value: Box::new(binding(nth(&tokens, 6), "b")),
            shorthand: false,
        }),
        Node::ObjectProperty(ObjectProperty {
            key: PropertyKey::StaticIdentifier(ident(nth(&tokens, 10), "if")),
            value: Box::new(reference(nth(&tokens, 12), "c")),
            shorthand: false,
        }),
        Node::ObjectProperty(ObjectProperty {
            key: PropertyKey::StaticIdentifier(ident(nth(&tokens, 14), "d")),
            value: Box::new(reference(nth(&tokens, 14), "d")),
            shorthand: true,
        }),
    ]);
    let found = types(source, &tokens, &program, TSStyle);
    assert_eq!(found[2].0, "Identifier");
    assert_eq!(found[4].0, "Identifier");
    assert_eq!(found[10].0, "Identifier");
    assert_eq!(found[14].0, "Identifier");
    assert_eq!(types(source, &tokens, &program, JSStyle)[2].0, "Keyword");
}

#[test]
fn shared_names_of_specifiers_are_visited_once() {
    let source = "import { x, if as y, 's' as z }; export { x, y as if, 's' as 't' }";
    let tokens = lex(
        source,
        &[
            ("import", Kind::Import),
            ("{", Kind::LCurly),
            ("x", Kind::Ident),
            (",", Kind::Comma),
            ("if", Kind::If),
            ("as", Kind::As),
            ("y", Kind::Ident),
            (",", Kind::Comma),
            ("'s'", Kind::Str),
            ("as", Kind::As),
            ("z", Kind::Ident),
            ("}", Kind::RCurly),
            (";", Kind::Semicolon),
            ("export", Kind::Export),
            ("{", Kind::LCurly),
            ("x", Kind::Ident),
            (",", Kind::Comma),
            ("y", Kind::Ident),
            ("as", Kind::As),
            ("if", Kind::If),
            (",", Kind::Comma),
            ("'s'", Kind::Str),
            ("as", Kind::As),
            ("'t'", Kind::Str),
            ("}", Kind::RCurly),
        ],
    );
    let string = |n: usize| ModuleExportName::StringLiteral(StringLiteral { span: nth(&tokens, n) });
    let program = program(vec![
        Node::ImportSpecifier(ImportSpecifier {
            imported: ModuleExportName::IdentifierName(ident(nth(&tokens, 2), "x")),
            local: ident(nth(&tokens, 2), "x"),
        }),
        Node::ImportSpecifier(ImportSpecifier {
            imported: ModuleExportName::IdentifierName(ident(nth(&tokens, 4), "if")),
            local: ident(nth(&tokens, 6), "y"),
        }),
        Node::ImportSpecifier(ImportSpecifier {
            imported: string(8),
            local: ident(nth(&tokens, 10), "z"),
        }),
        Node::ExportSpecifier(ExportSpecifier {
            local: ModuleExportName::IdentifierReference(ident(nth(&tokens, 15), "x")),
            exported: ModuleExportName::IdentifierName(ident(nth(&tokens, 15), "x")),
        }),
        Node::ExportSpecifier(ExportSpecifier {
            local: ModuleExportName::IdentifierReference(ident(nth(&tokens, 17), "y")),
            exported: ModuleExportName::IdentifierName(ident(nth(&tokens, 19), "if")),
        }),
        Node::ExportSpecifier(ExportSpecifier { local: string(21), exported: string(23) }),
    ]);
    let found = types(source, &tokens, &program, JSStyle);
    assert_eq!(found[2].0, "Identifier");
    assert_eq!(found[4], ("Identifier", "if".to_string()));
    assert_eq!(found[8], ("String", "'s'".to_string()));
    assert_eq!(found[15].0, "Identifier");
    assert_eq!(found[19], ("Identifier", "if".to_string()));
    assert_eq!(found[21], ("String", "'s'".to_string()));
    assert_eq!(found[23], ("String", "'t'".to_string()));
}

#[test]
fn meta_properties_are_left_alone() {
    let source = "import.meta; new.target";
    let tokens = lex(
        source,
        &[
            ("import", Kind::Import),
            (".", Kind::Dot),
            ("meta", Kind::Meta),
            (";", Kind::Semicolon),
            ("new", Kind::New),
            (".", Kind::Dot),
            ("target", Kind::Target),
        ],
    );
    let program = program(vec![Node::MetaProperty, Node::MetaProperty]);
    let found = types(source, &tokens, &program, JSStyle);
    assert_eq!(found[0].0, "Keyword");
    assert_eq!(found[2].0, "Identifier");
    assert_eq!(found[4].0, "Keyword");
    assert_eq!(found[6].0, "Identifier");
    assert_eq!(update(source, &tokens, &program, JSStyle), tokens);
}

fn template_part(token: Span) -> TemplateElement {
    TemplateElement { span: Span { start: token.start + 1, end: token.end } }
}

#[test]
fn templates_are_walked_in_source_order() {
    let source = "`a${ if_ }b${ `c` }d`";
    let tokens = lex(
        source,
        &[
            ("`a${", Kind::TemplateHead),
            ("if_", Kind::Ident),
            ("}b${", Kind::TemplateMiddle),
            ("`c`", Kind::NoSubstitutionTemplate),
            ("}d`", Kind::TemplateTail),
        ],
    );
    let parts = || {
        vec![
            reference(nth(&tokens, 1), "if_"),
            Node::TemplateLiteral(TemplateLiteral {
                quasis: vec![template_part(nth(&tokens, 3))],
                expressions: vec![],
            }),
        ]
    };
    let quasis = || {
        vec![
            template_part(nth(&tokens, 0)),
            template_part(nth(&tokens, 2)),
            template_part(nth(&tokens, 4)),
        ]
    };
    let expected = pairs(&[
        ("Template", "`a${"),
        ("Identifier", "if_"),
        ("Template", "}b${"),
        ("Template", "`c`"),
        ("Template", "}d`"),
    ]);
    let literal = program(vec![Node::TemplateLiteral(TemplateLiteral {
        quasis: quasis(),
        expressions: parts(),
    })]);
    assert_eq!(types(source, &tokens, &literal, JSStyle), expected);
    let literal_type = program(vec![Node::TSTemplateLiteralType(TSTemplateLiteralType {
        quasis: quasis(),
        types: parts(),
    })]);
    assert_eq!(types(source, &tokens, &literal_type, TSStyle), expected);
}

#[test]
fn template_without_text_parts_is_not_visited_when_serializing() {
    let source = "if";
    let tokens = lex(source, &[("if", Kind::If)]);
    let program = program(vec![Node::TemplateLiteral(TemplateLiteral {
        quasis: vec![],
        expressions: vec![reference(nth(&tokens, 0), "if")],
    })]);
    assert_eq!(serialize(source, &tokens, &program, JSStyle)[0].0, "Keyword");
    assert_eq!(update(source, &tokens, &program, JSStyle)[0].kind(), Kind::Ident);
}

#[test]
fn regular_expression_keeps_order_of_flags() {
    let source = "/a\\/b/yg";
    let tokens = lex(source, &[("/a\\/b/yg", Kind::RegExp)]);
    let program = program(vec![Node::RegExpLiteral(RegExpLiteral {
        span: nth(&tokens, 0),
        raw: Some(source),
        pattern: "a\\/b",
    })]);
    let table = Utf8ToUtf16::new(source);
    assert!(can_serialize_tokens(&tokens, &program, source, &table, &JSStyle));
    let elements = serialize_tokens(&tokens, &program, source, &table, JSStyle);
    assert_eq!(elements.len(), 1);
    match elements[0] {
        ESTreeToken::RegExp(token) => {
            assert_eq!(token.value, source);
            assert_eq!(token.regex.pattern, "a\\/b");
            assert_eq!(token.regex.flags, "yg");
            assert_eq!(token.span, Span { start: 0, end: 8 });
        }
        _ => panic!("not a regular expression"),
    }
    assert_eq!(types(source, &tokens, &program, JSStyle)[0].0, "RegularExpression");
}

#[test]
fn regular_expression_without_flags() {
    let source = "/é/";
    let tokens = lex(source, &[("/é/", Kind::RegExp)]);
    let program = program(vec![Node::RegExpLiteral(RegExpLiteral {
        span: nth(&tokens, 0),
        raw: Some(source),
        pattern: "é",
    })]);
    let elements = try_serialize_tokens(&tokens, &program, source, JSStyle).unwrap();
    match elements[0] {
        ESTreeToken::RegExp(token) => {
            assert_eq!(token.regex.flags, "");
            assert_eq!(token.span, Span { start: 0, end: 3 });
        }
        _ => panic!("not a regular expression"),
    }
}

#[test]
fn regular_expressions_which_do_not_fit() {
    let source = "/a/g";
    let tokens = lex(source, &[("/a/g", Kind::RegExp)]);
    let literal = |raw, pattern| {
        program(vec![Node::RegExpLiteral(RegExpLiteral { span: nth(&tokens, 0), raw, pattern })])
    };
    let table = Utf8ToUtf16::new(source);
    let fits = |raw, pattern| {
        can_serialize_tokens(&tokens, &literal(raw, pattern), source, &table, &JSStyle)
    };
    assert!(fits(Some(source), "a"));
    assert!(fits(Some(source), "ag"));
    assert!(!fits(Some(source), "abc"));
    assert!(!fits(Some("/"), ""));
    assert!(!fits(None, "a"));
    // The flags would start in the middle of a character
    assert!(!fits(Some("/é/"), ""));
    assert_eq!(try_serialize_tokens(&tokens, &literal(None, "a"), source, JSStyle), None);
    // An update does not look at regular expressions
    assert!(can_update_tokens(&tokens, &literal(None, "a"), &table, &JSStyle));
}

#[test]
fn jsx_names_texts_and_attributes() {
    let source = "<div id='x' a={b}>text</div>";
    let tokens = lex(
        source,
        &[
            ("<", Kind::LAngle),
            ("div", Kind::Ident),
            ("id", Kind::Ident),
            ("=", Kind::Eq),
            ("'x'", Kind::Str),
            ("a", Kind::Ident),
            ("=", Kind::Eq),
            ("{", Kind::LCurly),
            ("b", Kind::Ident),
            ("}", Kind::RCurly),
            (">", Kind::RAngle),
            ("text", Kind::JSXText),
            ("<", Kind::LAngle),
            ("/", Kind::Slash),
            ("div", Kind::Ident),
            (">", Kind::RAngle),
        ],
    );
    let program = program(vec![
        Node::JSXElementName(JSXElementName::Other(vec![Node::JSXIdentifier(ident(
            nth(&tokens, 1),
            "div",
        ))])),
        Node::JSXAttribute(JSXAttribute {
            name: Box::new(Node::JSXIdentifier(ident(nth(&tokens, 2), "id"))),
            value: Some(JSXAttributeValue::StringLiteral(StringLiteral { span: nth(&tokens, 4) })),
        }),
        Node::JSXAttribute(JSXAttribute {
            name: Box::new(Node::JSXIdentifier(ident(nth(&tokens, 5), "a"))),
            value: Some(JSXAttributeValue::Other(Box::new(Node::JSXExpressionContainer(
                JSXExpressionContainer { children: vec![reference(nth(&tokens, 8), "b")] },
            )))),
        }),
        Node::JSXText(JSXText { span: nth(&tokens, 11) }),
        Node::JSXElementName(JSXElementName::Other(vec![Node::JSXIdentifier(ident(
            nth(&tokens, 14),
            "div",
        ))])),
    ]);
    for found in [
        types(source, &tokens, &program, JSStyle),
        types(source, &tokens, &program, TSStyle),
    ] {
        assert_eq!(found[1].0, "JSXIdentifier");
        assert_eq!(found[2].0, "JSXIdentifier");
        assert_eq!(found[4], ("JSXText", "'x'".to_string()));
        assert_eq!(found[8].0, "Identifier");
        assert_eq!(found[11], ("JSXText", "text".to_string()));
        assert_eq!(found[14].0, "JSXIdentifier");
    }
    let updated = update(source, &tokens, &program, JSStyle);
    assert_eq!(updated[1].kind(), Kind::JSXIdentifier);
    assert_eq!(updated[4].kind(), Kind::JSXText);
}

#[test]
fn jsx_references_and_member_names() {
    let source = "<Foo /><a.b c />";
    let tokens = lex(
        source,
        &[
            ("<", Kind::LAngle),
            ("Foo", Kind::Ident),
            ("/", Kind::Slash),
            (">", Kind::RAngle),
            ("<", Kind::LAngle),
            ("a", Kind::Ident),
            (".", Kind::Dot),
            ("b", Kind::Ident),
            ("c", Kind::Ident),
            ("/", Kind::Slash),
            (">", Kind::RAngle),
        ],
    );
    let program = program(vec![
        Node::JSXElementName(JSXElementName::IdentifierReference(ident(nth(&tokens, 1), "Foo"))),
        Node::JSXElementName(JSXElementName::Other(vec![Node::Other(vec![
            Node::JSXMemberExpressionObject(JSXMemberExpressionObject::IdentifierReference(
                ident(nth(&tokens, 5), "a"),
            )),
            Node::JSXIdentifier(ident(nth(&tokens, 7), "b")),
        ])])),
        Node::JSXAttribute(JSXAttribute {
            name: Box::new(Node::JSXIdentifier(ident(nth(&tokens, 8), "c"))),
            value: None,
        }),
    ]);
    let found = types(source, &tokens, &program, TSStyle);
    for i in [1, 5, 7, 8] {
        assert_eq!(found[i].0, "JSXIdentifier");
    }
}

#[test]
fn nested_jsx_member_objects() {
    let source = "a.b.c";
    let tokens = lex(
        source,
        &[
            ("a", Kind::Ident),
            (".", Kind::Dot),
            ("b", Kind::Ident),
            (".", Kind::Dot),
            ("c", Kind::Ident),
        ],
    );
    let program = program(vec![
        Node::JSXMemberExpressionObject(JSXMemberExpressionObject::Other(vec![
            Node::JSXMemberExpressionObject(JSXMemberExpressionObject::IdentifierReference(
                ident(nth(&tokens, 0), "a"),
            )),
            Node::JSXIdentifier(ident(nth(&tokens, 2), "b")),
        ])),
        Node::JSXIdentifier(ident(nth(&tokens, 4), "c")),
    ]);
    let found = types(source, &tokens, &program, JSStyle);
    for i in [0, 2, 4] {
        assert_eq!(found[i].0, "JSXIdentifier");
    }
}

#[test]
fn namespaced_jsx_names_depend_on_style() {
    let source = "<a:b />";
    let tokens = lex(
        source,
        &[
            ("<", Kind::LAngle),
            ("a", Kind::Ident),
            (":", Kind::Colon),
            ("b", Kind::Ident),
            ("/", Kind::Slash),
            (">", Kind::RAngle),
        ],
    );
    let program = program(vec![Node::JSXNamespacedName(JSXNamespacedName {
        namespace: ident(nth(&tokens, 1), "a"),
        name: ident(nth(&tokens, 3), "b"),
    })]);
    let js = types(source, &tokens, &program, JSStyle);
    assert_eq!(js[1].0, "JSXIdentifier");
    assert_eq!(js[3].0, "JSXIdentifier");
    let ts = types(source, &tokens, &program, TSStyle);
    assert_eq!(ts[1].0, "Identifier");
    assert_eq!(ts[3].0, "Identifier");
}

#[test]
fn members_in_jsx_expressions_are_jsx_identifiers_in_ts_style() {
    let source = "{a.b}{...c.d}{...e.f} g.h";
    let tokens = lex(
        source,
        &[
            ("{", Kind::LCurly),
            ("a", Kind::Ident),
            (".", Kind::Dot),
            ("b", Kind::Ident),
            ("}", Kind::RCurly),
            ("{", Kind::LCurly),
            ("...", Kind::Dot3),
            ("c", Kind::Ident),
            (".", Kind::Dot),
            ("d", Kind::Ident),
            ("}", Kind::RCurly),
            ("{", Kind::LCurly),
            ("...", Kind::Dot3),
            ("e", Kind::Ident),
            (".", Kind::Dot),
            ("f", Kind::Ident),
            ("}", Kind::RCurly),
            ("g", Kind::Ident),
            (".", Kind::Dot),
            ("h", Kind::Ident),
        ],
    );
    let name = |span: Span| &source[span.start as usize..span.end as usize];
    let member = |object: usize, property: usize| {
        let (object, property) = (nth(&tokens, object), nth(&tokens, property));
        Node::MemberExpression(MemberExpression {
            kind: MemberExpressionKind::Static,
            children: vec![
                reference(object, name(object)),
                Node::IdentifierName(ident(property, name(property))),
            ],
        })
    };
    let program = program(vec![
        Node::JSXExpressionContainer(JSXExpressionContainer { children: vec![member(1, 3)] }),
        Node::JSXSpreadAttribute(JSXSpreadAttribute { children: vec![member(7, 9)] }),
        Node::JSXSpreadChild(JSXSpreadChild { children: vec![member(13, 15)] }),
        // The state is as it was before the JSX expressions
        member(17, 19),
    ]);
    let ts = types(source, &tokens, &program, TSStyle);
    for i in [1, 3, 7, 9, 13, 15] {
        assert_eq!(ts[i].0, "JSXIdentifier");
    }
    assert_eq!(ts[17].0, "Identifier");
    assert_eq!(ts[19].0, "Identifier");
    let js = types(source, &tokens, &program, JSStyle);
    for i in [1, 3, 7, 9, 13, 15, 17, 19] {
        assert_eq!(js[i].0, "Identifier");
    }
}

#[test]
fn spans_are_in_utf16_offsets() {
    // 2, 3 and 4 bytes; 1, 1 and 2 code units
    let source = "é = 'ऊ' + '🤨' + z;";
    let tokens = lex(
        source,
        &[
            ("é", Kind::Ident),
            ("=", Kind::Eq),
            ("'ऊ'", Kind::Str),
            ("+", Kind::Plus),
            ("'🤨'", Kind::Str),
            ("+", Kind::Plus),
            ("z", Kind::Ident),
            (";", Kind::Semicolon),
        ],
    );
    assert_eq!(nth(&tokens, 6), Span { start: 22, end: 23 });
    let program = program(vec![
        reference(nth(&tokens, 0), "é"),
        Node::StringLiteral(StringLiteral { span: nth(&tokens, 2) }),
        Node::StringLiteral(StringLiteral { span: nth(&tokens, 4) }),
        reference(nth(&tokens, 6), "z"),
    ]);
    assert_eq!(
        serialize(source, &tokens, &program, JSStyle),
        vec![
            ("Identifier", "é".to_string(), 0, 1, true),
            ("Punctuator", "=".to_string(), 2, 3, true),
            ("String", "'ऊ'".to_string(), 4, 7, false),
            ("Punctuator", "+".to_string(), 8, 9, true),
            ("String", "'🤨'".to_string(), 10, 14, false),
            ("Punctuator", "+".to_string(), 15, 16, true),
            ("Identifier", "z".to_string(), 17, 18, true),
            ("Punctuator", ";".to_string(), 18, 19, true),
        ]
    );
    types(source, &tokens, &program, JSStyle);
    let updated = update(source, &tokens, &program, JSStyle);
    assert_eq!(updated[4].span(), Span { start: 10, end: 14 });
    assert_eq!(updated[7].span(), Span { start: 18, end: 19 });
}

#[test]
fn spans_of_ascii_text_are_unchanged() {
    let source = "a b";
    let tokens = lex(source, &[("a", Kind::Ident), ("b", Kind::Ident)]);
    let program = program(vec![reference(nth(&tokens, 1), "b")]);
    assert_eq!(update(source, &tokens, &program, JSStyle), tokens);
    let elements = serialize(source, &tokens, &program, JSStyle);
    assert_eq!((elements[0].2, elements[0].3), (0, 1));
    assert_eq!((elements[1].2, elements[1].3), (2, 3));
}

#[test]
fn offsets_at_the_limit_are_converted_by_no_table() {
    let limit = Token {
        span: Span { start: u32::MAX, end: u32::MAX },
        kind: Kind::Ident,
        escaped: false,
    };
    let program = program(vec![reference(limit.span, "x")]);
    let ascii = Utf8ToUtf16::new("x");
    assert!(can_serialize_tokens(&[limit], &program, "x", &ascii, &JSStyle));
    assert!(can_update_tokens(&[limit], &program, &ascii, &JSStyle));
    let other = Utf8ToUtf16::new("é");
    assert!(!can_serialize_tokens(&[limit], &program, "é", &other, &JSStyle));
    assert!(!can_update_tokens(&[limit], &program, &other, &JSStyle));
    // The same as a token that remains
    let rest = Program { children: vec![] };
    assert!(!can_update_tokens(&[limit], &rest, &other, &JSStyle));
    assert!(can_update_tokens(&[limit], &rest, &ascii, &JSStyle));
}

#[test]
fn tokens_which_do_not_fit_the_program() {
    let source = "ab 's' c";
    let tokens = lex(source, &[("ab", Kind::Ident), ("'s'", Kind::Str), ("c", Kind::Ident)]);
    let table = Utf8ToUtf16::new(source);
    let can_serialize = |children: Vec<Node<'_>>| {
        can_serialize_tokens(&tokens, &Program { children }, source, &table, &JSStyle)
    };
    let can_update = |children: Vec<Node<'_>>| {
        can_update_tokens(&tokens, &Program { children }, &table, &JSStyle)
    };
    let string = || Node::StringLiteral(StringLiteral { span: nth(&tokens, 1) });
    assert!(can_serialize(vec![string()]));
    // The string has to be asked for, but not by an update
    assert!(!can_serialize(vec![]));
    assert!(!can_serialize(vec![reference(nth(&tokens, 2), "c")]));
    assert!(can_update(vec![reference(nth(&tokens, 2), "c")]));
    // No token starts there
    assert!(!can_serialize(vec![reference(Span { start: 1, end: 2 }, "b"), string()]));
    assert!(!can_update(vec![reference(Span { start: 1, end: 2 }, "b")]));
    assert!(!can_serialize(vec![string(), reference(Span { start: 9, end: 10 }, "d")]));
    assert!(!can_update(vec![reference(Span { start: 9, end: 10 }, "d")]));
    // Out of order
    assert!(!can_serialize(vec![string(), reference(nth(&tokens, 0), "ab")]));
    assert!(!can_update(vec![
        reference(nth(&tokens, 2), "c"),
        reference(nth(&tokens, 0), "ab")
    ]));
    // Twice
    assert!(!can_serialize(vec![string(), string()]));
    assert!(!can_update(vec![reference(nth(&tokens, 0), "ab"), reference(nth(&tokens, 0), "ab")]));
    // One after another, once something did not fit
    assert!(!can_serialize(vec![
        reference(Span { start: 1, end: 2 }, "b"),
        string(),
        reference(nth(&tokens, 2), "c")
    ]));
}

#[test]
fn tokens_which_do_not_fit_the_text() {
    let source = "é";
    let table = Utf8ToUtf16::new(source);
    let token = |start, end, kind, escaped| Token { span: Span { start, end }, kind, escaped };
    let fits = |token: Token, children: Vec<Node<'_>>, ts: bool| {
        if ts {
            can_serialize_tokens(&[token], &Program { children }, source, &table, &TSStyle)
        } else {
            can_serialize_tokens(&[token], &Program { children }, source, &table, &JSStyle)
        }
    };
    // In the middle of a character, after the end, and backwards
    assert!(fits(token(0, 2, Kind::Ident, false), vec![], false));
    assert!(!fits(token(0, 1, Kind::Ident, false), vec![], false));
    assert!(!fits(token(0, 3, Kind::Ident, false), vec![], false));
    assert!(!fits(token(2, 0, Kind::Ident, false), vec![], false));
    // The text of an identifier is needed in TS style only, and only if it is escaped
    let name = || vec![reference(Span { start: 0, end: 3 }, "x")];
    assert!(fits(token(0, 3, Kind::Ident, true), name(), false));
    assert!(fits(token(0, 3, Kind::Ident, false), name(), true));
    assert!(!fits(token(0, 3, Kind::Ident, true), name(), true));
    let private = || vec![Node::PrivateIdentifier(ident(Span { start: 0, end: 2 }, "x"))];
    assert!(fits(token(0, 2, Kind::PrivateIdentifier, true), private(), false));
    assert!(!fits(token(0, 2, Kind::PrivateIdentifier, true), private(), true));
    // Texts of strings, JSX texts and templates are always needed
    let string = || vec![Node::StringLiteral(StringLiteral { span: Span { start: 0, end: 3 } })];
    assert!(fits(token(0, 2, Kind::Str, false), string(), false));
    assert!(!fits(token(0, 3, Kind::Str, false), string(), false));
    let attribute = || {
        vec![Node::JSXAttribute(JSXAttribute {
            name: Box::new(Node::Other(vec![])),
            value: Some(JSXAttributeValue::StringLiteral(StringLiteral {
                span: Span { start: 0, end: 3 },
            })),
        })]
    };
    assert!(fits(token(0, 2, Kind::Str, false), attribute(), false));
    assert!(!fits(token(0, 3, Kind::Str, false), attribute(), false));
    let template = |start| {
        vec![Node::TemplateLiteral(TemplateLiteral {
            quasis: vec![TemplateElement { span: Span { start, end: 3 } }],
            expressions: vec![],
        })]
    };
    assert!(fits(token(0, 2, Kind::NoSubstitutionTemplate, false), template(1), false));
    assert!(!fits(token(0, 3, Kind::NoSubstitutionTemplate, false), template(1), false));
    // There is no room for the delimiter
    assert!(!fits(token(0, 2, Kind::NoSubstitutionTemplate, false), template(0), false));
}

#[test]
fn try_serialize_builds_its_own_table() {
    let source = "é x";
    let tokens = lex(source, &[("é", Kind::Ident), ("x", Kind::If)]);
    let fitting = program(vec![reference(nth(&tokens, 1), "x")]);
    let elements = try_serialize_tokens(&tokens, &fitting, source, JSStyle).unwrap();
    assert_eq!(
        elements.iter().map(record).collect::<Vec<_>>(),
        vec![
            ("Identifier", "é".to_string(), 0, 1, true),
            ("Identifier", "x".to_string(), 2, 3, true),
        ]
    );
    let other = program(vec![reference(Span { start: 1, end: 2 }, "x")]);
    assert_eq!(try_serialize_tokens(&tokens, &other, source, JSStyle), None);
}

#[test]
fn try_update_leaves_tokens_which_do_not_fit() {
    let source = "é x";
    let mut tokens = lex(source, &[("é", Kind::Ident), ("x", Kind::If)]);
    let before = tokens.clone();
    let other = program(vec![
        reference(nth(&tokens, 1), "x"),
        reference(Span { start: 1, end: 2 }, "x"),
    ]);
    assert!(!try_update_tokens(&mut tokens, &other, source, JSStyle));
    assert_eq!(tokens, before);
    let fitting = program(vec![reference(nth(&tokens, 1), "x")]);
    assert!(try_update_tokens(&mut tokens, &fitting, source, JSStyle));
    assert_eq!(tokens[0].span(), Span { start: 0, end: 1 });
    assert_eq!(tokens[0].kind(), Kind::Ident);
    assert_eq!(tokens[1].span(), Span { start: 2, end: 3 });
    assert_eq!(tokens[1].kind(), Kind::Ident);
}

#[test]
fn second_update_of_ascii_text_changes_nothing() {
    let source = "let = <a b='c'/>";
    let tokens = lex(
        source,
        &[
            ("let", Kind::Let),
            ("=", Kind::Eq),
            ("<", Kind::LAngle),
            ("a", Kind::Ident),
            ("b", Kind::Ident),
            ("=", Kind::Eq),
            ("'c'", Kind::Str),
            ("/", Kind::Slash),
            (">", Kind::RAngle),
        ],
    );
    let program = program(vec![
        reference(nth(&tokens, 0), "let"),
        Node::JSXIdentifier(ident(nth(&tokens, 3), "a")),
        Node::JSXAttribute(JSXAttribute {
            name: Box::new(Node::JSXIdentifier(ident(nth(&tokens, 4), "b"))),
            value: Some(JSXAttributeValue::StringLiteral(StringLiteral { span: nth(&tokens, 6) })),
        }),
    ]);
    let once = update(source, &tokens, &program, JSStyle);
    assert_ne!(once, tokens);
    assert_eq!(update(source, &once, &program, JSStyle), once);
    let once = update(source, &tokens, &program, TSStyle);
    assert_eq!(update(source, &once, &program, TSStyle), once);
}

#[test]
fn values_are_source_texts() {
    let source = "this.#a = /b/g + 'c' + d";
    let tokens = lex(
        source,
        &[
            ("this", Kind::This),
            (".", Kind::Dot),
            ("#a", Kind::PrivateIdentifier),
            ("=", Kind::Eq),
            ("/b/g", Kind::RegExp),
            ("+", Kind::Plus),
            ("'c'", Kind::Str),
            ("+", Kind::Plus),
            ("d", Kind::Ident),
        ],
    );
    let program = program(vec![
        Node::PrivateIdentifier(ident(nth(&tokens, 2), "a")),
        Node::RegExpLiteral(RegExpLiteral {
            span: nth(&tokens, 4),
            raw: Some("/b/g"),
            pattern: "b",
        }),
        Node::StringLiteral(StringLiteral { span: nth(&tokens, 6) }),
        reference(nth(&tokens, 8), "d"),
    ]);
    for (i, (_, value)) in types(source, &tokens, &program, TSStyle).iter().enumerate() {
        let span = nth(&tokens, i);
        let text = &source[span.start as usize..span.end as usize];
        assert_eq!(value, if i == 2 { "a" } else { text });
    }
}

#[test]
fn no_tokens() {
    assert_eq!(serialize("", &[], &program(vec![]), JSStyle), vec![]);
    assert_eq!(update("", &[], &program(vec![]), JSStyle), vec![]);
    let table = Utf8ToUtf16::new("");
    let asks = program(vec![reference(Span { start: 0, end: 1 }, "x")]);
    assert!(!can_serialize_tokens(&[], &asks, "", &table, &JSStyle));
    assert!(!can_update_tokens(&[], &asks, &table, &JSStyle));
}

#[test]
fn safe_values_need_no_escaping() {
    let source = "\\u0061 = \"\\n\" + /\"/g + `\\`` + #\\u0062 + 1;";
    let tokens = lex(
        source,
        &[
            ("\\u0061", Kind::Ident),
            ("=", Kind::Eq),
            ("\"\\n\"", Kind::Str),
            ("+", Kind::Plus),
            ("/\"/g", Kind::RegExp),
            ("+", Kind::Plus),
            ("`\\``", Kind::NoSubstitutionTemplate),
            ("+", Kind::Plus),
            ("#\\u0062", Kind::PrivateIdentifier),
            ("+", Kind::Plus),
            ("1", Kind::Decimal),
            (";", Kind::Semicolon),
        ],
    );
    let program = program(vec![
        reference(nth(&tokens, 0), "a"),
        Node::StringLiteral(StringLiteral { span: nth(&tokens, 2) }),
        Node::RegExpLiteral(RegExpLiteral {
            span: nth(&tokens, 4),
            raw: Some("/\"/g"),
            pattern: "\"",
        }),
        Node::TemplateLiteral(TemplateLiteral {
            quasis: vec![template_part(nth(&tokens, 6))],
            expressions: vec![],
        }),
        Node::PrivateIdentifier(ident(nth(&tokens, 8), "b")),
    ]);
    let needs_escaping = |text: &str| text.chars().any(|c| c == '"' || c == '\\' || c < ' ');
    for records in [
        serialize(source, &tokens, &program, JSStyle),
        serialize(source, &tokens, &program, TSStyle),
    ] {
        assert_eq!(records.len(), 12);
        assert!(records.iter().any(|(_, value, ..)| needs_escaping(value)));
        for (token_type, value, _, _, safe) in records {
            assert!(!needs_escaping(token_type));
            assert!(!safe || !needs_escaping(&value));
        }
    }
}
