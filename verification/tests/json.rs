use estree_tokens::ast::{Identifier, Node, Program, RegExpLiteral, StringLiteral};
use estree_tokens::config::JSStyle;
use estree_tokens::estree::{ESTreeToken, Entry, RegExpData};
use estree_tokens::kind::Kind;
use estree_tokens::serialize::try_serialize_tokens;
use estree_tokens::token::{Span, Token};
use oxc_estree::{
    CompactTSSerializer, ESTree, SequenceSerializer, Serializer, StructSerializer,
};

fn write<S: Serializer>(serializer: S, entries: &[Entry<'_>]) {
    let mut state = serializer.serialize_struct();
    for entry in entries {
        match entry {
            Entry::JsonSafe { key, .. } | Entry::Text { key, .. } => {
                state.serialize_field(key, &Json(&entry.value_json().unwrap()));
            }
            Entry::RegExp { key, regex } => state.serialize_field(key, &RegExp(regex)),
            Entry::Span(span) => state.serialize_span(oxc_span::Span::new(span.start, span.end)),
        }
    }
    state.end();
}

/// A value which is JSON already.
struct Json<'t>(&'t str);

impl ESTree for Json<'_> {
    fn serialize<S: Serializer>(&self, mut serializer: S) {
        serializer.buffer_mut().print_str(self.0);
    }
}

struct Element<'t, 'a>(&'t ESTreeToken<'a>);

impl ESTree for Element<'_, '_> {
    fn serialize<S: Serializer>(&self, serializer: S) {
        write(serializer, &self.0.serialize());
    }
}

struct RegExp<'t, 'a>(&'t RegExpData<'a>);

impl ESTree for RegExp<'_, '_> {
    fn serialize<S: Serializer>(&self, serializer: S) {
        write(serializer, &self.0.serialize());
    }
}

fn token(start: u32, end: u32, kind: Kind) -> Token {
    Token { span: Span { start, end }, kind, escaped: false }
}

#[test]
fn json_of_tokens() {
    let source = "é=\"\\n\"+/\"/g";
    let tokens = [
        token(0, 2, Kind::Ident),
        token(2, 3, Kind::Eq),
        token(3, 7, Kind::Str),
        token(7, 8, Kind::Plus),
        token(8, 12, Kind::RegExp),
    ];
    let program = Program {
        children: vec![
            Node::IdentifierReference(Identifier { span: tokens[0].span, name: "é" }),
            Node::StringLiteral(StringLiteral { span: tokens[2].span }),
            Node::RegExpLiteral(RegExpLiteral {
                span: tokens[4].span,
                raw: Some("/\"/g"),
                pattern: "\"",
            }),
        ],
    };
    let elements = try_serialize_tokens(&tokens, &program, source, JSStyle).unwrap();
    let mut serializer = CompactTSSerializer::new(false);
    let mut seq = (&mut serializer).serialize_sequence();
    for element in &elements {
        seq.serialize_element(&Element(element));
    }
    seq.end();
    let expected = [
        "[{\"type\":\"Identifier\",\"value\":\"é\",\"start\":0,\"end\":1}",
        "{\"type\":\"Punctuator\",\"value\":\"=\",\"start\":1,\"end\":2}",
        "{\"type\":\"String\",\"value\":\"\\\"\\\\n\\\"\",\"start\":2,\"end\":6}",
        "{\"type\":\"Punctuator\",\"value\":\"+\",\"start\":6,\"end\":7}",
        "{\"type\":\"RegularExpression\",\"value\":\"/\\\"/g\",\
         \"regex\":{\"flags\":\"g\",\"pattern\":\"\\\"\"},\"start\":7,\"end\":11}]",
    ];
    assert_eq!(serializer.into_string(), expected.join(","));
}
