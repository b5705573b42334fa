use estree_tokens::estree::{
    ESTreeRegExpToken, ESTreeSafeToken, ESTreeToken, ESTreeUnsafeToken, Entry, RegExpData,
};
use estree_tokens::kind::{get_token_type, Kind};
use estree_tokens::text::{has_slice, same_text, slice};
use estree_tokens::token::Span;

const SPAN: Span = Span { start: 3, end: 9 };

#[test]
fn safe_token_is_not_escaped() {
    let token = ESTreeSafeToken { token_type: "Keyword", value: "return", span: SPAN };
    let entries = vec![
        Entry::JsonSafe { key: "type", value: "Keyword" },
        Entry::JsonSafe { key: "value", value: "return" },
        Entry::Span(SPAN),
    ];
    assert_eq!(token.serialize(), entries);
    assert_eq!(ESTreeToken::Safe(token).serialize(), entries);
}

#[test]
fn unsafe_token_has_its_value_escaped() {
    let token = ESTreeUnsafeToken { token_type: "String", value: "'\\n'", span: SPAN };
    let entries = vec![
        Entry::JsonSafe { key: "type", value: "String" },
        Entry::Text { key: "value", value: "'\\n'" },
        Entry::Span(SPAN),
    ];
    assert_eq!(token.serialize(), entries);
    assert_eq!(ESTreeToken::Unsafe(token).serialize(), entries);
}

#[test]
fn regular_expression_has_an_object_of_its_own() {
    let regex = RegExpData { flags: "g", pattern: "\"" };
    let token = ESTreeRegExpToken { value: "/\"/g", regex, span: SPAN };
    let entries = vec![
        Entry::JsonSafe { key: "type", value: "RegularExpression" },
        Entry::Text { key: "value", value: "/\"/g" },
        Entry::RegExp { key: "regex", regex },
        Entry::Span(SPAN),
    ];
    assert_eq!(token.serialize(), entries);
    assert_eq!(ESTreeToken::RegExp(token).serialize(), entries);
    assert_eq!(
        regex.serialize(),
        vec![
            Entry::JsonSafe { key: "flags", value: "g" },
            Entry::Text { key: "pattern", value: "\"" },
        ]
    );
}

fn json(entry: Entry<'_>) -> String {
    entry.value_json().unwrap()
}

#[test]
fn values_in_json() {
    let safe = |value| json(Entry::JsonSafe { key: "value", value });
    let text = |value| json(Entry::Text { key: "value", value });
    // What needs no escaping is written in the same way
    for value in ["", "x", "return", "a longer text, with Umlauts: äöü"] {
        assert_eq!(safe(value), format!("\"{value}\""));
        assert_eq!(text(value), safe(value));
    }
    // Escaping is skipped
    assert_eq!(safe("\n"), "\"\n\"");
    assert_eq!(text("\n"), "\"\\n\"");
    assert_eq!(text("\"\\/"), "\"\\\"\\\\/\"");
    assert_eq!(text("\u{8}\t\u{c}\r"), "\"\\b\\t\\f\\r\"");
    assert_eq!(text("\0\u{1f}\u{7f}"), "\"\\u0000\\u001f\u{7f}\"");
    // No string
    let regex = RegExpData { flags: "g", pattern: "a" };
    assert_eq!(Entry::RegExp { key: "regex", regex }.value_json(), None);
    assert_eq!(Entry::Span(SPAN).value_json(), None);
}

#[test]
fn long_values_in_json() {
    let text = |value| json(Entry::Text { key: "value", value });
    assert_eq!(text("\"double-quoted\""), "\"\\\"double-quoted\\\"\"");
    assert_eq!(text("/^\\d+\\.\\d*$/gu"), "\"/^\\\\d+\\\\.\\\\d*$/gu\"");
    assert_eq!(text("`two\nlines\t${"), "\"`two\\nlines\\t${\"");
    assert_eq!(text("'ऊ\u{1b}🤨 é\\'"), "\"'ऊ\\u001b🤨 é\\\\'\"");
    assert_eq!(text("\\\\\\\\\\\\\\\\"), format!("\"{}\"", "\\".repeat(16)));
    // Escaping is skipped
    let safe = json(Entry::JsonSafe { key: "value", value: "\"double-quoted\"" });
    assert_eq!(safe, "\"\"double-quoted\"\"");
}

#[test]
fn token_types_of_kinds() {
    let cases = [
        (Kind::Ident, "Identifier"),
        (Kind::Await, "Identifier"),
        (Kind::True, "Boolean"),
        (Kind::False, "Boolean"),
        (Kind::Null, "Null"),
        (Kind::Hex, "Numeric"),
        (Kind::OctalBigInt, "Numeric"),
        (Kind::NegativeExponential, "Numeric"),
        (Kind::Async, "Identifier"),
        (Kind::SetKeyword, "Identifier"),
        (Kind::Override, "Identifier"),
        (Kind::Return, "Keyword"),
        (Kind::This, "Keyword"),
        (Kind::Yield, "Keyword"),
        (Kind::Implements, "Keyword"),
        (Kind::Arrow, "Punctuator"),
        (Kind::At, "Punctuator"),
        (Kind::Str, "String"),
        (Kind::RegExp, "RegularExpression"),
        (Kind::NoSubstitutionTemplate, "Template"),
        (Kind::TemplateHead, "Template"),
        (Kind::TemplateMiddle, "Template"),
        (Kind::TemplateTail, "Template"),
        (Kind::PrivateIdentifier, "PrivateIdentifier"),
        (Kind::JSXText, "JSXText"),
        (Kind::JSXIdentifier, "JSXIdentifier"),
    ];
    for (kind, token_type) in cases {
        assert_eq!(get_token_type(kind), token_type);
    }
}

#[test]
fn sorts_of_kinds() {
    assert!(Kind::Float.is_number());
    assert!(!Kind::Number.is_number());
    assert!(Kind::Number.is_contextual_keyword());
    assert!(!Kind::Let.is_contextual_keyword());
    assert!(Kind::Let.is_any_keyword());
    assert!(Kind::Of.is_any_keyword());
    assert!(!Kind::True.is_any_keyword());
    assert!(Kind::Static.is_js_only_keyword());
    assert!(!Kind::Await.is_js_only_keyword());
    assert!(Kind::TemplateTail.has_own_node());
    assert!(!Kind::JSXIdentifier.has_own_node());
    assert_eq!(Kind::Str.default_token_type(), "Punctuator");
}

#[test]
fn slices_are_whole_characters() {
    let text = "aé🤨b";
    assert!(has_slice(text, 1, 3));
    assert_eq!(slice(text, 1, 3), "é");
    assert_eq!(slice(text, 3, 8), "🤨b");
    assert_eq!(slice(text, 8, 8), "");
    assert_eq!(slice(text, 0, 8), text);
    assert!(!has_slice(text, 1, 2));
    assert!(!has_slice(text, 2, 3));
    assert!(!has_slice(text, 0, 9));
    assert!(!has_slice(text, 3, 1));
}

#[test]
fn texts_are_compared_as_a_whole() {
    assert!(same_text("with", "with"));
    assert!(same_text("", ""));
    assert!(!same_text("with", "wit"));
    assert!(!same_text("with", "wish"));
}
