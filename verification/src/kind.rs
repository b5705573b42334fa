//! Token kinds of JavaScript and TypeScript, and the ESTree token type that each one stands for.

use vstd::prelude::*;

verus! {

/// Kind of a token.
#[derive(Clone, Copy, Debug, PartialEq, Eq, Structural)]
pub enum Kind {
    Eof,
    Undetermined,
    Skip,
    HashbangComment,
    /// Identifier
    Ident,
    // Reserved words
    Await,
    Break,
    Case,
    Catch,
    Class,
    Const,
    Continue,
    Debugger,
    Default,
    Delete,
    Do,
    Else,
    Enum,
    Export,
    Extends,
    Finally,
    For,
    Function,
    If,
    Import,
    In,
    Instanceof,
    New,
    Return,
    Super,
    Switch,
    This,
    Throw,
    Try,
    Typeof,
    Var,
    Void,
    While,
    With,
    // Contextual keywords of JavaScript and TypeScript
    Async,
    From,
    GetKeyword,
    Meta,
    Of,
    SetKeyword,
    Target,
    Accessor,
    Source,
    Defer,
    Abstract,
    As,
    Asserts,
    Assert,
    Any,
    Boolean,
    Constructor,
    Declare,
    Infer,
    Intrinsic,
    Is,
    KeyOf,
    Module,
    Namespace,
    Never,
    Out,
    Readonly,
    Require,
    Number,
    Object,
    Satisfies,
    String,
    Symbol,
    Type,
    Undefined,
    Unique,
    Using,
    Unknown,
    Global,
    BigInt,
    Override,
    // Words reserved in strict mode only
    Implements,
    Interface,
    Let,
    Package,
    Private,
    Protected,
    Public,
    Static,
    Yield,
    // Punctuators
    Amp,
    Amp2,
    Amp2Eq,
    AmpEq,
    Bang,
    Caret,
    CaretEq,
    Colon,
    Comma,
    Dot,
    Dot3,
    Eq,
    Eq2,
    Eq3,
    GtEq,
    LAngle,
    LBrack,
    LCurly,
    LParen,
    LtEq,
    Minus,
    Minus2,
    MinusEq,
    Neq,
    Neq2,
    Percent,
    PercentEq,
    Pipe,
    Pipe2,
    Pipe2Eq,
    PipeEq,
    Plus,
    Plus2,
    PlusEq,
    Question,
    Question2,
    Question2Eq,
    QuestionDot,
    RAngle,
    RBrack,
    RCurly,
    RParen,
    Semicolon,
    ShiftLeft,
    ShiftLeftEq,
    ShiftRight,
    ShiftRight3,
    ShiftRight3Eq,
    ShiftRightEq,
    Slash,
    SlashEq,
    Star,
    Star2,
    Star2Eq,
    StarEq,
    Tilde,
    Arrow,
    At,
    // Literals
    Null,
    True,
    False,
    Decimal,
    Float,
    Binary,
    Octal,
    Hex,
    PositiveExponential,
    NegativeExponential,
    DecimalBigInt,
    BinaryBigInt,
    OctalBigInt,
    HexBigInt,
    Str,
    RegExp,
    NoSubstitutionTemplate,
    TemplateHead,
    TemplateMiddle,
    TemplateTail,
    PrivateIdentifier,
    JSXText,
    JSXIdentifier,
}

/// Is `kind` a number or a `BigInt`?
pub open spec fn is_number(kind: Kind) -> bool {
    matches!(
        kind,
        Kind::Decimal | Kind::Float | Kind::Binary | Kind::Octal | Kind::Hex
            | Kind::PositiveExponential | Kind::NegativeExponential | Kind::DecimalBigInt
            | Kind::BinaryBigInt | Kind::OctalBigInt | Kind::HexBigInt
    )
}

/// Is `kind` a word with a special meaning only in some positions?
pub open spec fn is_contextual_keyword(kind: Kind) -> bool {
    matches!(
        kind,
        Kind::Async | Kind::From | Kind::GetKeyword | Kind::Meta | Kind::Of | Kind::SetKeyword
            | Kind::Target | Kind::Accessor | Kind::Source | Kind::Defer | Kind::Abstract
            | Kind::As | Kind::Asserts | Kind::Assert | Kind::Any | Kind::Boolean
            | Kind::Constructor | Kind::Declare | Kind::Infer | Kind::Intrinsic | Kind::Is
            | Kind::KeyOf | Kind::Module | Kind::Namespace | Kind::Never | Kind::Out
            | Kind::Readonly | Kind::Require | Kind::Number | Kind::Object | Kind::Satisfies
            | Kind::String | Kind::Symbol | Kind::Type | Kind::Undefined | Kind::Unique
            | Kind::Using | Kind::Unknown | Kind::Global | Kind::BigInt | Kind::Override
    )
}

/// Is `kind` a word reserved everywhere?
pub open spec fn is_reserved_keyword(kind: Kind) -> bool {
    matches!(
        kind,
        Kind::Await | Kind::Break | Kind::Case | Kind::Catch | Kind::Class | Kind::Const
            | Kind::Continue | Kind::Debugger | Kind::Default | Kind::Delete | Kind::Do
            | Kind::Else | Kind::Enum | Kind::Export | Kind::Extends | Kind::Finally
            | Kind::For | Kind::Function | Kind::If | Kind::Import | Kind::In
            | Kind::Instanceof | Kind::New | Kind::Return | Kind::Super | Kind::Switch
            | Kind::This | Kind::Throw | Kind::Try | Kind::Typeof | Kind::Var | Kind::Void
            | Kind::While | Kind::With
    )
}

/// Is `kind` a word reserved in strict mode only?
pub open spec fn is_strict_mode_keyword(kind: Kind) -> bool {
    matches!(
        kind,
        Kind::Implements | Kind::Interface | Kind::Let | Kind::Package | Kind::Private
            | Kind::Protected | Kind::Public | Kind::Static | Kind::Yield
    )
}

/// Is `kind` a keyword of any sort?
pub open spec fn is_any_keyword(kind: Kind) -> bool {
    is_reserved_keyword(kind) || is_contextual_keyword(kind) || is_strict_mode_keyword(kind)
}

/// Keywords which JS style leaves as keywords even where they are used as identifiers.
pub open spec fn is_js_only_keyword(kind: Kind) -> bool {
    matches!(kind, Kind::Yield | Kind::Let | Kind::Static)
}

/// Kinds of the tokens that belong to an AST node with a rule of its own.
///
/// Their text may hold characters that JSON has to escape.
pub open spec fn has_own_node(kind: Kind) -> bool {
    matches!(
        kind,
        Kind::Str | Kind::RegExp | Kind::JSXText | Kind::PrivateIdentifier
            | Kind::NoSubstitutionTemplate | Kind::TemplateHead | Kind::TemplateMiddle
            | Kind::TemplateTail
    )
}

/// The types of ESTree tokens.
pub open spec fn is_estree_type(name: Seq<char>) -> bool {
    ||| name == "Boolean"@
    ||| name == "Identifier"@
    ||| name == "JSXIdentifier"@
    ||| name == "JSXText"@
    ||| name == "Keyword"@
    ||| name == "Null"@
    ||| name == "Numeric"@
    ||| name == "PrivateIdentifier"@
    ||| name == "Punctuator"@
    ||| name == "RegularExpression"@
    ||| name == "String"@
    ||| name == "Template"@
}

/// ESTree type of a token of kind `kind` which no AST node overrides.
pub open spec fn default_token_type(kind: Kind) -> Seq<char> {
    if kind == Kind::Ident || kind == Kind::Await {
        "Identifier"@
    } else if kind == Kind::True || kind == Kind::False {
        "Boolean"@
    } else if kind == Kind::Null {
        "Null"@
    } else if is_number(kind) {
        "Numeric"@
    } else if is_contextual_keyword(kind) {
        "Identifier"@
    } else if is_any_keyword(kind) {
        "Keyword"@
    } else {
        "Punctuator"@
    }
}

/// ESTree type of a token whose kind has been updated to say all there is to say about it.
pub open spec fn token_type(kind: Kind) -> Seq<char> {
    match kind {
        Kind::Str => "String"@,
        Kind::RegExp => "RegularExpression"@,
        Kind::NoSubstitutionTemplate
        | Kind::TemplateHead
        | Kind::TemplateMiddle
        | Kind::TemplateTail => "Template"@,
        Kind::PrivateIdentifier => "PrivateIdentifier"@,
        Kind::JSXText => "JSXText"@,
        Kind::JSXIdentifier => "JSXIdentifier"@,
        _ => default_token_type(kind),
    }
}

/// No two ESTree token types are the same.
proof fn lemma_estree_types_differ()
    ensures
        "Boolean"@ != "Identifier"@,
        "Boolean"@ != "JSXIdentifier"@,
        "Boolean"@ != "JSXText"@,
        "Boolean"@ != "Keyword"@,
        "Boolean"@ != "Null"@,
        "Boolean"@ != "Numeric"@,
        "Boolean"@ != "PrivateIdentifier"@,
        "Boolean"@ != "Punctuator"@,
        "Boolean"@ != "RegularExpression"@,
        "Boolean"@ != "String"@,
        "Boolean"@ != "Template"@,
        "Identifier"@ != "JSXIdentifier"@,
        "Identifier"@ != "JSXText"@,
        "Identifier"@ != "Keyword"@,
        "Identifier"@ != "Null"@,
        "Identifier"@ != "Numeric"@,
        "Identifier"@ != "PrivateIdentifier"@,
        "Identifier"@ != "Punctuator"@,
        "Identifier"@ != "RegularExpression"@,
        "Identifier"@ != "String"@,
        "Identifier"@ != "Template"@,
        "JSXIdentifier"@ != "JSXText"@,
        "JSXIdentifier"@ != "Keyword"@,
        "JSXIdentifier"@ != "Null"@,
        "JSXIdentifier"@ != "Numeric"@,
        "JSXIdentifier"@ != "PrivateIdentifier"@,
        "JSXIdentifier"@ != "Punctuator"@,
        "JSXIdentifier"@ != "RegularExpression"@,
        "JSXIdentifier"@ != "String"@,
        "JSXIdentifier"@ != "Template"@,
        "JSXText"@ != "Keyword"@,
        "JSXText"@ != "Null"@,
        "JSXText"@ != "Numeric"@,
        "JSXText"@ != "PrivateIdentifier"@,
        "JSXText"@ != "Punctuator"@,
        "JSXText"@ != "RegularExpression"@,
        "JSXText"@ != "String"@,
        "JSXText"@ != "Template"@,
        "Keyword"@ != "Null"@,
        "Keyword"@ != "Numeric"@,
        "Keyword"@ != "PrivateIdentifier"@,
        "Keyword"@ != "Punctuator"@,
        "Keyword"@ != "RegularExpression"@,
        "Keyword"@ != "String"@,
        "Keyword"@ != "Template"@,
        "Null"@ != "Numeric"@,
        "Null"@ != "PrivateIdentifier"@,
        "Null"@ != "Punctuator"@,
        "Null"@ != "RegularExpression"@,
        "Null"@ != "String"@,
        "Null"@ != "Template"@,
        "Numeric"@ != "PrivateIdentifier"@,
        "Numeric"@ != "Punctuator"@,
        "Numeric"@ != "RegularExpression"@,
        "Numeric"@ != "String"@,
        "Numeric"@ != "Template"@,
        "PrivateIdentifier"@ != "Punctuator"@,
        "PrivateIdentifier"@ != "RegularExpression"@,
        "PrivateIdentifier"@ != "String"@,
        "PrivateIdentifier"@ != "Template"@,
        "Punctuator"@ != "RegularExpression"@,
        "Punctuator"@ != "String"@,
        "Punctuator"@ != "Template"@,
        "RegularExpression"@ != "String"@,
        "RegularExpression"@ != "Template"@,
        "String"@ != "Template"@,
{
    reveal_strlit("Boolean");
    reveal_strlit("Identifier");
    reveal_strlit("JSXIdentifier");
    reveal_strlit("JSXText");
    reveal_strlit("Keyword");
    reveal_strlit("Null");
    reveal_strlit("Numeric");
    reveal_strlit("PrivateIdentifier");
    reveal_strlit("Punctuator");
    reveal_strlit("RegularExpression");
    reveal_strlit("String");
    reveal_strlit("Template");
    assert("Boolean"@.len() != "Identifier"@.len());
    assert("Boolean"@.len() != "JSXIdentifier"@.len());
    assert("Boolean"@[0] != "JSXText"@[0]);
    assert("Boolean"@[0] != "Keyword"@[0]);
    assert("Boolean"@.len() != "Null"@.len());
    assert("Boolean"@[0] != "Numeric"@[0]);
    assert("Boolean"@.len() != "PrivateIdentifier"@.len());
    assert("Boolean"@.len() != "Punctuator"@.len());
    assert("Boolean"@.len() != "RegularExpression"@.len());
    assert("Boolean"@.len() != "String"@.len());
    assert("Boolean"@.len() != "Template"@.len());
    assert("Identifier"@.len() != "JSXIdentifier"@.len());
    assert("Identifier"@.len() != "JSXText"@.len());
    assert("Identifier"@.len() != "Keyword"@.len());
    assert("Identifier"@.len() != "Null"@.len());
    assert("Identifier"@.len() != "Numeric"@.len());
    assert("Identifier"@.len() != "PrivateIdentifier"@.len());
    assert("Identifier"@[0] != "Punctuator"@[0]);
    assert("Identifier"@.len() != "RegularExpression"@.len());
    assert("Identifier"@.len() != "String"@.len());
    assert("Identifier"@.len() != "Template"@.len());
    assert("JSXIdentifier"@.len() != "JSXText"@.len());
    assert("JSXIdentifier"@.len() != "Keyword"@.len());
    assert("JSXIdentifier"@.len() != "Null"@.len());
    assert("JSXIdentifier"@.len() != "Numeric"@.len());
    assert("JSXIdentifier"@.len() != "PrivateIdentifier"@.len());
    assert("JSXIdentifier"@.len() != "Punctuator"@.len());
    assert("JSXIdentifier"@.len() != "RegularExpression"@.len());
    assert("JSXIdentifier"@.len() != "String"@.len());
    assert("JSXIdentifier"@.len() != "Template"@.len());
    assert("JSXText"@[0] != "Keyword"@[0]);
    assert("JSXText"@.len() != "Null"@.len());
    assert("JSXText"@[0] != "Numeric"@[0]);
    assert("JSXText"@.len() != "PrivateIdentifier"@.len());
    assert("JSXText"@.len() != "Punctuator"@.len());
    assert("JSXText"@.len() != "RegularExpression"@.len());
    assert("JSXText"@.len() != "String"@.len());
    assert("JSXText"@.len() != "Template"@.len());
    assert("Keyword"@.len() != "Null"@.len());
    assert("Keyword"@[0] != "Numeric"@[0]);
    assert("Keyword"@.len() != "PrivateIdentifier"@.len());
    assert("Keyword"@.len() != "Punctuator"@.len());
    assert("Keyword"@.len() != "RegularExpression"@.len());
    assert("Keyword"@.len() != "String"@.len());
    assert("Keyword"@.len() != "Template"@.len());
    assert("Null"@.len() != "Numeric"@.len());
    assert("Null"@.len() != "PrivateIdentifier"@.len());
    assert("Null"@.len() != "Punctuator"@.len());
    assert("Null"@.len() != "RegularExpression"@.len());
    assert("Null"@.len() != "String"@.len());
    assert("Null"@.len() != "Template"@.len());
    assert("Numeric"@.len() != "PrivateIdentifier"@.len());
    assert("Numeric"@.len() != "Punctuator"@.len());
    assert("Numeric"@.len() != "RegularExpression"@.len());
    assert("Numeric"@.len() != "String"@.len());
    assert("Numeric"@.len() != "Template"@.len());
    assert("PrivateIdentifier"@.len() != "Punctuator"@.len());
    assert("PrivateIdentifier"@[0] != "RegularExpression"@[0]);
    assert("PrivateIdentifier"@.len() != "String"@.len());
    assert("PrivateIdentifier"@.len() != "Template"@.len());
    assert("Punctuator"@.len() != "RegularExpression"@.len());
    assert("Punctuator"@.len() != "String"@.len());
    assert("Punctuator"@.len() != "Template"@.len());
    assert("RegularExpression"@.len() != "String"@.len());
    assert("RegularExpression"@.len() != "Template"@.len());
    assert("String"@.len() != "Template"@.len());
}

/// Which kinds have which ESTree types, where no AST node overrides them.
///
/// All reserved words but `await`, and the words reserved in strict mode, are keywords. Words with a
/// special meaning only in some positions are identifiers.
pub proof fn law_default_types(kind: Kind)
    ensures
        default_token_type(kind) == "Keyword"@ <==> (matches!(
            kind,
            Kind::Break | Kind::Case | Kind::Catch | Kind::Class | Kind::Const
                | Kind::Continue | Kind::Debugger | Kind::Default | Kind::Delete | Kind::Do
                | Kind::Else | Kind::Enum | Kind::Export | Kind::Extends | Kind::Finally | Kind::For
                | Kind::Function | Kind::If | Kind::Import | Kind::In | Kind::Instanceof | Kind::New
                | Kind::Return | Kind::Super | Kind::Switch | Kind::This | Kind::Throw | Kind::Try
                | Kind::Typeof | Kind::Var | Kind::Void | Kind::While | Kind::With
                | Kind::Implements | Kind::Interface | Kind::Let | Kind::Package | Kind::Private
                | Kind::Protected | Kind::Public | Kind::Static | Kind::Yield
        )),
        default_token_type(kind) == "Identifier"@ <==> (matches!(
            kind,
            Kind::Ident | Kind::Await | Kind::Async | Kind::From | Kind::GetKeyword
                | Kind::Meta | Kind::Of | Kind::SetKeyword | Kind::Target | Kind::Accessor
                | Kind::Source | Kind::Defer | Kind::Abstract | Kind::As | Kind::Asserts
                | Kind::Assert | Kind::Any | Kind::Boolean | Kind::Constructor | Kind::Declare
                | Kind::Infer | Kind::Intrinsic | Kind::Is | Kind::KeyOf | Kind::Module
                | Kind::Namespace | Kind::Never | Kind::Out | Kind::Readonly | Kind::Require
                | Kind::Number | Kind::Object | Kind::Satisfies | Kind::String | Kind::Symbol
                | Kind::Type | Kind::Undefined | Kind::Unique | Kind::Using | Kind::Unknown
                | Kind::Global | Kind::BigInt | Kind::Override
        )),
        default_token_type(kind) == "Numeric"@ <==> (matches!(
            kind,
            Kind::Decimal | Kind::Float | Kind::Binary | Kind::Octal | Kind::Hex
                | Kind::PositiveExponential | Kind::NegativeExponential | Kind::DecimalBigInt
                | Kind::BinaryBigInt | Kind::OctalBigInt | Kind::HexBigInt
        )),
        default_token_type(kind) == "Boolean"@ <==> kind == Kind::True || kind == Kind::False,
        default_token_type(kind) == "Null"@ <==> kind == Kind::Null,
        ({
            ||| default_token_type(kind) == "Keyword"@
            ||| default_token_type(kind) == "Identifier"@
            ||| default_token_type(kind) == "Numeric"@
            ||| default_token_type(kind) == "Boolean"@
            ||| default_token_type(kind) == "Null"@
            ||| default_token_type(kind) == "Punctuator"@
        }),
{
    lemma_estree_types_differ();
}

/// Which kinds have which ESTree types, once an update has made them say all there is to say.
pub proof fn law_types(kind: Kind)
    ensures
        token_type(kind) == "String"@ <==> kind == Kind::Str,
        token_type(kind) == "RegularExpression"@ <==> kind == Kind::RegExp,
        token_type(kind) == "PrivateIdentifier"@ <==> kind == Kind::PrivateIdentifier,
        token_type(kind) == "JSXText"@ <==> kind == Kind::JSXText,
        token_type(kind) == "JSXIdentifier"@ <==> kind == Kind::JSXIdentifier,
        token_type(kind) == "Template"@ <==> (matches!(
            kind,
            Kind::NoSubstitutionTemplate | Kind::TemplateHead | Kind::TemplateMiddle
                | Kind::TemplateTail
        )),
        token_type(kind) == "Keyword"@ <==> (matches!(
            kind,
            Kind::Break | Kind::Case | Kind::Catch | Kind::Class | Kind::Const
                | Kind::Continue | Kind::Debugger | Kind::Default | Kind::Delete | Kind::Do
                | Kind::Else | Kind::Enum | Kind::Export | Kind::Extends | Kind::Finally | Kind::For
                | Kind::Function | Kind::If | Kind::Import | Kind::In | Kind::Instanceof | Kind::New
                | Kind::Return | Kind::Super | Kind::Switch | Kind::This | Kind::Throw | Kind::Try
                | Kind::Typeof | Kind::Var | Kind::Void | Kind::While | Kind::With
                | Kind::Implements | Kind::Interface | Kind::Let | Kind::Package | Kind::Private
                | Kind::Protected | Kind::Public | Kind::Static | Kind::Yield
        )),
        token_type(kind) == "Identifier"@ <==> (matches!(
            kind,
            Kind::Ident | Kind::Await | Kind::Async | Kind::From | Kind::GetKeyword
                | Kind::Meta | Kind::Of | Kind::SetKeyword | Kind::Target | Kind::Accessor
                | Kind::Source | Kind::Defer | Kind::Abstract | Kind::As | Kind::Asserts
                | Kind::Assert | Kind::Any | Kind::Boolean | Kind::Constructor | Kind::Declare
                | Kind::Infer | Kind::Intrinsic | Kind::Is | Kind::KeyOf | Kind::Module
                | Kind::Namespace | Kind::Never | Kind::Out | Kind::Readonly | Kind::Require
                | Kind::Number | Kind::Object | Kind::Satisfies | Kind::String | Kind::Symbol
                | Kind::Type | Kind::Undefined | Kind::Unique | Kind::Using | Kind::Unknown
                | Kind::Global | Kind::BigInt | Kind::Override
        )),
        token_type(kind) == "Numeric"@ <==> (matches!(
            kind,
            Kind::Decimal | Kind::Float | Kind::Binary | Kind::Octal | Kind::Hex
                | Kind::PositiveExponential | Kind::NegativeExponential | Kind::DecimalBigInt
                | Kind::BinaryBigInt | Kind::OctalBigInt | Kind::HexBigInt
        )),
        token_type(kind) == "Boolean"@ <==> kind == Kind::True || kind == Kind::False,
        token_type(kind) == "Null"@ <==> kind == Kind::Null,
        is_estree_type(token_type(kind)),
{
    lemma_estree_types_differ();
    law_default_types(kind);
}

/// Numbers, contextual keywords and keywords are told by their ESTree types. The kinds with a rule of
/// their own are those with ESTree types that no default is.
pub proof fn law_sorts_of_kinds(kind: Kind)
    ensures
        is_number(kind) <==> default_token_type(kind) == "Numeric"@,
        is_contextual_keyword(kind) <==> default_token_type(kind) == "Identifier"@ && kind
            != Kind::Ident && kind != Kind::Await,
        is_any_keyword(kind) <==> ({
            ||| default_token_type(kind) == "Keyword"@
            ||| is_contextual_keyword(kind)
            ||| kind == Kind::Await
        }),
        has_own_node(kind) <==> ({
            ||| token_type(kind) == "String"@
            ||| token_type(kind) == "RegularExpression"@
            ||| token_type(kind) == "Template"@
            ||| token_type(kind) == "PrivateIdentifier"@
            ||| token_type(kind) == "JSXText"@
        }),
        is_js_only_keyword(kind) <==> kind == Kind::Yield || kind == Kind::Let || kind
            == Kind::Static,
{
    law_default_types(kind);
    law_types(kind);
}

impl Kind {
    /// `true` for numbers and `BigInt`s.
    pub fn is_number(self) -> (r: bool)
        ensures
            r == is_number(self),
    {
        matches!(
            self,
            Kind::Decimal | Kind::Float | Kind::Binary | Kind::Octal | Kind::Hex
                | Kind::PositiveExponential | Kind::NegativeExponential
                | Kind::DecimalBigInt | Kind::BinaryBigInt | Kind::OctalBigInt
                | Kind::HexBigInt
        )
    }

    /// `true` for words with a special meaning only in some positions.
    pub fn is_contextual_keyword(self) -> (r: bool)
        ensures
            r == is_contextual_keyword(self),
    {
        matches!(
            self,
            Kind::Async | Kind::From | Kind::GetKeyword | Kind::Meta | Kind::Of | Kind::SetKeyword
                | Kind::Target | Kind::Accessor | Kind::Source | Kind::Defer
                | Kind::Abstract | Kind::As | Kind::Asserts | Kind::Assert | Kind::Any
                | Kind::Boolean | Kind::Constructor | Kind::Declare | Kind::Infer
                | Kind::Intrinsic | Kind::Is | Kind::KeyOf | Kind::Module | Kind::Namespace
                | Kind::Never | Kind::Out | Kind::Readonly | Kind::Require | Kind::Number
                | Kind::Object | Kind::Satisfies | Kind::String | Kind::Symbol | Kind::Type
                | Kind::Undefined | Kind::Unique | Kind::Using | Kind::Unknown
                | Kind::Global | Kind::BigInt | Kind::Override
        )
    }

    /// `true` for keywords of any sort.
    pub fn is_any_keyword(self) -> (r: bool)
        ensures
            r == is_any_keyword(self),
    {
        self.is_contextual_keyword() || matches!(
            self,
            Kind::Await | Kind::Break | Kind::Case | Kind::Catch | Kind::Class
                | Kind::Const | Kind::Continue | Kind::Debugger | Kind::Default
                | Kind::Delete | Kind::Do | Kind::Else | Kind::Enum | Kind::Export
                | Kind::Extends | Kind::Finally | Kind::For | Kind::Function | Kind::If
                | Kind::Import | Kind::In | Kind::Instanceof | Kind::New | Kind::Return
                | Kind::Super | Kind::Switch | Kind::This | Kind::Throw | Kind::Try
                | Kind::Typeof | Kind::Var | Kind::Void | Kind::While | Kind::With
                | Kind::Implements | Kind::Interface | Kind::Let | Kind::Package
                | Kind::Private | Kind::Protected | Kind::Public | Kind::Static
                | Kind::Yield
        )
    }

    /// `true` for the keywords which JS style leaves as keywords even where they are used as
    /// identifiers.
    pub fn is_js_only_keyword(self) -> (r: bool)
        ensures
            r == is_js_only_keyword(self),
    {
        matches!(self, Kind::Yield | Kind::Let | Kind::Static)
    }

    /// `true` for the kinds of the tokens that belong to an AST node with a rule of its own.
    pub fn has_own_node(self) -> (r: bool)
        ensures
            r == has_own_node(self),
    {
        matches!(
            self,
            Kind::Str | Kind::RegExp | Kind::JSXText | Kind::PrivateIdentifier
                | Kind::NoSubstitutionTemplate | Kind::TemplateHead | Kind::TemplateMiddle
                | Kind::TemplateTail
        )
    }

    /// ESTree type of a token of this kind which no AST node overrides.
    pub fn default_token_type(self) -> (r: &'static str)
        ensures
            r@ == default_token_type(self),
    {
        match self {
            Kind::Ident | Kind::Await => "Identifier",
            Kind::True | Kind::False => "Boolean",
            Kind::Null => "Null",
            _ if self.is_number() => "Numeric",
            _ if self.is_contextual_keyword() => "Identifier",
            _ if self.is_any_keyword() => "Keyword",
            _ => "Punctuator",
        }
    }
}

/// ESTree type of a token whose kind has been updated by
/// [`update_tokens`](crate::serialize::update_tokens).
pub fn get_token_type(kind: Kind) -> (r: &'static str)
    ensures
        r@ == token_type(kind),
{
    match kind {
        Kind::Str => "String",
        Kind::RegExp => "RegularExpression",
        Kind::NoSubstitutionTemplate
        | Kind::TemplateHead
        | Kind::TemplateMiddle
        | Kind::TemplateTail => "Template",
        Kind::PrivateIdentifier => "PrivateIdentifier",
        Kind::JSXText => "JSXText",
        Kind::JSXIdentifier => "JSXIdentifier",
        _ => kind.default_token_type(),
    }
}

} // verus!
