//! Entry points.

use oxc_ast_visit::utf8_to_utf16::Utf8ToUtf16;
use vstd::prelude::*;
use vstd::slice::slice_to_vec;
use vstd::utf8::encode_utf8;

use crate::ast::Program;
use crate::config::{ESTreeTokenConfig, JSXState};
use crate::context::{accepts_all, run};
use crate::estree::{views, ESTreeToken, TokenView};
use crate::fit::{lemma_json_fit, lemma_update_fit, JsonFit, UpdateFit};
use crate::json::{Cursor, JsonContext, JsonModel};
use crate::token::Token;
use crate::trace::{program_trace, Action, Style};
use crate::update::{UpdateContext, UpdateModel};
use crate::utf16::{is_table_of, ordered, translations};
use crate::visitor::Visitor;

verus! {

/// What the walk over `program` asks for, with or without the text parts of templates.
pub open spec fn requests<O: ESTreeTokenConfig>(
    program: Program<'_>,
    options: O,
    quasis: bool,
) -> Seq<Action> {
    program_trace(
        program,
        Style { ts: options.spec_is_ts(), quasis },
        O::JSXState::spec_initial(),
    ).actions
}

/// Serialization of `tokens`, before the first request.
pub open spec fn json_start<O: ESTreeTokenConfig>(
    tokens: Seq<Token>,
    text: Seq<char>,
    table: Seq<(u32, u32)>,
    options: O,
) -> JsonModel {
    JsonModel {
        cursor: Cursor { ts: options.spec_is_ts(), tokens, text, table, next: 0 },
        out: Seq::empty(),
    }
}

/// Serialization of `tokens`, after the last request.
pub open spec fn json_end<O: ESTreeTokenConfig>(
    tokens: Seq<Token>,
    program: Program<'_>,
    text: Seq<char>,
    table: Seq<(u32, u32)>,
    options: O,
) -> JsonModel {
    run::<JsonContext<'_, '_, O>>(
        json_start(tokens, text, table, options),
        requests(program, options, true),
    )
}

/// Do `tokens` fit `program` and `text`, so that they can be serialized?
///
/// Each token that the walk over the program asks for has to be there, in source order, and to have
/// a source text where that is needed. The other tokens need a source text, and a kind which does
/// not belong to an AST node with a rule of its own.
pub open spec fn can_serialize<O: ESTreeTokenConfig>(
    tokens: Seq<Token>,
    program: Program<'_>,
    text: Seq<char>,
    table: Seq<(u32, u32)>,
    options: O,
) -> bool {
    &&& accepts_all::<JsonContext<'_, '_, O>>(
        json_start(tokens, text, table, options),
        requests(program, options, true),
    )
    &&& json_end(tokens, program, text, table, options).cursor.are_default(tokens.len())
}

/// `tokens` as ESTree tokens.
pub open spec fn serialized<O: ESTreeTokenConfig>(
    tokens: Seq<Token>,
    program: Program<'_>,
    text: Seq<char>,
    table: Seq<(u32, u32)>,
    options: O,
) -> Seq<TokenView> {
    json_end(tokens, program, text, table, options).finished()
}

/// Update of `tokens`, before the first request.
pub open spec fn update_start<O: ESTreeTokenConfig>(
    tokens: Seq<Token>,
    table: Seq<(u32, u32)>,
    options: O,
) -> UpdateModel {
    UpdateModel { ts: options.spec_is_ts(), tokens, table, next: 0 }
}

/// Update of `tokens`, after the last request.
pub open spec fn update_end<O: ESTreeTokenConfig>(
    tokens: Seq<Token>,
    program: Program<'_>,
    table: Seq<(u32, u32)>,
    options: O,
) -> UpdateModel {
    run::<UpdateContext<'_, O>>(
        update_start(tokens, table, options),
        requests(program, options, false),
    )
}

/// Do `tokens` fit `program`, so that they can be updated?
///
/// Each token whose kind the walk over the program changes has to be there, in source order.
pub open spec fn can_update<O: ESTreeTokenConfig>(
    tokens: Seq<Token>,
    program: Program<'_>,
    table: Seq<(u32, u32)>,
    options: O,
) -> bool {
    &&& accepts_all::<UpdateContext<'_, O>>(
        update_start(tokens, table, options),
        requests(program, options, false),
    )
    &&& update_end(tokens, program, table, options).are_convertible(tokens.len())
}

/// `tokens` with their kinds updated, and their spans in UTF-16 offsets.
pub open spec fn updated<O: ESTreeTokenConfig>(
    tokens: Seq<Token>,
    program: Program<'_>,
    table: Seq<(u32, u32)>,
    options: O,
) -> Seq<Token> {
    update_end(tokens, program, table, options).finished()
}

/// Requests change neither the tokens nor what they are serialized with.
proof fn lemma_json_frame<O: ESTreeTokenConfig>(start: JsonModel, actions: Seq<Action>)
    ensures
        run::<JsonContext<'_, '_, O>>(start, actions).cursor.tokens == start.cursor.tokens,
    decreases actions.len(),
{
    if actions.len() > 0 {
        lemma_json_frame::<O>(start, actions.drop_last());
    }
}

/// Walk AST and turn each token into an ESTree token as it's encountered.
///
/// Tokens are consumed from the `tokens` slice in source order.
/// When a visitor method encounters an AST node that requires a token type override
/// (e.g. a keyword used as an identifier), it emits all preceding tokens with their default types,
/// then emits the overridden token with its corrected type.
pub fn serialize_tokens<'a, O: ESTreeTokenConfig>(
    tokens: &[Token],
    program: &Program<'a>,
    source_text: &'a str,
    span_converter: &Utf8ToUtf16,
    options: O,
) -> (elements: Vec<ESTreeToken<'a>>)
    requires
        ordered(translations(*span_converter)),
        can_serialize(tokens@, *program, source_text@, translations(*span_converter), options),
    ensures
        views(elements@) == serialized(
            tokens@,
            *program,
            source_text@,
            translations(*span_converter),
            options,
        ),
{
    let mut visitor = Visitor {
        ctx: JsonContext::new(tokens, source_text, span_converter, options),
    };
    visitor.visit_program(program);
    proof {
        lemma_json_frame::<O>(
            json_start(tokens@, source_text@, translations(*span_converter), options),
            requests(*program, options, true),
        );
    }
    visitor.ctx.finish()
}

/// Walk AST and update token kinds to match ESTree token types.
/// Also converts token spans from UTF-8 byte offsets to UTF-16 offsets.
///
/// After this pass, `get_token_type(token.kind())` returns the correct ESTree token type
/// for every token, without needing AST context.
pub fn update_tokens<O: ESTreeTokenConfig>(
    tokens: &mut [Token],
    program: &Program<'_>,
    span_converter: &Utf8ToUtf16,
    options: O,
)
    requires
        ordered(translations(*span_converter)),
        can_update(old(tokens)@, *program, translations(*span_converter), options),
    ensures
        final(tokens)@ == updated(
            old(tokens)@,
            *program,
            translations(*span_converter),
            options,
        ),
{
    let mut visitor = Visitor {
        ctx: UpdateContext::new(slice_to_vec(tokens), span_converter, options),
    };
    visitor.visit_program(program);
    proof {
        lemma_update_fit::<O>(
            update_start(tokens@, translations(*span_converter), options),
            requests(*program, options, false),
        );
    }
    let result = visitor.ctx.finish();
    let mut i: usize = 0;
    while i < tokens.len()
        invariant
            i <= tokens@.len(),
            tokens@.len() == result@.len(),
            forall|j: int| 0 <= j < i ==> tokens@[j] == result@[j],
        decreases tokens@.len() - i,
    {
        tokens[i] = result[i];
        i += 1;
    }
    assert(tokens@ =~= result@);
}

/// `true` if `tokens` fit `program` and `source_text`, so that [`serialize_tokens`] may be called.
pub fn can_serialize_tokens<'a, O: ESTreeTokenConfig>(
    tokens: &[Token],
    program: &Program<'a>,
    source_text: &'a str,
    span_converter: &Utf8ToUtf16,
    options: &O,
) -> (r: bool)
    ensures
        r == can_serialize(
            tokens@,
            *program,
            source_text@,
            translations(*span_converter),
            *options,
        ),
{
    let ghost start = json_start(tokens@, source_text@, translations(*span_converter), *options);
    let ctx = JsonFit::<O::JSXState>::new(tokens, source_text, span_converter, options.is_ts());
    let mut visitor = Visitor { ctx };
    proof {
        lemma_json_fit::<O>(start, requests(*program, *options, true));
        lemma_json_frame::<O>(start, requests(*program, *options, true));
    }
    visitor.visit_program(program);
    visitor.ctx.finish()
}

/// `true` if `tokens` fit `program`, so that [`update_tokens`] may be called.
pub fn can_update_tokens<O: ESTreeTokenConfig>(
    tokens: &[Token],
    program: &Program<'_>,
    span_converter: &Utf8ToUtf16,
    options: &O,
) -> (r: bool)
    ensures
        r == can_update(tokens@, *program, translations(*span_converter), *options),
{
    let ghost start = update_start(tokens@, translations(*span_converter), *options);
    let ctx = UpdateFit::<O::JSXState>::new(tokens, span_converter, options.is_ts());
    let mut visitor = Visitor { ctx };
    proof {
        lemma_update_fit::<O>(start, requests(*program, *options, false));
    }
    visitor.visit_program(program);
    visitor.ctx.finish()
}

/// Turns each token of `source_text` into an ESTree token, or returns `None` if `tokens` do not fit
/// `program` and `source_text`, or offsets in the text do not fit in 32 bits.
pub fn try_serialize_tokens<'a, O: ESTreeTokenConfig>(
    tokens: &[Token],
    program: &Program<'a>,
    source_text: &'a str,
    options: O,
) -> (elements: Option<Vec<ESTreeToken<'a>>>)
    ensures
        match elements {
            Some(elements) => exists|table: Seq<(u32, u32)>|
                {
                    &&& #[trigger] is_table_of(table, source_text@)
                    &&& can_serialize(tokens@, *program, source_text@, table, options)
                    &&& views(elements@) == serialized(
                        tokens@,
                        *program,
                        source_text@,
                        table,
                        options,
                    )
                },
            None => {
                ||| encode_utf8(source_text@).len() > u32::MAX
                ||| exists|table: Seq<(u32, u32)>|
                    {
                        &&& #[trigger] is_table_of(table, source_text@)
                        &&& !can_serialize(tokens@, *program, source_text@, table, options)
                    }
            },
        },
{
    if source_text.as_bytes().len() > u32::MAX as usize {
        return None;
    }
    let span_converter = Utf8ToUtf16::new(source_text);
    if !can_serialize_tokens(tokens, program, source_text, &span_converter, &options) {
        return None;
    }
    Some(serialize_tokens(tokens, program, source_text, &span_converter, options))
}

/// Updates the kinds and spans of the tokens of `source_text`. Leaves them as they are, and returns
/// `false`, if they do not fit `program`, or offsets in the text do not fit in 32 bits.
pub fn try_update_tokens<O: ESTreeTokenConfig>(
    tokens: &mut [Token],
    program: &Program<'_>,
    source_text: &str,
    options: O,
) -> (done: bool)
    ensures
        if done {
            exists|table: Seq<(u32, u32)>|
                {
                    &&& #[trigger] is_table_of(table, source_text@)
                    &&& can_update(old(tokens)@, *program, table, options)
                    &&& final(tokens)@ == updated(old(tokens)@, *program, table, options)
                }
        } else {
            &&& final(tokens)@ == old(tokens)@
            &&& {
                ||| encode_utf8(source_text@).len() > u32::MAX
                ||| exists|table: Seq<(u32, u32)>|
                    {
                        &&& #[trigger] is_table_of(table, source_text@)
                        &&& !can_update(old(tokens)@, *program, table, options)
                    }
            }
        },
{
    if source_text.as_bytes().len() > u32::MAX as usize {
        return false;
    }
    let span_converter = Utf8ToUtf16::new(source_text);
    if !can_update_tokens(tokens, program, &span_converter, &options) {
        return false;
    }
    update_tokens(tokens, program, &span_converter, options);
    true
}

} // verus!
