# estree_tokens

ESTree tokens of JavaScript and TypeScript programs, in Verus.

A lexer gives each token a kind, but only the AST tells what the token is used as. This library walks
over an AST, together with the tokens of the source text, and

- turns each token into an ESTree token (`serialize::serialize_tokens`), or
- updates the kinds of the tokens in place, so that `kind::get_token_type` gives their ESTree types
  (`serialize::update_tokens`).

Either way spans are converted from UTF-8 to UTF-16 offsets. Both functions require that the tokens
fit the AST. `can_serialize_tokens` and `can_update_tokens` tell whether they do;
`try_serialize_tokens` and `try_update_tokens` ask first.

| Module | What is in it |
| --- | --- |
| `kind`, `token` | Kinds, spans and tokens |
| `lexer` | Splitting `<<` and `>>` into angle brackets |
| `ast` | The parts of an AST that decide the types of tokens |
| `config` | What a style of tokens has to say, and JS style |
| `trace` | What a walk over an AST asks for, as a sequence of requests |
| `context`, `visitor` | The walk, and what its requests are handed to |
| `json`, `update`, `fit` | Serializing, updating, and finding out whether either may be done |
| `estree` | ESTree tokens, and the JSON objects for them |
| `text`, `utf16`, `encode` | Slices of the source text, conversion of offsets, and JSON strings |
| `serialize` | Entry points |
| `walks`, `laws`, `parsed` | What holds of walks, of serialized and updated tokens, and of what comes from one parse |

`utf16` and `encode` hold all that is trusted: the conversion table of `oxc_ast_visit`, and the
encoding of strings of `oxc_estree`.

`app/` builds the tree of an oxc AST, and writes ESTree tokens with an oxc serializer.
