//! Tokens of a JavaScript or TypeScript program, as ESTree tokens.
//!
//! A lexer does not know how a token is used: `if` is a keyword, but not in `a.if`. The AST of the
//! program tells. [`serialize`] walks over it, and either turns each token into an ESTree token, or
//! updates the kinds of the tokens in place. [`occurrences`] and [`outcomes`] say what comes of a token
//! from what stands in the AST, without following the walk. [`laws`], [`walks`] and [`parsed`] state
//! what else holds.

pub mod ast;
pub mod config;
pub mod context;
pub mod encode;
pub mod estree;
pub mod fit;
pub mod json;
pub mod kind;
pub mod laws;
pub mod lexer;
pub mod occurrences;
pub mod outcomes;
pub mod parsed;
pub mod serialize;
pub mod text;
pub mod token;
pub mod trace;
pub mod update;
pub mod utf16;
pub mod visitor;
pub mod walks;
