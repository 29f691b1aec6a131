//! Tokens of the register description language, as a macro receives them.

use vstd::prelude::*;

verus! {

/// The punctuation the description language uses.
#[derive(PartialEq, Eq, Structural, Clone, Copy)]
pub enum Punct {
    Eq,
    Comma,
    FatArrow,
    Semi,
}

/// A token: an identifier, an integer or string literal with its text,
/// a doc comment, punctuation, or any other token.
pub enum Token {
    Ident(String),
    Int(String),
    Str(String),
    DocComment(String),
    Punct(Punct),
    Other,
}

/// A token tree: a token, or a delimited group of token trees.
pub enum TokenTree {
    Token(Token),
    Delimited(Vec<TokenTree>),
}

} // verus!
