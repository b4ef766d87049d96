//! The token trees of a macro definition's body, as plain values: each
//! token or bracketed group with its source span.
use vstd::prelude::*;

verus! {

/// A range of the source, as byte positions.
#[derive(Clone, Copy, Debug, PartialEq, Eq)]
pub struct Span {
    pub lo: u32,
    pub hi: u32,
}

/// The kind of brackets around a group of tokens.
#[derive(Clone, Copy, Debug, PartialEq, Eq)]
pub enum Delimiter {
    /// `( ... )`
    Parenthesis,
    /// `{ ... }`
    Brace,
    /// `[ ... ]`
    Bracket,
    /// A group without brackets in the source.
    Invisible,
}

/// The tokens that the brace check tells apart.
#[derive(Debug)]
pub enum TokenKind {
    /// An identifier, by its name.
    Ident(String),
    /// `!`
    Bang,
    /// Any other token.
    Other,
}

/// A single token, or a bracketed group of token trees.
#[derive(Debug)]
pub enum TokenTree {
    Token(TokenKind, Span),
    /// The span covers the group from its opening to its closing bracket.
    Delimited(Span, Delimiter, Vec<TokenTree>),
}

/// The opening bracket of a delimiter, if it has one in the source.
pub open spec fn delimiter_open(delim: Delimiter) -> Option<char> {
    match delim {
        Delimiter::Parenthesis => Some('('),
        Delimiter::Brace => Some('{'),
        Delimiter::Bracket => Some('['),
        Delimiter::Invisible => None,
    }
}

/// The opening bracket of `delim`, if it has one in the source.
pub fn open_of(delim: Delimiter) -> (res: Option<char>)
    ensures
        res == delimiter_open(delim),
{
    match delim {
        Delimiter::Parenthesis => Some('('),
        Delimiter::Brace => Some('{'),
        Delimiter::Bracket => Some('['),
        Delimiter::Invisible => None,
    }
}

} // verus!
