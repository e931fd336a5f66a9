use vstd::prelude::*;

verus! {

/// One lexical token of the compact single-line syntax.
///
/// The stream is flat: delimiters are individual tokens, and the
/// multi-character operators `->`, `=>` and `::` are single tokens.
/// Identifier, literal and attribute payloads are opaque symbols
/// (interning indices chosen by the caller); the transformer never
/// inspects their text, it only carries them through.
#[derive(Clone, Copy, PartialEq, Eq, Structural, Debug)]
pub enum Token {
    /// A non-keyword identifier, as an interned symbol.
    Ident(u64),
    /// A literal (number, string, ...), as an interned symbol.
    Lit(u64),
    /// One outer attribute or documentation comment, captured
    /// verbatim as an interned symbol.
    Attr(u64),
    KwPub,
    KwFn,
    KwSelf,
    KwMut,
    KwCrate,
    KwSuper,
    KwIn,
    LParen,
    RParen,
    LBracket,
    RBracket,
    LBrace,
    RBrace,
    /// `->`
    Arrow,
    /// `=>`
    FatArrow,
    /// `::`
    PathSep,
    /// `&`
    Amp,
    /// `:`
    Colon,
    /// `,`
    Comma,
    /// `.`
    Dot,
    /// `<`
    Lt,
    /// `>`
    Gt,
    /// Any other single punctuation character.
    Punct(char),
}

impl Token {
    /// Tokens that open a delimited group.
    pub open spec fn is_opener(self) -> bool {
        self == Token::LParen || self == Token::LBracket || self == Token::LBrace
    }

    /// Tokens that close a delimited group.
    pub open spec fn is_closer(self) -> bool {
        self == Token::RParen || self == Token::RBracket || self == Token::RBrace
    }
}

} // verus!
