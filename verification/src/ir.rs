use crate::token::Token;
use vstd::prelude::*;

verus! {

/// The three receiver forms a method parameter list may carry.
#[derive(Clone, Copy, PartialEq, Eq, Structural, Debug)]
pub enum Receiver {
    /// `self`
    Value,
    /// `&self`
    Ref,
    /// `&mut self`
    RefMut,
}

/// One entry of a parameter list: a receiver marker or a named,
/// typed parameter. The type is kept verbatim as its token run.
#[derive(Debug)]
pub enum Param {
    Receiver(Receiver),
    Named { name: u64, ty: Vec<Token> },
}

/// Specification-level value of a [`Param`].
#[verifier::ext_equal]
pub enum ParamSpec {
    Receiver(Receiver),
    Named { name: u64, ty: Seq<Token> },
}

impl View for Param {
    type V = ParamSpec;

    open spec fn view(&self) -> ParamSpec {
        match self {
            Param::Receiver(r) => ParamSpec::Receiver(*r),
            Param::Named { name, ty } => ParamSpec::Named { name: *name, ty: ty@ },
        }
    }
}

/// A visibility qualifier: absent, `pub`, or `pub(...)` with the
/// restriction kept verbatim as the token run inside the parentheses.
#[derive(Debug)]
pub enum Vis {
    Private,
    Public,
    Restricted(Vec<Token>),
}

/// Specification-level value of a [`Vis`].
#[verifier::ext_equal]
pub enum VisSpec {
    Private,
    Public,
    Restricted(Seq<Token>),
}

impl View for Vis {
    type V = VisSpec;

    open spec fn view(&self) -> VisSpec {
        match self {
            Vis::Private => VisSpec::Private,
            Vis::Public => VisSpec::Public,
            Vis::Restricted(r) => VisSpec::Restricted(r@),
        }
    }
}

/// The parsed form of one invocation: everything the synthesizer
/// needs to emit a complete definition. The optional `fn` marker is a
/// parsing affordance only and is not recorded; invocations with and
/// without it parse to equal values.
#[derive(Debug)]
pub struct SingleLine {
    /// Leading attribute tokens (each is `Token::Attr`), in source order.
    pub attrs: Vec<Token>,
    pub vis: Vis,
    /// The function or method name, as an interned symbol.
    pub name: u64,
    pub params: Vec<Param>,
    /// The explicit return type's token run, or `None` for the unit default.
    pub ret_ty: Option<Vec<Token>>,
    /// The body expression's token run, verbatim.
    pub body: Vec<Token>,
}

/// Specification-level value of a [`SingleLine`].
#[verifier::ext_equal]
pub struct SingleLineSpec {
    pub attrs: Seq<Token>,
    pub vis: VisSpec,
    pub name: u64,
    pub params: Seq<ParamSpec>,
    pub ret_ty: Option<Seq<Token>>,
    pub body: Seq<Token>,
}

impl View for SingleLine {
    type V = SingleLineSpec;

    open spec fn view(&self) -> SingleLineSpec {
        SingleLineSpec {
            attrs: self.attrs@,
            vis: self.vis@,
            name: self.name,
            params: self.params@.map_values(|p: Param| p@),
            ret_ty: match self.ret_ty {
                Some(ty) => Some(ty@),
                None => None,
            },
            body: self.body@,
        }
    }
}

/// What the parser was looking for when it stopped.
#[derive(Clone, Copy, PartialEq, Eq, Structural, Debug)]
pub enum Expected {
    /// An identifier naming the function or method.
    Name,
    /// A parameter: a receiver form or a parameter name.
    Parameter,
    /// `:` between a parameter name and its type.
    Colon,
    /// A non-empty type after `:`.
    ParamType,
    /// `,` between parameters.
    Comma,
    /// `)` closing the parameter list or a visibility restriction.
    CloseParen,
    /// A non-empty return type after `->`.
    ReturnType,
    /// The `=>` separator.
    Separator,
    /// A non-empty body expression after `=>`.
    Body,
}

/// A failed parse: the token kind that was expected and the index of
/// the offending token (the stream's length when input ended early).
#[derive(Clone, Copy, PartialEq, Eq, Structural, Debug)]
pub struct SyntaxError {
    pub pos: usize,
    pub expected: Expected,
}

} // verus!
