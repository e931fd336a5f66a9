use crate::ir::{Param, ParamSpec, Receiver, SingleLine, SingleLineSpec, VisSpec};
use crate::token::Token;
use vstd::prelude::*;

verus! {

/// Tokens a visibility qualifier is emitted as.
pub open spec fn vis_tokens(v: VisSpec) -> Seq<Token> {
    match v {
        VisSpec::Private => Seq::empty(),
        VisSpec::Public => seq![Token::KwPub],
        VisSpec::Restricted(r) => seq![Token::KwPub, Token::LParen] + r + seq![Token::RParen],
    }
}

/// Tokens a receiver form is emitted as.
pub open spec fn receiver_tokens(r: Receiver) -> Seq<Token> {
    match r {
        Receiver::Value => seq![Token::KwSelf],
        Receiver::Ref => seq![Token::Amp, Token::KwSelf],
        Receiver::RefMut => seq![Token::Amp, Token::KwMut, Token::KwSelf],
    }
}

/// Tokens one parameter is emitted as.
pub open spec fn param_tokens(p: ParamSpec) -> Seq<Token> {
    match p {
        ParamSpec::Receiver(r) => receiver_tokens(r),
        ParamSpec::Named { name, ty } => seq![Token::Ident(name), Token::Colon] + ty,
    }
}

/// The parameter list's contents, comma-separated, without a trailing
/// comma.
pub open spec fn params_tokens(ps: Seq<ParamSpec>) -> Seq<Token>
    decreases ps.len(),
{
    if ps.len() == 0 {
        Seq::empty()
    } else if ps.len() == 1 {
        param_tokens(ps[0])
    } else {
        params_tokens(ps.drop_last()) + seq![Token::Comma] + param_tokens(ps.last())
    }
}

/// The return clause's type tokens: the explicit type, or the unit
/// type `()` when the clause was omitted.
pub open spec fn ret_tokens(ret_ty: Option<Seq<Token>>) -> Seq<Token> {
    match ret_ty {
        Some(ty) => ty,
        None => seq![Token::LParen, Token::RParen],
    }
}

/// An invocation defines a method exactly when its parameter list
/// carries a receiver marker.
pub open spec fn is_method(ps: Seq<ParamSpec>) -> bool {
    exists|k: int| 0 <= k < ps.len() && (ps[k] is Receiver)
}

/// A body that is a single bare identifier, with no path
/// qualification around it.
pub open spec fn is_bare_ident(body: Seq<Token>) -> bool {
    body.len() == 1 && (body[0] is Ident)
}

/// The body as emitted: a bare-identifier method body `f` becomes the
/// receiver access `self . f`; every other body is kept verbatim.
pub open spec fn body_tokens(ps: Seq<ParamSpec>, body: Seq<Token>) -> Seq<Token> {
    if is_method(ps) && is_bare_ident(body) {
        seq![Token::KwSelf, Token::Dot, body[0]]
    } else {
        body
    }
}

/// The synthesized definition's signature: attributes, visibility,
/// `fn`, name, parenthesized parameters, arrow and return type.
pub open spec fn signature_tokens(ir: SingleLineSpec) -> Seq<Token> {
    ir.attrs + vis_tokens(ir.vis) + seq![Token::KwFn, Token::Ident(ir.name), Token::LParen]
        + params_tokens(ir.params) + seq![Token::RParen, Token::Arrow] + ret_tokens(ir.ret_ty)
}

/// The complete synthesized definition: the signature, then the
/// (possibly rewritten) body wrapped in a brace block.
pub open spec fn spec_synthesize(ir: SingleLineSpec) -> Seq<Token> {
    signature_tokens(ir) + seq![Token::LBrace] + body_tokens(ir.params, ir.body) + seq![
        Token::RBrace,
    ]
}

/// Appends a copy of `src` to `out`.
fn push_all(out: &mut Vec<Token>, src: &Vec<Token>)
    ensures
        final(out)@ == old(out)@ + src@,
{
    let mut k: usize = 0;
    while k < src.len()
        invariant
            k <= src@.len(),
            out@ == old(out)@ + src@.subrange(0, k as int),
        decreases src@.len() - k,
    {
        out.push(src[k]);
        k = k + 1;
        assert(out@ =~= old(out)@ + src@.subrange(0, k as int));
    }
    assert(out@ =~= old(out)@ + src@);
}

/// Unrolls [`params_tokens`] one parameter at a time, front to back.
proof fn lemma_params_tokens_step(ps: Seq<ParamSpec>, k: int)
    requires
        0 <= k < ps.len(),
    ensures
        params_tokens(ps.take(k + 1)) == if k == 0 {
            param_tokens(ps[0])
        } else {
            params_tokens(ps.take(k)) + seq![Token::Comma] + param_tokens(ps[k])
        },
{
    let pre = ps.take(k + 1);
    if k == 0 {
        assert(pre.len() == 1);
        assert(pre[0] == ps[0]);
    } else {
        assert(pre.drop_last() =~= ps.take(k));
        assert(pre.last() == ps[k]);
    }
}

impl SingleLine {
    /// Whether the parameter list carries a receiver marker.
    pub fn has_receiver(&self) -> (r: bool)
        ensures
            r == is_method(self@.params),
    {
        let ghost psv = self.params@.map_values(|p: Param| p@);
        let mut k: usize = 0;
        while k < self.params.len()
            invariant
                k <= self.params@.len(),
                psv == self.params@.map_values(|p: Param| p@),
                forall|j: int| 0 <= j < k ==> !(psv[j] is Receiver),
            decreases self.params@.len() - k,
        {
            if let Param::Receiver(_) = &self.params[k] {
                assert(psv[k as int] is Receiver);
                return true;
            }
            assert(!(psv[k as int] is Receiver));
            k = k + 1;
        }
        false
    }

    /// Emits the complete definition this invocation stands for.
    pub fn synthesize(&self) -> (out: Vec<Token>)
        ensures
            out@ == spec_synthesize(self@),
    {
        let ghost ir = self@;
        let mut out: Vec<Token> = Vec::new();

        // Attributes and documentation, verbatim and in order.
        push_all(&mut out, &self.attrs);

        // Visibility.
        match &self.vis {
            crate::ir::Vis::Private => {},
            crate::ir::Vis::Public => {
                out.push(Token::KwPub);
            },
            crate::ir::Vis::Restricted(r) => {
                out.push(Token::KwPub);
                out.push(Token::LParen);
                push_all(&mut out, r);
                out.push(Token::RParen);
            },
        }
        assert(out@ =~= ir.attrs + vis_tokens(ir.vis));

        // `fn`, the name and the parameter list, always parenthesized.
        out.push(Token::KwFn);
        out.push(Token::Ident(self.name));
        out.push(Token::LParen);
        let ghost head = ir.attrs + vis_tokens(ir.vis) + seq![
            Token::KwFn,
            Token::Ident(ir.name),
            Token::LParen,
        ];
        assert(out@ =~= head + params_tokens(ir.params.take(0)));

        let mut k: usize = 0;
        while k < self.params.len()
            invariant
                k <= self.params@.len(),
                ir == self@,
                head == ir.attrs + vis_tokens(ir.vis) + seq![
                    Token::KwFn,
                    Token::Ident(ir.name),
                    Token::LParen,
                ],
                out@ == head + params_tokens(ir.params.take(k as int)),
            decreases self.params@.len() - k,
        {
            if k > 0 {
                out.push(Token::Comma);
            }
            match &self.params[k] {
                Param::Receiver(Receiver::Value) => {
                    out.push(Token::KwSelf);
                },
                Param::Receiver(Receiver::Ref) => {
                    out.push(Token::Amp);
                    out.push(Token::KwSelf);
                },
                Param::Receiver(Receiver::RefMut) => {
                    out.push(Token::Amp);
                    out.push(Token::KwMut);
                    out.push(Token::KwSelf);
                },
                Param::Named { name, ty } => {
                    out.push(Token::Ident(*name));
                    out.push(Token::Colon);
                    push_all(&mut out, ty);
                },
            }
            proof {
                assert(ir.params[k as int] == self.params@[k as int]@);
                lemma_params_tokens_step(ir.params, k as int);
                assert(out@ =~= head + params_tokens(ir.params.take(k as int + 1)));
            }
            k = k + 1;
        }
        assert(ir.params.take(k as int) =~= ir.params);

        // The return clause, defaulting to the unit type.
        out.push(Token::RParen);
        out.push(Token::Arrow);
        match &self.ret_ty {
            Some(ty) => {
                push_all(&mut out, ty);
            },
            None => {
                out.push(Token::LParen);
                out.push(Token::RParen);
            },
        }
        assert(out@ =~= signature_tokens(ir));

        // The body block, applying the bare-identifier shorthand.
        out.push(Token::LBrace);
        let method = self.has_receiver();
        let bare: bool = self.body.len() == 1 && matches!(self.body[0], Token::Ident(_));
        if method && bare {
            out.push(Token::KwSelf);
            out.push(Token::Dot);
            out.push(self.body[0]);
        } else {
            push_all(&mut out, &self.body);
        }
        out.push(Token::RBrace);
        assert(out@ =~= spec_synthesize(ir));
        out
    }
}

} // verus!
