use crate::ir::{Expected, Param, ParamSpec, Receiver, SingleLine, SingleLineSpec, SyntaxError,
    Vis, VisSpec};
use crate::scan::{copy_range, fat_arrow_pos, find_fat_arrow, find_paren_close, find_seg_end,
    lemma_fat_arrow_pos_bounds, lemma_paren_close_bounds, lemma_seg_end_bounds, paren_close,
    seg_end};
use crate::token::Token;
use vstd::prelude::*;

verus! {

/// Index just past the leading run of attribute tokens from `i` onward.
pub open spec fn attrs_end(t: Seq<Token>, i: int) -> int
    decreases t.len() - i,
{
    if 0 <= i < t.len() && (t[i] is Attr) {
        attrs_end(t, i + 1)
    } else {
        i
    }
}

pub proof fn lemma_attrs_end(t: Seq<Token>, i: int)
    requires
        0 <= i <= t.len(),
    ensures
        i <= attrs_end(t, i) <= t.len(),
        forall|k: int| i <= k < attrs_end(t, i) ==> (t[k] is Attr),
        attrs_end(t, i) < t.len() ==> !(t[attrs_end(t, i)] is Attr),
    decreases t.len() - i,
{
    if i < t.len() && (t[i] is Attr) {
        lemma_attrs_end(t, i + 1);
    }
}

/// Whether `pub` at `i` opens a restricted visibility: `pub(` followed
/// by `crate`, `self`, `super` or `in`.
pub open spec fn restriction_opener(t: Seq<Token>, i: int) -> bool {
    &&& i + 2 < t.len()
    &&& t[i + 1] == Token::LParen
    &&& (t[i + 2] == Token::KwCrate || t[i + 2] == Token::KwSelf || t[i + 2] == Token::KwSuper
        || t[i + 2] == Token::KwIn)
}

/// The visibility qualifier beginning at `i` and the index just past it.
pub open spec fn parse_vis(t: Seq<Token>, i: int) -> Result<(VisSpec, int), SyntaxError> {
    if 0 <= i < t.len() && t[i] == Token::KwPub {
        if restriction_opener(t, i) {
            let c = paren_close(t, i + 2, 0);
            if c >= t.len() {
                Err(SyntaxError { pos: t.len() as usize, expected: Expected::CloseParen })
            } else {
                Ok((VisSpec::Restricted(t.subrange(i + 2, c)), c + 1))
            }
        } else {
            Ok((VisSpec::Public, i + 1))
        }
    } else {
        Ok((VisSpec::Private, i))
    }
}

/// Index just past the optional `fn` marker at `i`.
pub open spec fn skip_fn_marker(t: Seq<Token>, i: int) -> int {
    if 0 <= i < t.len() && t[i] == Token::KwFn {
        i + 1
    } else {
        i
    }
}

/// The mandatory name at `i` and the index just past it.
pub open spec fn parse_name(t: Seq<Token>, i: int) -> Result<(u64, int), SyntaxError> {
    if 0 <= i < t.len() && (t[i] is Ident) {
        Ok((t[i]->Ident_0, i + 1))
    } else {
        Err(SyntaxError { pos: i as usize, expected: Expected::Name })
    }
}

/// One parameter, standing alone in `t[i..stop]`: a receiver form or
/// `name : Type` with a non-empty type.
pub open spec fn parse_segment(t: Seq<Token>, i: int, stop: int) -> Result<ParamSpec, SyntaxError> {
    if i >= stop {
        Err(SyntaxError { pos: i as usize, expected: Expected::Parameter })
    } else if t[i] == Token::KwSelf {
        if stop == i + 1 {
            Ok(ParamSpec::Receiver(Receiver::Value))
        } else {
            Err(SyntaxError { pos: (i + 1) as usize, expected: Expected::Comma })
        }
    } else if t[i] == Token::Amp {
        if stop == i + 2 && t[i + 1] == Token::KwSelf {
            Ok(ParamSpec::Receiver(Receiver::Ref))
        } else if stop == i + 3 && t[i + 1] == Token::KwMut && t[i + 2] == Token::KwSelf {
            Ok(ParamSpec::Receiver(Receiver::RefMut))
        } else {
            Err(SyntaxError { pos: (i + 1) as usize, expected: Expected::Parameter })
        }
    } else if t[i] is Ident {
        if i + 1 < stop && t[i + 1] == Token::Colon {
            if i + 2 < stop {
                Ok(ParamSpec::Named { name: t[i]->Ident_0, ty: t.subrange(i + 2, stop) })
            } else {
                Err(SyntaxError { pos: (i + 2) as usize, expected: Expected::ParamType })
            }
        } else {
            Err(SyntaxError { pos: (i + 1) as usize, expected: Expected::Colon })
        }
    } else {
        Err(SyntaxError { pos: i as usize, expected: Expected::Parameter })
    }
}

/// The comma-separated parameters filling `t[i..end]`; a trailing
/// comma is allowed, an empty run yields no parameters.
pub open spec fn parse_param_list(t: Seq<Token>, i: int, end: int) -> Result<
    Seq<ParamSpec>,
    SyntaxError,
>
    decreases end - i,
    via parse_param_list_decreases
{
    if i < 0 || i >= end {
        Ok(Seq::empty())
    } else {
        let stop = seg_end(t, i, end, 0, 0);
        match parse_segment(t, i, stop) {
            Ok(p) => {
                if stop >= end {
                    Ok(seq![p])
                } else {
                    match parse_param_list(t, stop + 1, end) {
                        Ok(rest) => Ok(seq![p] + rest),
                        Err(e) => Err(e),
                    }
                }
            },
            Err(e) => Err(e),
        }
    }
}

#[via_fn]
proof fn parse_param_list_decreases(t: Seq<Token>, i: int, end: int) {
    if 0 <= i < end {
        lemma_seg_end_bounds(t, i, end, 0, 0);
    }
}

/// The parameter list beginning at `i` (absent parentheses mean no
/// parameters) and the index just past it.
pub open spec fn parse_params(t: Seq<Token>, i: int) -> Result<
    (Seq<ParamSpec>, int),
    SyntaxError,
> {
    if 0 <= i < t.len() && t[i] == Token::LParen {
        let c = paren_close(t, i + 1, 0);
        if c >= t.len() {
            Err(SyntaxError { pos: t.len() as usize, expected: Expected::CloseParen })
        } else {
            match parse_param_list(t, i + 1, c) {
                Ok(ps) => Ok((ps, c + 1)),
                Err(e) => Err(e),
            }
        }
    } else {
        Ok((Seq::empty(), i))
    }
}

/// The optional return clause beginning at `i` (`->` then the tokens
/// up to the top-level `=>`) and the index of the separator or, with
/// the clause absent, `i` itself.
pub open spec fn parse_ret(t: Seq<Token>, i: int) -> Result<
    (Option<Seq<Token>>, int),
    SyntaxError,
> {
    if 0 <= i < t.len() && t[i] == Token::Arrow {
        let j = fat_arrow_pos(t, i + 1, 0);
        if j >= t.len() {
            if i + 1 >= t.len() {
                Err(SyntaxError { pos: t.len() as usize, expected: Expected::ReturnType })
            } else {
                Err(SyntaxError { pos: t.len() as usize, expected: Expected::Separator })
            }
        } else if j == i + 1 {
            Err(SyntaxError { pos: (i + 1) as usize, expected: Expected::ReturnType })
        } else {
            Ok((Some(t.subrange(i + 1, j)), j))
        }
    } else {
        Ok((None, i))
    }
}

/// The mandatory `=>` at `i` and the non-empty body run behind it.
pub open spec fn parse_sep_body(t: Seq<Token>, i: int) -> Result<Seq<Token>, SyntaxError> {
    if 0 <= i < t.len() && t[i] == Token::FatArrow {
        if i + 1 < t.len() {
            Ok(t.subrange(i + 1, t.len() as int))
        } else {
            Err(SyntaxError { pos: t.len() as usize, expected: Expected::Body })
        }
    } else {
        Err(SyntaxError { pos: i as usize, expected: Expected::Separator })
    }
}

/// The whole grammar: attributes, visibility, optional `fn` marker,
/// name, optional parameter list, optional return clause, `=>`, body.
pub open spec fn spec_parse(t: Seq<Token>) -> Result<SingleLineSpec, SyntaxError> {
    let a = attrs_end(t, 0);
    match parse_vis(t, a) {
        Err(e) => Err(e),
        Ok((vis, i1)) => {
            let i2 = skip_fn_marker(t, i1);
            match parse_name(t, i2) {
                Err(e) => Err(e),
                Ok((name, i3)) => match parse_params(t, i3) {
                    Err(e) => Err(e),
                    Ok((params, i4)) => match parse_ret(t, i4) {
                        Err(e) => Err(e),
                        Ok((ret_ty, i5)) => match parse_sep_body(t, i5) {
                            Err(e) => Err(e),
                            Ok(body) => Ok(
                                SingleLineSpec {
                                    attrs: t.subrange(0, a),
                                    vis,
                                    name,
                                    params,
                                    ret_ty,
                                    body,
                                },
                            ),
                        },
                    },
                },
            }
        },
    }
}

/// Parses one parameter standing alone in `t[i..stop]`.
fn parse_segment_exec(t: &Vec<Token>, i: usize, stop: usize) -> (r: Result<Param, SyntaxError>)
    requires
        i <= stop <= t@.len(),
    ensures
        match r {
            Ok(p) => parse_segment(t@, i as int, stop as int) == Ok::<ParamSpec, SyntaxError>(p@),
            Err(e) => parse_segment(t@, i as int, stop as int) == Err::<ParamSpec, SyntaxError>(e),
        },
{
    if i >= stop {
        return Err(SyntaxError { pos: i, expected: Expected::Parameter });
    }
    let tok = t[i];
    let seg = stop - i;
    if tok == Token::KwSelf {
        if seg == 1 {
            Ok(Param::Receiver(Receiver::Value))
        } else {
            Err(SyntaxError { pos: i + 1, expected: Expected::Comma })
        }
    } else if tok == Token::Amp {
        if seg == 2 && t[i + 1] == Token::KwSelf {
            Ok(Param::Receiver(Receiver::Ref))
        } else if seg == 3 && t[i + 1] == Token::KwMut && t[i + 2] == Token::KwSelf {
            Ok(Param::Receiver(Receiver::RefMut))
        } else {
            Err(SyntaxError { pos: i + 1, expected: Expected::Parameter })
        }
    } else {
        match tok {
            Token::Ident(n) => {
                if i + 1 < stop && t[i + 1] == Token::Colon {
                    if i + 2 < stop {
                        Ok(Param::Named { name: n, ty: copy_range(t, i + 2, stop) })
                    } else {
                        Err(SyntaxError { pos: i + 2, expected: Expected::ParamType })
                    }
                } else {
                    Err(SyntaxError { pos: i + 1, expected: Expected::Colon })
                }
            },
            _ => Err(SyntaxError { pos: i, expected: Expected::Parameter }),
        }
    }
}

/// Parses the comma-separated parameters filling `t[start..end]`.
fn parse_param_list_exec(t: &Vec<Token>, start: usize, end: usize) -> (r: Result<
    Vec<Param>,
    SyntaxError,
>)
    requires
        start <= end <= t@.len(),
    ensures
        match r {
            Ok(ps) => parse_param_list(t@, start as int, end as int) == Ok::<
                Seq<ParamSpec>,
                SyntaxError,
            >(ps@.map_values(|p: Param| p@)),
            Err(e) => parse_param_list(t@, start as int, end as int) == Err::<
                Seq<ParamSpec>,
                SyntaxError,
            >(e),
        },
{
    let mut acc: Vec<Param> = Vec::new();
    let mut i = start;
    assert(acc@.map_values(|p: Param| p@) =~= Seq::<ParamSpec>::empty());
    while i < end
        invariant
            start <= i <= end <= t@.len(),
            parse_param_list(t@, start as int, end as int) == (match parse_param_list(
                t@,
                i as int,
                end as int,
            ) {
                Ok(rest) => Ok::<Seq<ParamSpec>, SyntaxError>(
                    acc@.map_values(|p: Param| p@) + rest,
                ),
                Err(e) => Err::<Seq<ParamSpec>, SyntaxError>(e),
            }),
        decreases end - i,
    {
        let stop = find_seg_end(t, i, end);
        match parse_segment_exec(t, i, stop) {
            Err(e) => {
                return Err(e);
            },
            Ok(p) => {
                let ghost acc_old = acc@.map_values(|p: Param| p@);
                let ghost pv = p@;
                acc.push(p);
                assert(acc@.map_values(|p: Param| p@) =~= acc_old + seq![pv]);
                if stop >= end {
                    assert(parse_param_list(t@, i as int, end as int) == Ok::<
                        Seq<ParamSpec>,
                        SyntaxError,
                    >(seq![pv]));
                    assert(acc_old + seq![pv] =~= acc_old + (seq![pv] + Seq::<
                        ParamSpec,
                    >::empty()));
                    return Ok(acc);
                }
                proof {
                    lemma_seg_end_bounds(t@, i as int, end as int, 0, 0);
                }
                i = stop + 1;
                assert(forall|rest: Seq<ParamSpec>|
                    acc_old + (seq![pv] + rest) =~= (acc_old + seq![pv]) + rest);
            },
        }
    }
    assert(parse_param_list(t@, i as int, end as int) == Ok::<Seq<ParamSpec>, SyntaxError>(
        Seq::empty(),
    ));
    assert(acc@.map_values(|p: Param| p@) + Seq::<ParamSpec>::empty() =~= acc@.map_values(
        |p: Param| p@,
    ));
    Ok(acc)
}

impl SingleLine {
    /// Parses one invocation's token stream into its structured form,
    /// or reports the first offending token.
    pub fn parse(tokens: &Vec<Token>) -> (r: Result<SingleLine, SyntaxError>)
        ensures
            match r {
                Ok(s) => spec_parse(tokens@) == Ok::<SingleLineSpec, SyntaxError>(s@),
                Err(e) => spec_parse(tokens@) == Err::<SingleLineSpec, SyntaxError>(e),
            },
    {
        let n = tokens.len();
        // Leading attributes and documentation comments.
        let mut a: usize = 0;
        while a < n && matches!(tokens[a], Token::Attr(_))
            invariant
                0 <= a <= n == tokens@.len(),
                attrs_end(tokens@, a as int) == attrs_end(tokens@, 0),
            decreases n - a,
        {
            a = a + 1;
        }
        assert(attrs_end(tokens@, 0) == a as int);
        let attrs = copy_range(tokens, 0, a);

        // Visibility.
        let vis: Vis;
        let i1: usize;
        if a < n && tokens[a] == Token::KwPub {
            if n - a > 2 && tokens[a + 1] == Token::LParen && (tokens[a + 2] == Token::KwCrate
                || tokens[a + 2] == Token::KwSelf || tokens[a + 2] == Token::KwSuper || tokens[a
                + 2] == Token::KwIn) {
                let c = find_paren_close(tokens, a + 2);
                proof {
                    lemma_paren_close_bounds(tokens@, a + 2, 0);
                }
                if c >= n {
                    return Err(SyntaxError { pos: n, expected: Expected::CloseParen });
                }
                vis = Vis::Restricted(copy_range(tokens, a + 2, c));
                i1 = c + 1;
            } else {
                vis = Vis::Public;
                i1 = a + 1;
            }
        } else {
            vis = Vis::Private;
            i1 = a;
        }
        assert(parse_vis(tokens@, a as int) == Ok::<(VisSpec, int), SyntaxError>(
            (vis@, i1 as int),
        ));

        // Optional `fn` marker, then the mandatory name.
        let i2: usize = if i1 < n && tokens[i1] == Token::KwFn {
            i1 + 1
        } else {
            i1
        };
        assert(skip_fn_marker(tokens@, i1 as int) == i2 as int);
        if !(i2 < n && matches!(tokens[i2], Token::Ident(_))) {
            return Err(SyntaxError { pos: i2, expected: Expected::Name });
        }
        let name: u64 = match tokens[i2] {
            Token::Ident(s) => s,
            _ => {
                return Err(SyntaxError { pos: i2, expected: Expected::Name });
            },
        };
        let i3 = i2 + 1;
        assert(parse_name(tokens@, i2 as int) == Ok::<(u64, int), SyntaxError>((name, i3 as int)));

        // Optional parameter list.
        let params: Vec<Param>;
        let i4: usize;
        if i3 < n && tokens[i3] == Token::LParen {
            let c = find_paren_close(tokens, i3 + 1);
            proof {
                lemma_paren_close_bounds(tokens@, i3 + 1, 0);
            }
            if c >= n {
                return Err(SyntaxError { pos: n, expected: Expected::CloseParen });
            }
            match parse_param_list_exec(tokens, i3 + 1, c) {
                Ok(ps) => {
                    params = ps;
                    i4 = c + 1;
                },
                Err(e) => {
                    return Err(e);
                },
            }
        } else {
            params = Vec::new();
            assert(params@.map_values(|p: Param| p@) =~= Seq::<ParamSpec>::empty());
            i4 = i3;
        }
        assert(parse_params(tokens@, i3 as int) == Ok::<(Seq<ParamSpec>, int), SyntaxError>(
            (params@.map_values(|p: Param| p@), i4 as int),
        ));

        // Optional return clause.
        let ret_ty: Option<Vec<Token>>;
        let i5: usize;
        if i4 < n && tokens[i4] == Token::Arrow {
            let j = find_fat_arrow(tokens, i4 + 1);
            if j >= n {
                if i4 + 1 >= n {
                    return Err(SyntaxError { pos: n, expected: Expected::ReturnType });
                }
                return Err(SyntaxError { pos: n, expected: Expected::Separator });
            }
            if j == i4 + 1 {
                return Err(SyntaxError { pos: i4 + 1, expected: Expected::ReturnType });
            }
            ret_ty = Some(copy_range(tokens, i4 + 1, j));
            i5 = j;
        } else {
            ret_ty = None;
            i5 = i4;
        }

        // Separator and body.
        if !(i5 < n && tokens[i5] == Token::FatArrow) {
            return Err(SyntaxError { pos: i5, expected: Expected::Separator });
        }
        if i5 + 1 >= n {
            return Err(SyntaxError { pos: n, expected: Expected::Body });
        }
        let body = copy_range(tokens, i5 + 1, n);

        let parsed = SingleLine { attrs, vis, name, params, ret_ty, body };
        proof {
            let ir = spec_parse(tokens@)->Ok_0;
            assert(parsed@ =~= ir);
        }
        Ok(parsed)
    }
}

} // verus!
