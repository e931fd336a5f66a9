use crate::ir::SingleLineSpec;
use crate::parse::{attrs_end, lemma_attrs_end, parse_name, parse_param_list, parse_params,
    parse_ret, parse_segment, parse_sep_body, parse_vis, skip_fn_marker, spec_parse};
use crate::scan::{fat_arrow_pos, lemma_seg_end_bounds, paren_close, seg_end};
use crate::synth::{body_tokens, is_bare_ident, is_method, signature_tokens, spec_synthesize};
use crate::token::Token;
use vstd::prelude::*;

verus! {

/// Method shorthand: a method whose body is the single bare
/// identifier `f` synthesizes exactly the definition that the same
/// invocation with the written-out body `self . f` would synthesize.
pub proof fn lemma_method_shorthand(ir: SingleLineSpec, f: u64)
    requires
        is_method(ir.params),
        ir.body == seq![Token::Ident(f)],
    ensures
        spec_synthesize(ir) == spec_synthesize(
            SingleLineSpec { body: seq![Token::KwSelf, Token::Dot, Token::Ident(f)], ..ir },
        ),
{
    let explicit = SingleLineSpec { body: seq![Token::KwSelf, Token::Dot, Token::Ident(f)], ..ir };
    assert(body_tokens(ir.params, ir.body) == seq![Token::KwSelf, Token::Dot, Token::Ident(f)]);
    assert(!is_bare_ident(explicit.body));
    assert(spec_synthesize(ir) =~= spec_synthesize(explicit));
}

/// Default return type: an invocation that omits the return clause
/// synthesizes exactly the definition that the same invocation with
/// the explicit unit return type `()` would synthesize.
pub proof fn lemma_default_return_type(ir: SingleLineSpec)
    requires
        ir.ret_ty is None,
    ensures
        spec_synthesize(ir) == spec_synthesize(
            SingleLineSpec { ret_ty: Some(seq![Token::LParen, Token::RParen]), ..ir },
        ),
{
    let explicit = SingleLineSpec { ret_ty: Some(seq![Token::LParen, Token::RParen]), ..ir };
    assert(spec_synthesize(ir) =~= spec_synthesize(explicit));
}

/// Attribute preservation: the attributes of a parsed invocation are
/// exactly the stream's leading attribute tokens, in order, and the
/// synthesized definition begins with those same tokens.
pub proof fn lemma_attributes_preserved(t: Seq<Token>, ir: SingleLineSpec)
    requires
        spec_parse(t) == Ok::<SingleLineSpec, crate::ir::SyntaxError>(ir),
    ensures
        ir.attrs == t.subrange(0, attrs_end(t, 0)),
        forall|k: int| 0 <= k < ir.attrs.len() ==> (ir.attrs[k] is Attr),
        ir.attrs.len() <= spec_synthesize(ir).len(),
        spec_synthesize(ir).subrange(0, ir.attrs.len() as int) == ir.attrs,
{
    lemma_attrs_end(t, 0);
    assert(ir.attrs == t.subrange(0, attrs_end(t, 0)));
    assert(forall|k: int| 0 <= k < ir.attrs.len() ==> (ir.attrs[k] is Attr));
    assert(spec_synthesize(ir).subrange(0, ir.attrs.len() as int) =~= ir.attrs);
}

/// Body preservation: when the bare-identifier shorthand does not
/// apply, a parsed invocation's body is carried into the synthesized
/// definition verbatim — the output is the signature followed by the
/// brace-wrapped body tokens exactly as they stood after the `=>`.
pub proof fn lemma_body_preserved(t: Seq<Token>, ir: SingleLineSpec)
    requires
        spec_parse(t) == Ok::<SingleLineSpec, crate::ir::SyntaxError>(ir),
        !(is_method(ir.params) && is_bare_ident(ir.body)),
    ensures
        spec_synthesize(ir) == signature_tokens(ir) + seq![Token::LBrace] + ir.body + seq![
            Token::RBrace,
        ],
        exists|j: int|
            0 <= j < t.len() && t[j] == Token::FatArrow && ir.body == t.subrange(
                j + 1,
                t.len() as int,
            ),
{
    assert(body_tokens(ir.params, ir.body) == ir.body);
    let a = attrs_end(t, 0);
    let v = parse_vis(t, a);
    let (vis, i1) = v->Ok_0;
    let i2 = skip_fn_marker(t, i1);
    let nm = parse_name(t, i2);
    let (name, i3) = nm->Ok_0;
    let pp = parse_params(t, i3);
    let (params, i4) = pp->Ok_0;
    let pr = parse_ret(t, i4);
    let (ret_ty, i5) = pr->Ok_0;
    let sb = parse_sep_body(t, i5);
    assert(sb is Ok);
    assert(t[i5] == Token::FatArrow);
    assert(ir.body == t.subrange(i5 + 1, t.len() as int));
}

/// Equal suffixes slide: a window of the first stream equals the
/// correspondingly shifted window of the second.
proof fn lemma_suffix_slide(t1: Seq<Token>, i1: int, t2: Seq<Token>, i2: int, a: int, b: int)
    requires
        0 <= i1 <= t1.len(),
        0 <= i2 <= t2.len(),
        t1.subrange(i1, t1.len() as int) == t2.subrange(i2, t2.len() as int),
        i1 <= a <= b <= t1.len(),
    ensures
        t1.subrange(a, b) == t2.subrange(a - i1 + i2, b - i1 + i2),
{
    lemma_window_slide(t1, i1, t1.len() as int, t2, i2, t2.len() as int, a, b);
}

/// The `=>` scan depends only on the tokens it still has ahead: equal
/// suffixes put the separator at the same distance.
proof fn lemma_fat_arrow_pos_shift(t1: Seq<Token>, i1: int, t2: Seq<Token>, i2: int, d: nat)
    requires
        0 <= i1 <= t1.len(),
        0 <= i2 <= t2.len(),
        t1.subrange(i1, t1.len() as int) == t2.subrange(i2, t2.len() as int),
    ensures
        fat_arrow_pos(t1, i1, d) - i1 == fat_arrow_pos(t2, i2, d) - i2,
    decreases t1.len() - i1,
{
    let s1 = t1.subrange(i1, t1.len() as int);
    let s2 = t2.subrange(i2, t2.len() as int);
    assert(s1.len() == s2.len());
    if i1 < t1.len() {
        assert(t1[i1] == s1[0] && t2[i2] == s2[0]);
        if !(d == 0 && t1[i1] == Token::FatArrow) {
            let d2 = if t1[i1].is_opener() {
                d + 1
            } else if t1[i1].is_closer() && d > 0 {
                (d - 1) as nat
            } else {
                d
            };
            lemma_suffix_slide(t1, i1, t2, i2, i1 + 1, t1.len() as int);
            lemma_fat_arrow_pos_shift(t1, i1 + 1, t2, i2 + 1, d2);
        }
    }
}

/// An invocation with no parameters, written as in `origin -> T => e`.
pub open spec fn omitted_parens_form(n: u64, rest: Seq<Token>) -> Seq<Token> {
    seq![Token::Ident(n)] + rest
}

/// The same invocation with the empty parameter list written out, as
/// in `origin() -> T => e`.
pub open spec fn empty_parens_form(n: u64, rest: Seq<Token>) -> Seq<Token> {
    seq![Token::Ident(n), Token::LParen, Token::RParen] + rest
}

/// Parameter-list omission: a declaration that leaves the empty
/// parameter list out entirely parses — and therefore synthesizes —
/// exactly as the one that writes `()`, for every name, return clause
/// and body. (Error positions may differ between the two spellings,
/// so failing streams only agree on failing.)
#[verifier::rlimit(60)]
pub proof fn lemma_param_list_omission(n: u64, rest: Seq<Token>)
    requires
        rest.len() == 0 || rest[0] != Token::LParen,
    ensures
        (spec_parse(omitted_parens_form(n, rest)) is Ok) <==> (spec_parse(
            empty_parens_form(n, rest),
        ) is Ok),
        spec_parse(omitted_parens_form(n, rest)) is Ok ==> spec_parse(omitted_parens_form(n, rest))
            == spec_parse(empty_parens_form(n, rest)),
        spec_parse(omitted_parens_form(n, rest)) is Ok ==> spec_synthesize(
            spec_parse(omitted_parens_form(n, rest))->Ok_0,
        ) == spec_synthesize(spec_parse(empty_parens_form(n, rest))->Ok_0),
{
    let t1 = omitted_parens_form(n, rest);
    let t2 = empty_parens_form(n, rest);
    let len1 = t1.len() as int;
    let len2 = t2.len() as int;

    // Both streams agree through the name: no attributes, private
    // visibility, no marker, then the identifier.
    assert(attrs_end(t1, 0) == 0 && attrs_end(t2, 0) == 0);
    assert(parse_name(t1, 0) == Ok::<(u64, int), crate::ir::SyntaxError>((n, 1)));
    assert(parse_name(t2, 0) == Ok::<(u64, int), crate::ir::SyntaxError>((n, 1)));

    // The omitted list yields no parameters and stays put; the written
    // `()` yields no parameters and steps over both tokens.
    assert(parse_params(t1, 1) == Ok::<(Seq<crate::ir::ParamSpec>, int), crate::ir::SyntaxError>(
        (Seq::empty(), 1),
    ));
    assert(paren_close(t2, 2, 0) == 2);
    assert(parse_params(t2, 1) == Ok::<(Seq<crate::ir::ParamSpec>, int), crate::ir::SyntaxError>(
        (Seq::empty(), 3),
    ));

    // From here on the two streams are the same suffix.
    assert(t1.subrange(1, len1) =~= rest);
    assert(t2.subrange(3, len2) =~= rest);

    // The return clause.
    if 1 < len1 && t1[1] == Token::Arrow {
        assert(t2[3] == Token::Arrow);
        let j1 = fat_arrow_pos(t1, 2, 0);
        let j2 = fat_arrow_pos(t2, 4, 0);
        assert(t1.subrange(2, len1) =~= t2.subrange(4, len2));
        lemma_fat_arrow_pos_shift(t1, 2, t2, 4, 0);
        crate::scan::lemma_fat_arrow_pos_bounds(t1, 2, 0);
        if j1 < len1 && j1 != 2 {
            lemma_suffix_slide(t1, 2, t2, 4, 2, j1);
            assert(t1.subrange(2, j1) == t2.subrange(4, j2));
            assert(parse_ret(t1, 1) == Ok::<(Option<Seq<Token>>, int), crate::ir::SyntaxError>(
                (Some(t1.subrange(2, j1)), j1),
            ));
            assert(parse_ret(t2, 3) == Ok::<(Option<Seq<Token>>, int), crate::ir::SyntaxError>(
                (Some(t2.subrange(4, j2)), j2),
            ));
            lemma_suffix_slide(t1, 2, t2, 4, j1, len1);
            lemma_sep_body_agrees(t1, j1, t2, j2);
        } else {
            assert(parse_ret(t1, 1) is Err && parse_ret(t2, 3) is Err);
        }
    } else {
        assert(!(3 < len2 && t2[3] == Token::Arrow));
        assert(parse_ret(t1, 1) == Ok::<(Option<Seq<Token>>, int), crate::ir::SyntaxError>(
            (None, 1),
        ));
        assert(parse_ret(t2, 3) == Ok::<(Option<Seq<Token>>, int), crate::ir::SyntaxError>(
            (None, 3),
        ));
        lemma_sep_body_agrees(t1, 1, t2, 3);
    }
    if spec_parse(t1) is Ok {
        assert(spec_parse(t1)->Ok_0 =~= spec_parse(t2)->Ok_0);
    }
}

/// Helper for [`lemma_param_list_omission`]: with equal suffixes ahead,
/// the separator-and-body stage agrees on success and on its value.
proof fn lemma_sep_body_agrees(t1: Seq<Token>, i1: int, t2: Seq<Token>, i2: int)
    requires
        0 <= i1 <= t1.len(),
        0 <= i2 <= t2.len(),
        t1.subrange(i1, t1.len() as int) == t2.subrange(i2, t2.len() as int),
    ensures
        (parse_sep_body(t1, i1) is Ok) <==> (parse_sep_body(t2, i2) is Ok),
        parse_sep_body(t1, i1) is Ok ==> parse_sep_body(t1, i1)->Ok_0 == parse_sep_body(
            t2,
            i2,
        )->Ok_0,
{
    let s1 = t1.subrange(i1, t1.len() as int);
    let s2 = t2.subrange(i2, t2.len() as int);
    assert(s1.len() == s2.len());
    if i1 < t1.len() {
        assert(t1[i1] == s1[0] && t2[i2] == s2[0]);
        if t1[i1] == Token::FatArrow && i1 + 1 < t1.len() {
            lemma_suffix_slide(t1, i1, t2, i2, i1 + 1, t1.len() as int);
        }
    }
}

/// Equal windows slide: a sub-window of the first window equals the
/// correspondingly shifted sub-window of the second.
proof fn lemma_window_slide(
    t1: Seq<Token>,
    i1: int,
    e1: int,
    t2: Seq<Token>,
    i2: int,
    e2: int,
    a: int,
    b: int,
)
    requires
        0 <= i1 <= e1 <= t1.len(),
        0 <= i2 <= e2 <= t2.len(),
        t1.subrange(i1, e1) == t2.subrange(i2, e2),
        i1 <= a <= b <= e1,
    ensures
        t1.subrange(a, b) == t2.subrange(a - i1 + i2, b - i1 + i2),
{
    let s1 = t1.subrange(i1, e1);
    let s2 = t2.subrange(i2, e2);
    assert(s1.len() == s2.len());
    let a2 = a - i1 + i2;
    let b2 = b - i1 + i2;
    assert forall|k: int| 0 <= k < b - a implies t1.subrange(a, b)[k] == t2.subrange(a2, b2)[k] by {
        assert(t1[a + k] == s1[a - i1 + k]);
        assert(t2[a2 + k] == s2[a - i1 + k]);
    };
    assert(t1.subrange(a, b) =~= t2.subrange(a2, b2));
}

/// The parameter-list close scan depends only on the tokens ahead.
proof fn lemma_paren_close_shift(t1: Seq<Token>, i1: int, t2: Seq<Token>, i2: int, d: nat)
    requires
        0 <= i1 <= t1.len(),
        0 <= i2 <= t2.len(),
        t1.subrange(i1, t1.len() as int) == t2.subrange(i2, t2.len() as int),
    ensures
        paren_close(t1, i1, d) - i1 == paren_close(t2, i2, d) - i2,
    decreases t1.len() - i1,
{
    let s1 = t1.subrange(i1, t1.len() as int);
    let s2 = t2.subrange(i2, t2.len() as int);
    assert(s1.len() == s2.len());
    if i1 < t1.len() {
        assert(t1[i1] == s1[0] && t2[i2] == s2[0]);
        if !(t1[i1] == Token::RParen && d == 0) {
            let d2 = if t1[i1] == Token::RParen {
                (d - 1) as nat
            } else if t1[i1] == Token::LParen {
                d + 1
            } else {
                d
            };
            lemma_suffix_slide(t1, i1, t2, i2, i1 + 1, t1.len() as int);
            lemma_paren_close_shift(t1, i1 + 1, t2, i2 + 1, d2);
        }
    }
}

/// The segment scan depends only on the window it runs over.
proof fn lemma_seg_end_shift(
    t1: Seq<Token>,
    i1: int,
    end1: int,
    t2: Seq<Token>,
    i2: int,
    end2: int,
    d: nat,
    da: nat,
)
    requires
        0 <= i1 <= end1 <= t1.len(),
        0 <= i2 <= end2 <= t2.len(),
        t1.subrange(i1, end1) == t2.subrange(i2, end2),
    ensures
        seg_end(t1, i1, end1, d, da) - i1 == seg_end(t2, i2, end2, d, da) - i2,
    decreases end1 - i1,
{
    let s1 = t1.subrange(i1, end1);
    let s2 = t2.subrange(i2, end2);
    assert(s1.len() == s2.len());
    if i1 < end1 {
        assert(t1[i1] == s1[0] && t2[i2] == s2[0]);
        if !(d == 0 && da == 0 && t1[i1] == Token::Comma) {
            let d2 = if t1[i1].is_opener() {
                d + 1
            } else if t1[i1].is_closer() && d > 0 {
                (d - 1) as nat
            } else {
                d
            };
            let da2 = if t1[i1] == Token::Lt {
                da + 1
            } else if t1[i1] == Token::Gt && da > 0 {
                (da - 1) as nat
            } else {
                da
            };
            lemma_window_slide(t1, i1, end1, t2, i2, end2, i1 + 1, end1);
            lemma_seg_end_shift(t1, i1 + 1, end1, t2, i2 + 1, end2, d2, da2);
        }
    }
}

/// One parameter segment parses the same in equal windows; only an
/// error's position can differ.
proof fn lemma_parse_segment_agrees(
    t1: Seq<Token>,
    i1: int,
    stop1: int,
    t2: Seq<Token>,
    i2: int,
    stop2: int,
)
    requires
        0 <= i1 <= stop1 <= t1.len(),
        0 <= i2 <= stop2 <= t2.len(),
        t1.subrange(i1, stop1) == t2.subrange(i2, stop2),
    ensures
        (parse_segment(t1, i1, stop1) is Ok) <==> (parse_segment(t2, i2, stop2) is Ok),
        parse_segment(t1, i1, stop1) is Ok ==> parse_segment(t1, i1, stop1) == parse_segment(
            t2,
            i2,
            stop2,
        ),
{
    let s1 = t1.subrange(i1, stop1);
    let s2 = t2.subrange(i2, stop2);
    assert(s1.len() == s2.len());
    if i1 < stop1 {
        assert(t1[i1] == s1[0] && t2[i2] == s2[0]);
        if i1 + 1 < stop1 {
            assert(t1[i1 + 1] == s1[1] && t2[i2 + 1] == s2[1]);
        }
        if i1 + 2 < stop1 {
            assert(t1[i1 + 2] == s1[2] && t2[i2 + 2] == s2[2]);
        }
        if (t1[i1] is Ident) && i1 + 1 < stop1 && t1[i1 + 1] == Token::Colon && i1 + 2 < stop1 {
            lemma_window_slide(t1, i1, stop1, t2, i2, stop2, i1 + 2, stop1);
        }
    }
}

/// A whole parameter list parses the same in equal windows.
proof fn lemma_parse_param_list_agrees(
    t1: Seq<Token>,
    i1: int,
    end1: int,
    t2: Seq<Token>,
    i2: int,
    end2: int,
)
    requires
        0 <= i1 <= end1 <= t1.len(),
        0 <= i2 <= end2 <= t2.len(),
        t1.subrange(i1, end1) == t2.subrange(i2, end2),
    ensures
        (parse_param_list(t1, i1, end1) is Ok) <==> (parse_param_list(t2, i2, end2) is Ok),
        parse_param_list(t1, i1, end1) is Ok ==> parse_param_list(t1, i1, end1)
            == parse_param_list(t2, i2, end2),
    decreases end1 - i1,
{
    assert(end1 - i1 == end2 - i2) by {
        assert(t1.subrange(i1, end1).len() == end1 - i1);
        assert(t2.subrange(i2, end2).len() == end2 - i2);
        assert(t1.subrange(i1, end1).len() == t2.subrange(i2, end2).len());
    }
    if i1 < end1 {
        assert(i2 < end2);
        lemma_seg_end_shift(t1, i1, end1, t2, i2, end2, 0, 0);
        lemma_seg_end_bounds(t1, i1, end1, 0, 0);
        lemma_seg_end_bounds(t2, i2, end2, 0, 0);
        let stop1 = seg_end(t1, i1, end1, 0, 0);
        let stop2 = seg_end(t2, i2, end2, 0, 0);
        lemma_window_slide(t1, i1, end1, t2, i2, end2, i1, stop1);
        lemma_parse_segment_agrees(t1, i1, stop1, t2, i2, stop2);
        if parse_segment(t1, i1, stop1) is Ok && stop1 < end1 {
            lemma_window_slide(t1, i1, end1, t2, i2, end2, stop1 + 1, end1);
            lemma_parse_param_list_agrees(t1, stop1 + 1, end1, t2, stop2 + 1, end2);
        }
    }
}

/// The parameter-list stage parses the same given equal suffixes, and
/// steps both streams forward by the same distance.
proof fn lemma_parse_params_agrees(t1: Seq<Token>, i1: int, t2: Seq<Token>, i2: int)
    requires
        0 <= i1 <= t1.len(),
        0 <= i2 <= t2.len(),
        t1.subrange(i1, t1.len() as int) == t2.subrange(i2, t2.len() as int),
    ensures
        (parse_params(t1, i1) is Ok) <==> (parse_params(t2, i2) is Ok),
        parse_params(t1, i1) is Ok ==> {
            &&& parse_params(t1, i1)->Ok_0.0 == parse_params(t2, i2)->Ok_0.0
            &&& parse_params(t1, i1)->Ok_0.1 - i1 == parse_params(t2, i2)->Ok_0.1 - i2
            &&& i1 <= parse_params(t1, i1)->Ok_0.1 <= t1.len()
        },
{
    let s1 = t1.subrange(i1, t1.len() as int);
    let s2 = t2.subrange(i2, t2.len() as int);
    assert(s1.len() == s2.len());
    if i1 < t1.len() {
        assert(t1[i1] == s1[0] && t2[i2] == s2[0]);
    }
    if i1 < t1.len() && t1[i1] == Token::LParen {
        lemma_suffix_slide(t1, i1, t2, i2, i1 + 1, t1.len() as int);
        lemma_paren_close_shift(t1, i1 + 1, t2, i2 + 1, 0);
        crate::scan::lemma_paren_close_bounds(t1, i1 + 1, 0);
        crate::scan::lemma_paren_close_bounds(t2, i2 + 1, 0);
        let c1 = paren_close(t1, i1 + 1, 0);
        let c2 = paren_close(t2, i2 + 1, 0);
        if c1 < t1.len() {
            lemma_suffix_slide(t1, i1, t2, i2, i1 + 1, c1);
            lemma_parse_param_list_agrees(t1, i1 + 1, c1, t2, i2 + 1, c2);
        }
    }
}

/// The return-clause stage parses the same given equal suffixes.
proof fn lemma_parse_ret_agrees(t1: Seq<Token>, i1: int, t2: Seq<Token>, i2: int)
    requires
        0 <= i1 <= t1.len(),
        0 <= i2 <= t2.len(),
        t1.subrange(i1, t1.len() as int) == t2.subrange(i2, t2.len() as int),
    ensures
        (parse_ret(t1, i1) is Ok) <==> (parse_ret(t2, i2) is Ok),
        parse_ret(t1, i1) is Ok ==> {
            &&& parse_ret(t1, i1)->Ok_0.0 == parse_ret(t2, i2)->Ok_0.0
            &&& parse_ret(t1, i1)->Ok_0.1 - i1 == parse_ret(t2, i2)->Ok_0.1 - i2
            &&& i1 <= parse_ret(t1, i1)->Ok_0.1 <= t1.len()
        },
{
    let s1 = t1.subrange(i1, t1.len() as int);
    let s2 = t2.subrange(i2, t2.len() as int);
    assert(s1.len() == s2.len());
    if i1 < t1.len() {
        assert(t1[i1] == s1[0] && t2[i2] == s2[0]);
    }
    if i1 < t1.len() && t1[i1] == Token::Arrow {
        lemma_suffix_slide(t1, i1, t2, i2, i1 + 1, t1.len() as int);
        lemma_fat_arrow_pos_shift(t1, i1 + 1, t2, i2 + 1, 0);
        crate::scan::lemma_fat_arrow_pos_bounds(t1, i1 + 1, 0);
        crate::scan::lemma_fat_arrow_pos_bounds(t2, i2 + 1, 0);
        let j1 = fat_arrow_pos(t1, i1 + 1, 0);
        let j2 = fat_arrow_pos(t2, i2 + 1, 0);
        if j1 < t1.len() && j1 != i1 + 1 {
            lemma_suffix_slide(t1, i1, t2, i2, i1 + 1, j1);
        }
    }
}

/// An invocation written without the optional `fn` marker.
pub open spec fn unmarked_form(n: u64, rest: Seq<Token>) -> Seq<Token> {
    seq![Token::Ident(n)] + rest
}

/// The same invocation with the marker written out.
pub open spec fn marked_form(n: u64, rest: Seq<Token>) -> Seq<Token> {
    seq![Token::KwFn, Token::Ident(n)] + rest
}

/// The `fn` marker has no effect: for every name and every remainder,
/// the invocation with the marker parses — and therefore synthesizes —
/// exactly as the one without it. (Error positions may differ between
/// the two spellings, so failing streams only agree on failing.)
#[verifier::rlimit(60)]
pub proof fn lemma_fn_marker_no_effect(n: u64, rest: Seq<Token>)
    ensures
        (spec_parse(unmarked_form(n, rest)) is Ok) <==> (spec_parse(marked_form(n, rest)) is Ok),
        spec_parse(unmarked_form(n, rest)) is Ok ==> spec_parse(unmarked_form(n, rest))
            == spec_parse(marked_form(n, rest)),
        spec_parse(unmarked_form(n, rest)) is Ok ==> spec_synthesize(
            spec_parse(unmarked_form(n, rest))->Ok_0,
        ) == spec_synthesize(spec_parse(marked_form(n, rest))->Ok_0),
{
    let t1 = unmarked_form(n, rest);
    let t2 = marked_form(n, rest);
    let len1 = t1.len() as int;
    let len2 = t2.len() as int;

    // Both streams agree through the name: no attributes, private
    // visibility, the marker skipped where present, the identifier.
    assert(attrs_end(t1, 0) == 0 && attrs_end(t2, 0) == 0);
    assert(skip_fn_marker(t1, 0) == 0 && skip_fn_marker(t2, 0) == 1);
    assert(parse_name(t1, 0) == Ok::<(u64, int), crate::ir::SyntaxError>((n, 1)));
    assert(parse_name(t2, 1) == Ok::<(u64, int), crate::ir::SyntaxError>((n, 2)));

    // From here on the two streams are the same suffix.
    assert(t1.subrange(1, len1) =~= rest);
    assert(t2.subrange(2, len2) =~= rest);
    lemma_parse_params_agrees(t1, 1, t2, 2);

    if parse_params(t1, 1) is Ok {
        let i4_1 = parse_params(t1, 1)->Ok_0.1;
        let i4_2 = parse_params(t2, 2)->Ok_0.1;
        lemma_suffix_slide(t1, 1, t2, 2, i4_1, len1);
        lemma_parse_ret_agrees(t1, i4_1, t2, i4_2);
        if parse_ret(t1, i4_1) is Ok {
            let i5_1 = parse_ret(t1, i4_1)->Ok_0.1;
            let i5_2 = parse_ret(t2, i4_2)->Ok_0.1;
            lemma_suffix_slide(t1, 1, t2, 2, i5_1, len1);
            lemma_sep_body_agrees(t1, i5_1, t2, i5_2);
            if spec_parse(t1) is Ok {
                assert(spec_parse(t1)->Ok_0 =~= spec_parse(t2)->Ok_0);
            }
        }
    }
}

/// Round-trip core: with an explicit return type and the shorthand
/// not applying, the synthesized definition carries the invocation's
/// pieces over verbatim: the output is the signature followed by the
/// brace-wrapped body, and the return type and body stand in the
/// output exactly as they stood in the input stream. Invoking such a
/// definition therefore evaluates the author's body expression under
/// the author's own parameter bindings.
pub proof fn lemma_round_trip(t: Seq<Token>, ir: SingleLineSpec)
    requires
        spec_parse(t) == Ok::<SingleLineSpec, crate::ir::SyntaxError>(ir),
        ir.ret_ty is Some,
        !(is_method(ir.params) && is_bare_ident(ir.body)),
    ensures
        spec_synthesize(ir) == signature_tokens(ir) + seq![Token::LBrace] + ir.body + seq![
            Token::RBrace,
        ],
        signature_tokens(ir) == ir.attrs + crate::synth::vis_tokens(ir.vis) + seq![
            Token::KwFn,
            Token::Ident(ir.name),
            Token::LParen,
        ] + crate::synth::params_tokens(ir.params) + seq![Token::RParen, Token::Arrow]
            + ir.ret_ty->0,
        exists|j1: int, j2: int|
            0 <= j1 < j2 < t.len() && t[j1] == Token::Arrow && t[j2] == Token::FatArrow
                && ir.ret_ty->0 == t.subrange(j1 + 1, j2) && ir.body == t.subrange(
                j2 + 1,
                t.len() as int,
            ),
{
    assert(body_tokens(ir.params, ir.body) == ir.body);
    let a = attrs_end(t, 0);
    let (vis, i1) = parse_vis(t, a)->Ok_0;
    let i2 = skip_fn_marker(t, i1);
    let (name, i3) = parse_name(t, i2)->Ok_0;
    let (params, i4) = parse_params(t, i3)->Ok_0;
    let (ret_ty, i5) = parse_ret(t, i4)->Ok_0;
    assert(t[i4] == Token::Arrow);
    crate::scan::lemma_fat_arrow_pos_bounds(t, i4 + 1, 0);
    assert(parse_sep_body(t, i5) is Ok);
    assert(t[i5] == Token::FatArrow);
    assert(ir.ret_ty->0 == t.subrange(i4 + 1, i5));
    assert(ir.body == t.subrange(i5 + 1, t.len() as int));
    assert(0 <= i4 < i5 < t.len());
}

} // verus!
