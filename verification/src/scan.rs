use crate::token::Token;
use vstd::prelude::*;

verus! {

/// Index of the `)` that closes a parenthesized run whose contents
/// start at `i`, counting nested parentheses only; `t.len()` when the
/// run is never closed.
pub open spec fn paren_close(t: Seq<Token>, i: int, depth: nat) -> int
    decreases t.len() - i,
{
    if i < 0 || i >= t.len() {
        t.len() as int
    } else if t[i] == Token::RParen {
        if depth == 0 {
            i
        } else {
            paren_close(t, i + 1, (depth - 1) as nat)
        }
    } else if t[i] == Token::LParen {
        paren_close(t, i + 1, depth + 1)
    } else {
        paren_close(t, i + 1, depth)
    }
}

pub proof fn lemma_paren_close_bounds(t: Seq<Token>, i: int, depth: nat)
    requires
        0 <= i <= t.len(),
    ensures
        i <= paren_close(t, i, depth) <= t.len(),
        paren_close(t, i, depth) < t.len() ==> t[paren_close(t, i, depth)] == Token::RParen,
    decreases t.len() - i,
{
    if i < t.len() {
        if t[i] == Token::RParen {
            if depth != 0 {
                lemma_paren_close_bounds(t, i + 1, (depth - 1) as nat);
            }
        } else if t[i] == Token::LParen {
            lemma_paren_close_bounds(t, i + 1, depth + 1);
        } else {
            lemma_paren_close_bounds(t, i + 1, depth);
        }
    }
}

/// End of the parameter segment that starts at `i`: the index of the
/// next `,` standing outside every delimited group and outside angle
/// brackets, or `end` when there is none before it.
pub open spec fn seg_end(t: Seq<Token>, i: int, end: int, d: nat, da: nat) -> int
    decreases end - i,
{
    if i < 0 || i >= end || end > t.len() {
        end
    } else if d == 0 && da == 0 && t[i] == Token::Comma {
        i
    } else {
        let d2 = if t[i].is_opener() {
            d + 1
        } else if t[i].is_closer() && d > 0 {
            (d - 1) as nat
        } else {
            d
        };
        let da2 = if t[i] == Token::Lt {
            da + 1
        } else if t[i] == Token::Gt && da > 0 {
            (da - 1) as nat
        } else {
            da
        };
        seg_end(t, i + 1, end, d2, da2)
    }
}

pub proof fn lemma_seg_end_bounds(t: Seq<Token>, i: int, end: int, d: nat, da: nat)
    requires
        0 <= i <= end,
    ensures
        i <= seg_end(t, i, end, d, da) <= end,
        seg_end(t, i, end, d, da) < end ==> t[seg_end(t, i, end, d, da)] == Token::Comma,
    decreases end - i,
{
    if i < end && end <= t.len() && !(d == 0 && da == 0 && t[i] == Token::Comma) {
        let d2 = if t[i].is_opener() {
            d + 1
        } else if t[i].is_closer() && d > 0 {
            (d - 1) as nat
        } else {
            d
        };
        let da2 = if t[i] == Token::Lt {
            da + 1
        } else if t[i] == Token::Gt && da > 0 {
            (da - 1) as nat
        } else {
            da
        };
        lemma_seg_end_bounds(t, i + 1, end, d2, da2);
    }
}

/// Index of the first `=>` from `i` onward that stands outside every
/// delimited group; `t.len()` when there is none.
pub open spec fn fat_arrow_pos(t: Seq<Token>, i: int, d: nat) -> int
    decreases t.len() - i,
{
    if i < 0 || i >= t.len() {
        t.len() as int
    } else if d == 0 && t[i] == Token::FatArrow {
        i
    } else {
        let d2 = if t[i].is_opener() {
            d + 1
        } else if t[i].is_closer() && d > 0 {
            (d - 1) as nat
        } else {
            d
        };
        fat_arrow_pos(t, i + 1, d2)
    }
}

pub proof fn lemma_fat_arrow_pos_bounds(t: Seq<Token>, i: int, d: nat)
    requires
        0 <= i <= t.len(),
    ensures
        i <= fat_arrow_pos(t, i, d) <= t.len(),
        fat_arrow_pos(t, i, d) < t.len() ==> t[fat_arrow_pos(t, i, d)] == Token::FatArrow,
    decreases t.len() - i,
{
    if i < t.len() && !(d == 0 && t[i] == Token::FatArrow) {
        let d2 = if t[i].is_opener() {
            d + 1
        } else if t[i].is_closer() && d > 0 {
            (d - 1) as nat
        } else {
            d
        };
        lemma_fat_arrow_pos_bounds(t, i + 1, d2);
    }
}

/// Copies `t[a..b]` into a fresh vector.
pub fn copy_range(t: &Vec<Token>, a: usize, b: usize) -> (out: Vec<Token>)
    requires
        a <= b <= t@.len(),
    ensures
        out@ == t@.subrange(a as int, b as int),
{
    let mut out: Vec<Token> = Vec::new();
    let mut k = a;
    while k < b
        invariant
            a <= k <= b <= t@.len(),
            out@ == t@.subrange(a as int, k as int),
        decreases b - k,
    {
        out.push(t[k]);
        k = k + 1;
        assert(out@ =~= t@.subrange(a as int, k as int));
    }
    out
}

/// Finds the `)` closing the run that starts at `start`, per [`paren_close`].
pub fn find_paren_close(t: &Vec<Token>, start: usize) -> (r: usize)
    requires
        start <= t@.len(),
    ensures
        r as int == paren_close(t@, start as int, 0),
        r <= t@.len(),
{
    proof {
        lemma_paren_close_bounds(t@, start as int, 0);
    }
    let mut i = start;
    let mut depth: usize = 0;
    while i < t.len()
        invariant
            start <= i <= t@.len(),
            depth <= i,
            paren_close(t@, i as int, depth as nat) == paren_close(t@, start as int, 0),
            paren_close(t@, start as int, 0) <= t@.len(),
        decreases t@.len() - i,
    {
        let tok = t[i];
        if tok == Token::RParen {
            if depth == 0 {
                return i;
            }
            depth = depth - 1;
        } else if tok == Token::LParen {
            depth = depth + 1;
        }
        i = i + 1;
    }
    t.len()
}

/// Finds the end of the parameter segment starting at `start`, per [`seg_end`].
pub fn find_seg_end(t: &Vec<Token>, start: usize, end: usize) -> (r: usize)
    requires
        start <= end <= t@.len(),
    ensures
        r as int == seg_end(t@, start as int, end as int, 0, 0),
        start <= r <= end,
{
    proof {
        lemma_seg_end_bounds(t@, start as int, end as int, 0, 0);
    }
    let mut i = start;
    let mut d: usize = 0;
    let mut da: usize = 0;
    while i < end
        invariant
            start <= i <= end <= t@.len(),
            d <= i,
            da <= i,
            seg_end(t@, i as int, end as int, d as nat, da as nat) == seg_end(
                t@,
                start as int,
                end as int,
                0,
                0,
            ),
            start <= seg_end(t@, start as int, end as int, 0, 0) <= end,
        decreases end - i,
    {
        let tok = t[i];
        if d == 0 && da == 0 && tok == Token::Comma {
            return i;
        }
        if tok == Token::LParen || tok == Token::LBracket || tok == Token::LBrace {
            d = d + 1;
        } else if (tok == Token::RParen || tok == Token::RBracket || tok == Token::RBrace) && d > 0
         {
            d = d - 1;
        }
        if tok == Token::Lt {
            da = da + 1;
        } else if tok == Token::Gt && da > 0 {
            da = da - 1;
        }
        i = i + 1;
    }
    end
}

/// Finds the first top-level `=>` from `start` onward, per [`fat_arrow_pos`].
pub fn find_fat_arrow(t: &Vec<Token>, start: usize) -> (r: usize)
    requires
        start <= t@.len(),
    ensures
        r as int == fat_arrow_pos(t@, start as int, 0),
        start <= r <= t@.len(),
{
    proof {
        lemma_fat_arrow_pos_bounds(t@, start as int, 0);
    }
    let mut i = start;
    let mut d: usize = 0;
    while i < t.len()
        invariant
            start <= i <= t@.len(),
            d <= i,
            fat_arrow_pos(t@, i as int, d as nat) == fat_arrow_pos(t@, start as int, 0),
            start <= fat_arrow_pos(t@, start as int, 0) <= t@.len(),
        decreases t@.len() - i,
    {
        let tok = t[i];
        if d == 0 && tok == Token::FatArrow {
            return i;
        }
        if tok == Token::LParen || tok == Token::LBracket || tok == Token::LBrace {
            d = d + 1;
        } else if (tok == Token::RParen || tok == Token::RBracket || tok == Token::RBrace) && d > 0
         {
            d = d - 1;
        }
        i = i + 1;
    }
    t.len()
}

} // verus!
