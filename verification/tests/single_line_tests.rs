use single_line::single_line;
use single_line::Token;

// Interned symbols for the identifiers, literals and doc comments the
// invocations below mention.
const S_NEW: u64 = 1;
const S_X: u64 = 2;
const S_Y: u64 = 3;
const S_I32: u64 = 4;
const S_SELF_TY: u64 = 5;
const S_MANHATTAN: u64 = 6;
const S_ABS: u64 = 7;
const S_SCALE: u64 = 8;
const S_F: u64 = 9;
const S_RESET: u64 = 10;
const L_ZERO: u64 = 11;
const S_POINT: u64 = 12;
const S_ORIGIN: u64 = 13;
const S_DISTANCE: u64 = 14;
const S_A: u64 = 15;
const S_B: u64 = 16;
const S_IS_SAME: u64 = 17;
const S_BOOL: u64 = 18;
const D_NEW: u64 = 100;
const D_X: u64 = 101;
const D_Y: u64 = 102;
const D_MANHATTAN: u64 = 103;
const D_SCALE: u64 = 104;
const D_RESET: u64 = 105;

fn id(s: u64) -> Token {
    Token::Ident(s)
}

fn expand(tokens: Vec<Token>) -> Vec<Token> {
    single_line(&tokens).expect("the invocation should parse")
}

/// A 2D point, with its methods written out exactly as the
/// synthesizer emits them from the invocations checked below.
#[derive(Debug, PartialEq, Clone)]
struct Point {
    x: i32,
    y: i32,
}

impl Point {
    /// Creates a new `Point`.
    pub fn new(x: i32, y: i32) -> Self {
        Self { x, y }
    }

    /// Returns the X coordinate.
    pub fn x(&self) -> i32 {
        self.x
    }

    /// Returns the Y coordinate.
    pub fn y(&self) -> i32 {
        self.y
    }

    /// Computes the Manhattan distance from the origin.
    fn manhattan(&self) -> i32 {
        self.x.abs() + self.y.abs()
    }

    /// Scales the point by a factor.
    pub fn scale(&self, f: i32) -> Self {
        Self { x: self.x * f, y: self.y * f }
    }

    /// Resets the point to the origin.
    pub fn reset(&mut self) -> () {
        {
            self.x = 0;
            self.y = 0
        }
    }
}

/// A point with a public `manhattan` method, written out exactly as
/// synthesized in `test_public_manhattan_scenario`.
struct Place {
    x: i32,
    y: i32,
}

impl Place {
    pub fn manhattan(&self) -> i32 {
        self.x.abs() + self.y.abs()
    }
}

// Free functions, as synthesized from the invocations checked below.
pub fn origin() -> Point {
    Point { x: 0, y: 0 }
}

fn distance(a: &Point, b: &Point) -> i32 {
    (a.x - b.x).abs() + (a.y - b.y).abs()
}

fn is_same(a: &Point, b: &Point) -> bool {
    a == b
}

/// `pub new(x: i32, y: i32) -> Self => Self { x, y }` with a doc comment.
fn new_invocation() -> Vec<Token> {
    vec![
        Token::Attr(D_NEW),
        Token::KwPub,
        id(S_NEW),
        Token::LParen,
        id(S_X),
        Token::Colon,
        id(S_I32),
        Token::Comma,
        id(S_Y),
        Token::Colon,
        id(S_I32),
        Token::RParen,
        Token::Arrow,
        id(S_SELF_TY),
        Token::FatArrow,
        id(S_SELF_TY),
        Token::LBrace,
        id(S_X),
        Token::Comma,
        id(S_Y),
        Token::RBrace,
    ]
}

fn new_expected() -> Vec<Token> {
    vec![
        Token::Attr(D_NEW),
        Token::KwPub,
        Token::KwFn,
        id(S_NEW),
        Token::LParen,
        id(S_X),
        Token::Colon,
        id(S_I32),
        Token::Comma,
        id(S_Y),
        Token::Colon,
        id(S_I32),
        Token::RParen,
        Token::Arrow,
        id(S_SELF_TY),
        Token::LBrace,
        id(S_SELF_TY),
        Token::LBrace,
        id(S_X),
        Token::Comma,
        id(S_Y),
        Token::RBrace,
        Token::RBrace,
    ]
}

/// `pub fn x(&self) -> i32 => x` (and the same for `y`), with doc comments.
fn getter_invocation(doc: u64, name: u64) -> Vec<Token> {
    vec![
        Token::Attr(doc),
        Token::KwPub,
        Token::KwFn,
        id(name),
        Token::LParen,
        Token::Amp,
        Token::KwSelf,
        Token::RParen,
        Token::Arrow,
        id(S_I32),
        Token::FatArrow,
        id(name),
    ]
}

fn getter_expected(doc: u64, name: u64) -> Vec<Token> {
    vec![
        Token::Attr(doc),
        Token::KwPub,
        Token::KwFn,
        id(name),
        Token::LParen,
        Token::Amp,
        Token::KwSelf,
        Token::RParen,
        Token::Arrow,
        id(S_I32),
        Token::LBrace,
        Token::KwSelf,
        Token::Dot,
        id(name),
        Token::RBrace,
    ]
}

fn manhattan_body() -> Vec<Token> {
    vec![
        Token::KwSelf,
        Token::Dot,
        id(S_X),
        Token::Dot,
        id(S_ABS),
        Token::LParen,
        Token::RParen,
        Token::Punct('+'),
        Token::KwSelf,
        Token::Dot,
        id(S_Y),
        Token::Dot,
        id(S_ABS),
        Token::LParen,
        Token::RParen,
    ]
}

/// `fn manhattan(&self) -> i32 => self.x.abs() + self.y.abs()`.
fn manhattan_invocation() -> Vec<Token> {
    let mut toks = vec![
        Token::Attr(D_MANHATTAN),
        Token::KwFn,
        id(S_MANHATTAN),
        Token::LParen,
        Token::Amp,
        Token::KwSelf,
        Token::RParen,
        Token::Arrow,
        id(S_I32),
        Token::FatArrow,
    ];
    toks.extend(manhattan_body());
    toks
}

fn manhattan_expected() -> Vec<Token> {
    let mut toks = vec![
        Token::Attr(D_MANHATTAN),
        Token::KwFn,
        id(S_MANHATTAN),
        Token::LParen,
        Token::Amp,
        Token::KwSelf,
        Token::RParen,
        Token::Arrow,
        id(S_I32),
        Token::LBrace,
    ];
    toks.extend(manhattan_body());
    toks.push(Token::RBrace);
    toks
}

fn scale_body() -> Vec<Token> {
    vec![
        id(S_SELF_TY),
        Token::LBrace,
        id(S_X),
        Token::Colon,
        Token::KwSelf,
        Token::Dot,
        id(S_X),
        Token::Punct('*'),
        id(S_F),
        Token::Comma,
        id(S_Y),
        Token::Colon,
        Token::KwSelf,
        Token::Dot,
        id(S_Y),
        Token::Punct('*'),
        id(S_F),
        Token::RBrace,
    ]
}

/// `pub fn scale(&self, f: i32) -> Self => Self { x: self.x * f, y: self.y * f }`.
fn scale_invocation() -> Vec<Token> {
    let mut toks = vec![
        Token::Attr(D_SCALE),
        Token::KwPub,
        Token::KwFn,
        id(S_SCALE),
        Token::LParen,
        Token::Amp,
        Token::KwSelf,
        Token::Comma,
        id(S_F),
        Token::Colon,
        id(S_I32),
        Token::RParen,
        Token::Arrow,
        id(S_SELF_TY),
        Token::FatArrow,
    ];
    toks.extend(scale_body());
    toks
}

fn scale_expected() -> Vec<Token> {
    let mut toks = vec![
        Token::Attr(D_SCALE),
        Token::KwPub,
        Token::KwFn,
        id(S_SCALE),
        Token::LParen,
        Token::Amp,
        Token::KwSelf,
        Token::Comma,
        id(S_F),
        Token::Colon,
        id(S_I32),
        Token::RParen,
        Token::Arrow,
        id(S_SELF_TY),
        Token::LBrace,
    ];
    toks.extend(scale_body());
    toks.push(Token::RBrace);
    toks
}

fn reset_body() -> Vec<Token> {
    vec![
        Token::LBrace,
        Token::KwSelf,
        Token::Dot,
        id(S_X),
        Token::Punct('='),
        Token::Lit(L_ZERO),
        Token::Punct(';'),
        Token::KwSelf,
        Token::Dot,
        id(S_Y),
        Token::Punct('='),
        Token::Lit(L_ZERO),
        Token::RBrace,
    ]
}

/// `pub fn reset(&mut self) => { self.x = 0; self.y = 0 }`.
fn reset_invocation() -> Vec<Token> {
    let mut toks = vec![
        Token::Attr(D_RESET),
        Token::KwPub,
        Token::KwFn,
        id(S_RESET),
        Token::LParen,
        Token::Amp,
        Token::KwMut,
        Token::KwSelf,
        Token::RParen,
        Token::FatArrow,
    ];
    toks.extend(reset_body());
    toks
}

fn reset_expected() -> Vec<Token> {
    let mut toks = vec![
        Token::Attr(D_RESET),
        Token::KwPub,
        Token::KwFn,
        id(S_RESET),
        Token::LParen,
        Token::Amp,
        Token::KwMut,
        Token::KwSelf,
        Token::RParen,
        Token::Arrow,
        Token::LParen,
        Token::RParen,
        Token::LBrace,
    ];
    toks.extend(reset_body());
    toks.push(Token::RBrace);
    toks
}

fn origin_body() -> Vec<Token> {
    vec![
        id(S_POINT),
        Token::LBrace,
        id(S_X),
        Token::Colon,
        Token::Lit(L_ZERO),
        Token::Comma,
        id(S_Y),
        Token::Colon,
        Token::Lit(L_ZERO),
        Token::RBrace,
    ]
}

/// `pub origin -> Point => Point { x: 0, y: 0 }` — no parameter list.
fn origin_invocation() -> Vec<Token> {
    let mut toks = vec![Token::KwPub, id(S_ORIGIN), Token::Arrow, id(S_POINT), Token::FatArrow];
    toks.extend(origin_body());
    toks
}

fn origin_expected() -> Vec<Token> {
    let mut toks = vec![
        Token::KwPub,
        Token::KwFn,
        id(S_ORIGIN),
        Token::LParen,
        Token::RParen,
        Token::Arrow,
        id(S_POINT),
        Token::LBrace,
    ];
    toks.extend(origin_body());
    toks.push(Token::RBrace);
    toks
}

fn coord_diff_abs(p: u64, q: u64, coord: u64) -> Vec<Token> {
    vec![
        Token::LParen,
        id(p),
        Token::Dot,
        id(coord),
        Token::Punct('-'),
        id(q),
        Token::Dot,
        id(coord),
        Token::RParen,
        Token::Dot,
        id(S_ABS),
        Token::LParen,
        Token::RParen,
    ]
}

fn distance_body() -> Vec<Token> {
    let mut toks = coord_diff_abs(S_A, S_B, S_X);
    toks.push(Token::Punct('+'));
    toks.extend(coord_diff_abs(S_A, S_B, S_Y));
    toks
}

fn ref_point_param(name: u64) -> Vec<Token> {
    vec![id(name), Token::Colon, Token::Amp, id(S_POINT)]
}

/// `distance(a: &Point, b: &Point) -> i32 => (a.x - b.x).abs() + (a.y - b.y).abs()`.
fn distance_invocation() -> Vec<Token> {
    let mut toks = vec![id(S_DISTANCE), Token::LParen];
    toks.extend(ref_point_param(S_A));
    toks.push(Token::Comma);
    toks.extend(ref_point_param(S_B));
    toks.push(Token::RParen);
    toks.push(Token::Arrow);
    toks.push(id(S_I32));
    toks.push(Token::FatArrow);
    toks.extend(distance_body());
    toks
}

fn distance_expected() -> Vec<Token> {
    let mut toks = vec![Token::KwFn, id(S_DISTANCE), Token::LParen];
    toks.extend(ref_point_param(S_A));
    toks.push(Token::Comma);
    toks.extend(ref_point_param(S_B));
    toks.push(Token::RParen);
    toks.push(Token::Arrow);
    toks.push(id(S_I32));
    toks.push(Token::LBrace);
    toks.extend(distance_body());
    toks.push(Token::RBrace);
    toks
}

fn is_same_body() -> Vec<Token> {
    vec![id(S_A), Token::Punct('='), Token::Punct('='), id(S_B)]
}

/// `is_same(a: &Point, b: &Point) -> bool => a == b`.
fn is_same_invocation() -> Vec<Token> {
    let mut toks = vec![id(S_IS_SAME), Token::LParen];
    toks.extend(ref_point_param(S_A));
    toks.push(Token::Comma);
    toks.extend(ref_point_param(S_B));
    toks.push(Token::RParen);
    toks.push(Token::Arrow);
    toks.push(id(S_BOOL));
    toks.push(Token::FatArrow);
    toks.extend(is_same_body());
    toks
}

fn is_same_expected() -> Vec<Token> {
    let mut toks = vec![Token::KwFn, id(S_IS_SAME), Token::LParen];
    toks.extend(ref_point_param(S_A));
    toks.push(Token::Comma);
    toks.extend(ref_point_param(S_B));
    toks.push(Token::RParen);
    toks.push(Token::Arrow);
    toks.push(id(S_BOOL));
    toks.push(Token::LBrace);
    toks.extend(is_same_body());
    toks.push(Token::RBrace);
    toks
}

#[test]
fn test_point_methods() {
    assert_eq!(expand(new_invocation()), new_expected());
    assert_eq!(expand(getter_invocation(D_X, S_X)), getter_expected(D_X, S_X));
    assert_eq!(expand(getter_invocation(D_Y, S_Y)), getter_expected(D_Y, S_Y));
    assert_eq!(expand(manhattan_invocation()), manhattan_expected());
    assert_eq!(expand(scale_invocation()), scale_expected());
    assert_eq!(expand(reset_invocation()), reset_expected());

    let mut p = Point::new(3, -4);
    assert_eq!(p.x(), 3);
    assert_eq!(p.y(), -4);
    assert_eq!(p.manhattan(), 7);
    assert_eq!(p.scale(2), Point { x: 6, y: -8 });

    p.reset();
    assert_eq!(p, Point { x: 0, y: 0 });
}

#[test]
fn test_point_functions() {
    assert_eq!(expand(origin_invocation()), origin_expected());
    assert_eq!(expand(distance_invocation()), distance_expected());
    assert_eq!(expand(is_same_invocation()), is_same_expected());

    let p1 = Point::new(1, 2);
    let p2 = Point::new(-3, 5);
    assert_eq!(origin(), Point { x: 0, y: 0 });
    assert_eq!(
        distance(&p1, &p2),
        (1i32 - -3i32).abs() + (2i32 - 5i32).abs()
    );
    assert_eq!(is_same(&p1, &p1), true);
    assert_eq!(is_same(&p1, &p2), false);
}

/// The declaration without a parameter list and the one with the
/// explicit empty `()` synthesize identical definitions.
#[test]
fn test_param_list_omission() {
    let mut with_parens = vec![Token::KwPub, id(S_ORIGIN), Token::LParen, Token::RParen];
    with_parens.push(Token::Arrow);
    with_parens.push(id(S_POINT));
    with_parens.push(Token::FatArrow);
    with_parens.extend(origin_body());
    assert_eq!(expand(origin_invocation()), expand(with_parens));
}

/// The optional `fn` marker changes nothing in the output.
#[test]
fn test_fn_marker_no_effect() {
    let without: Vec<Token> = getter_invocation(D_X, S_X)
        .into_iter()
        .filter(|t| *t != Token::KwFn)
        .collect();
    assert_eq!(expand(without), expand(getter_invocation(D_X, S_X)));
}

/// A method body that is a single bare identifier is rewritten to a
/// receiver field access; a free function's bare-identifier body is not.
#[test]
fn test_method_shorthand_rewrite() {
    let out = expand(getter_invocation(D_X, S_X));
    let tail = &out[out.len() - 5..];
    assert_eq!(
        tail,
        &[Token::LBrace, Token::KwSelf, Token::Dot, id(S_X), Token::RBrace]
    );

    // Free function: `f() -> i32 => x` keeps the bare body.
    let free = vec![
        id(S_F),
        Token::LParen,
        Token::RParen,
        Token::Arrow,
        id(S_I32),
        Token::FatArrow,
        id(S_X),
    ];
    let out = expand(free);
    assert_eq!(&out[out.len() - 3..], &[Token::LBrace, id(S_X), Token::RBrace]);
}

/// A method body that is a qualified path is left untouched even
/// though it mentions a single name.
#[test]
fn test_qualified_path_not_rewritten() {
    let inv = vec![
        id(S_F),
        Token::LParen,
        Token::KwSelf,
        Token::RParen,
        Token::FatArrow,
        id(S_A),
        Token::PathSep,
        id(S_X),
    ];
    let out = expand(inv);
    assert_eq!(
        &out[out.len() - 5..],
        &[Token::LBrace, id(S_A), Token::PathSep, id(S_X), Token::RBrace]
    );
}

/// An omitted return clause synthesizes the unit return type, exactly
/// as if `-> ()` had been written.
#[test]
fn test_default_return_type() {
    let without = vec![
        id(S_F),
        Token::LParen,
        Token::RParen,
        Token::FatArrow,
        Token::Lit(L_ZERO),
    ];
    let with_unit = vec![
        id(S_F),
        Token::LParen,
        Token::RParen,
        Token::Arrow,
        Token::LParen,
        Token::RParen,
        Token::FatArrow,
        Token::Lit(L_ZERO),
    ];
    let out = expand(without);
    assert_eq!(out, expand(with_unit));
    assert_eq!(
        out,
        vec![
            Token::KwFn,
            id(S_F),
            Token::LParen,
            Token::RParen,
            Token::Arrow,
            Token::LParen,
            Token::RParen,
            Token::LBrace,
            Token::Lit(L_ZERO),
            Token::RBrace,
        ]
    );
}

/// Attributes and documentation stay first, in their original order.
#[test]
fn test_attributes_preserved_in_order() {
    let inv = vec![
        Token::Attr(D_X),
        Token::Attr(D_Y),
        Token::Attr(D_NEW),
        id(S_F),
        Token::FatArrow,
        Token::Lit(L_ZERO),
    ];
    let out = expand(inv);
    assert_eq!(
        &out[..3],
        &[Token::Attr(D_X), Token::Attr(D_Y), Token::Attr(D_NEW)]
    );
}

/// A restricted visibility fragment is carried through verbatim.
#[test]
fn test_restricted_visibility() {
    let inv = vec![
        Token::KwPub,
        Token::LParen,
        Token::KwCrate,
        Token::RParen,
        id(S_F),
        Token::FatArrow,
        Token::Lit(L_ZERO),
    ];
    let out = expand(inv);
    assert_eq!(
        &out[..4],
        &[Token::KwPub, Token::LParen, Token::KwCrate, Token::RParen]
    );
}

/// A by-value receiver and commas nested in angle brackets both parse.
#[test]
fn test_receivers_and_generic_types() {
    // `f(self, m: Map<K, V>) => x`
    let inv = vec![
        id(S_F),
        Token::LParen,
        Token::KwSelf,
        Token::Comma,
        id(S_A),
        Token::Colon,
        id(S_B),
        Token::Lt,
        id(S_X),
        Token::Comma,
        id(S_Y),
        Token::Gt,
        Token::RParen,
        Token::FatArrow,
        id(S_X),
    ];
    let out = expand(inv);
    let expected = vec![
        Token::KwFn,
        id(S_F),
        Token::LParen,
        Token::KwSelf,
        Token::Comma,
        id(S_A),
        Token::Colon,
        id(S_B),
        Token::Lt,
        id(S_X),
        Token::Comma,
        id(S_Y),
        Token::Gt,
        Token::RParen,
        Token::Arrow,
        Token::LParen,
        Token::RParen,
        Token::LBrace,
        Token::KwSelf,
        Token::Dot,
        id(S_X),
        Token::RBrace,
    ];
    assert_eq!(out, expected);
}

/// `pub fn manhattan(&self) -> i32 => self.x.abs() + self.y.abs()`:
/// the body is not a bare identifier, so it synthesizes unchanged,
/// and the definition returns 7 for a point with `x = 3, y = -4`.
#[test]
fn test_public_manhattan_scenario() {
    let mut inv = vec![
        Token::KwPub,
        Token::KwFn,
        id(S_MANHATTAN),
        Token::LParen,
        Token::Amp,
        Token::KwSelf,
        Token::RParen,
        Token::Arrow,
        id(S_I32),
        Token::FatArrow,
    ];
    inv.extend(manhattan_body());
    let mut expected = vec![
        Token::KwPub,
        Token::KwFn,
        id(S_MANHATTAN),
        Token::LParen,
        Token::Amp,
        Token::KwSelf,
        Token::RParen,
        Token::Arrow,
        id(S_I32),
        Token::LBrace,
    ];
    expected.extend(manhattan_body());
    expected.push(Token::RBrace);
    assert_eq!(expand(inv), expected);

    let p = Place { x: 3, y: -4 };
    assert_eq!(p.manhattan(), 7);
}

/// A trailing comma in the parameter list is accepted.
#[test]
fn test_trailing_comma() {
    let inv = vec![
        id(S_F),
        Token::LParen,
        id(S_A),
        Token::Colon,
        id(S_I32),
        Token::Comma,
        Token::RParen,
        Token::FatArrow,
        id(S_A),
    ];
    let out = expand(inv);
    assert_eq!(
        out,
        vec![
            Token::KwFn,
            id(S_F),
            Token::LParen,
            id(S_A),
            Token::Colon,
            id(S_I32),
            Token::RParen,
            Token::Arrow,
            Token::LParen,
            Token::RParen,
            Token::LBrace,
            id(S_A),
            Token::RBrace,
        ]
    );
}
