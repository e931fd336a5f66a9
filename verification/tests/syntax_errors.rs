use single_line::single_line;
use single_line::Expected;
use single_line::SingleLine;
use single_line::Token;

const S_F: u64 = 1;
const S_A: u64 = 2;
const S_I32: u64 = 3;
const S_X: u64 = 4;
const S_MARKER: u64 = 5;
const S_RDN: u64 = 6;
const L_ONE: u64 = 7;

fn id(s: u64) -> Token {
    Token::Ident(s)
}

fn fails_with(tokens: Vec<Token>, pos: usize, expected: Expected) {
    let r = single_line(&tokens);
    match r {
        Ok(_) => panic!("the invocation should not parse"),
        Err(e) => {
            assert_eq!(e.pos, pos);
            assert_eq!(e.expected, expected);
        },
    }
    assert!(SingleLine::parse(&tokens).is_err());
}

/// Truncated input ending right after the return type: no separator,
/// no output definition.
#[test]
fn test_missing_separator() {
    let inv = vec![
        Token::KwPub,
        Token::KwFn,
        id(S_F),
        Token::LParen,
        Token::RParen,
        Token::Arrow,
        id(S_I32),
    ];
    let pos = inv.len();
    fails_with(inv, pos, Expected::Separator);
}

/// A stray word between the name and the signature is rejected where
/// the separator was expected.
#[test]
fn test_extra_marker_rejected() {
    let inv = vec![
        Token::KwPub,
        id(S_MARKER),
        id(S_RDN),
        Token::LParen,
        Token::RParen,
        Token::Arrow,
        id(S_I32),
        Token::FatArrow,
        Token::Lit(L_ONE),
    ];
    fails_with(inv, 2, Expected::Separator);
}

#[test]
fn test_missing_name() {
    let inv = vec![Token::KwPub, Token::FatArrow, Token::Lit(L_ONE)];
    fails_with(inv, 1, Expected::Name);
}

#[test]
fn test_unclosed_parameter_list() {
    let inv = vec![
        id(S_F),
        Token::LParen,
        id(S_A),
        Token::Colon,
        id(S_I32),
        Token::FatArrow,
        id(S_X),
    ];
    let pos = inv.len();
    fails_with(inv, pos, Expected::CloseParen);
}

#[test]
fn test_bad_parameter_start() {
    let inv = vec![
        id(S_F),
        Token::LParen,
        Token::Lit(L_ONE),
        Token::RParen,
        Token::FatArrow,
        id(S_X),
    ];
    fails_with(inv, 2, Expected::Parameter);
}

#[test]
fn test_parameter_missing_colon() {
    let inv = vec![
        id(S_F),
        Token::LParen,
        id(S_A),
        id(S_I32),
        Token::RParen,
        Token::FatArrow,
        id(S_X),
    ];
    fails_with(inv, 3, Expected::Colon);
}

#[test]
fn test_parameter_missing_type() {
    let inv = vec![
        id(S_F),
        Token::LParen,
        id(S_A),
        Token::Colon,
        Token::RParen,
        Token::FatArrow,
        id(S_X),
    ];
    fails_with(inv, 4, Expected::ParamType);
}

#[test]
fn test_junk_after_receiver() {
    let inv = vec![
        id(S_F),
        Token::LParen,
        Token::KwSelf,
        id(S_A),
        Token::RParen,
        Token::FatArrow,
        id(S_X),
    ];
    fails_with(inv, 3, Expected::Comma);
}

#[test]
fn test_missing_return_type() {
    let inv = vec![
        id(S_F),
        Token::LParen,
        Token::RParen,
        Token::Arrow,
        Token::FatArrow,
        id(S_X),
    ];
    fails_with(inv, 4, Expected::ReturnType);
}

#[test]
fn test_missing_body() {
    let inv = vec![id(S_F), Token::LParen, Token::RParen, Token::FatArrow];
    let pos = inv.len();
    fails_with(inv, pos, Expected::Body);
}

#[test]
fn test_empty_input() {
    fails_with(Vec::new(), 0, Expected::Name);
}

/// An unclosed visibility restriction is rejected.
#[test]
fn test_unclosed_visibility() {
    let inv = vec![
        Token::KwPub,
        Token::LParen,
        Token::KwCrate,
        id(S_F),
        Token::FatArrow,
        id(S_X),
    ];
    let pos = inv.len();
    fails_with(inv, pos, Expected::CloseParen);
}
