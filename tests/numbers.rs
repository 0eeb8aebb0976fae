use rustlox::compiler::Precedence;
use rustlox::scanner::{keyword_kind, scan_tokens, TokenKind};
use rustlox::text::{decimal, Interner};
use rustlox::value::{is_nan, num_equal, num_less, num_negate, Value};

fn bits(x: f64) -> u64 {
    x.to_bits()
}

#[test]
fn less_follows_ieee() {
    let values = [0.0, -0.0, 1.0, -1.0, 2.5, -7.25, f64::INFINITY, f64::NEG_INFINITY, f64::NAN, 1e300, -1e-300];
    for a in values {
        for b in values {
            assert_eq!(num_less(bits(a), bits(b)), a < b, "{} < {}", a, b);
            assert_eq!(num_equal(bits(a), bits(b)), a == b, "{} == {}", a, b);
        }
    }
}

#[test]
fn nan_detection_and_negation() {
    assert!(is_nan(bits(f64::NAN)));
    assert!(!is_nan(bits(f64::INFINITY)));
    assert_eq!(f64::from_bits(num_negate(bits(3.5))), -3.5);
    assert_eq!(num_negate(bits(0.0)), bits(-0.0));
}

#[test]
fn value_equality() {
    assert!(Value::Nil.equals(&Value::Nil));
    assert!(!Value::Nil.equals(&Value::Bool(false)));
    assert!(Value::String(3).equals(&Value::String(3)));
    assert!(!Value::Function(1).equals(&Value::Function(2)));
    assert!(!Value::Number(bits(f64::NAN)).equals(&Value::Number(bits(f64::NAN))));
    assert!(Value::Number(bits(0.0)).equals(&Value::Number(bits(-0.0))));
}

#[test]
fn falsiness() {
    assert!(Value::Nil.is_falsy());
    assert!(Value::Bool(false).is_falsy());
    assert!(!Value::Bool(true).is_falsy());
    assert!(!Value::Number(bits(0.0)).is_falsy());
}

#[test]
fn interner_deduplicates() {
    let mut strings = Interner::new();
    let a = strings.intern(b"abc");
    let b = strings.intern(b"xyz");
    let c = strings.intern(b"abc");
    assert_eq!(a, c);
    assert_ne!(a, b);
    assert_eq!(strings.text(b).unwrap().as_slice(), b"xyz");
    assert!(strings.text(7).is_none());
}

#[test]
fn decimal_digits() {
    assert_eq!(decimal(0), b"0".to_vec());
    assert_eq!(decimal(1907), b"1907".to_vec());
}

#[test]
fn precedence_ladder_climbs() {
    assert_eq!(Precedence::Lowest.higher(), Precedence::Assignment);
    assert_eq!(Precedence::Term.higher(), Precedence::Factor);
    assert_eq!(Precedence::Primary.higher(), Precedence::Primary);
    assert!(Precedence::Term.rank() < Precedence::Factor.rank());
}

#[test]
fn keywords_and_identifiers() {
    assert_eq!(keyword_kind(b"while"), TokenKind::While);
    assert_eq!(keyword_kind(b"print"), TokenKind::Print);
    assert_eq!(keyword_kind(b"whilex"), TokenKind::Identifier);
    assert_eq!(keyword_kind(b"or"), TokenKind::Or);
}

#[test]
fn scanner_tokens_and_lines() {
    let tokens = scan_tokens(b"var x = 1.5; // note\nprint x >= \"s\";\n@");
    let kinds: Vec<TokenKind> = tokens.iter().map(|t| t.kind).collect();
    assert_eq!(
        kinds,
        vec![
            TokenKind::Var, TokenKind::Identifier, TokenKind::Equal, TokenKind::Number,
            TokenKind::Semicolon, TokenKind::Print, TokenKind::Identifier,
            TokenKind::GreaterEqual, TokenKind::String, TokenKind::Semicolon, TokenKind::Error,
            TokenKind::EOF,
        ]
    );
    assert_eq!(tokens[3].lexeme, b"1.5".to_vec());
    assert_eq!(tokens[8].lexeme, b"\"s\"".to_vec());
    assert_eq!(tokens[5].line, 2);
    assert_eq!(tokens[10].lexeme, b"Unexpected character.".to_vec());
    assert_eq!(tokens[10].line, 3);
}
