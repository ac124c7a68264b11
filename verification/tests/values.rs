use rlang::environment::Environment;
use rlang::expr::{binary_operation, unary_operation, LiteralValue, Outcome};
use rlang::lexer::{Token, TokenType};
use rlang::logger::{Logger, LoggerType};
use rlang::number::{Number, NumberRequest};
use rlang::text::{chars_of, join_text, text_less, text_of, usize_text};

fn value_number(x: f64) -> Number {
    Number::new(x.to_bits(), x.to_string())
}

fn num(x: f64) -> LiteralValue {
    LiteralValue::Number(value_number(x))
}

fn text(s: &str) -> LiteralValue {
    LiteralValue::StringValue(s.to_string())
}

fn callable(name: &str, arity: usize, fun: usize) -> LiteralValue {
    LiteralValue::Callable { name: name.to_string(), arity, fun }
}

fn samples() -> Vec<f64> {
    vec![
        0.0,
        -0.0,
        1.0,
        -1.0,
        0.5,
        -0.5,
        2.0,
        1e300,
        -1e300,
        5e-324,
        -5e-324,
        f64::MIN_POSITIVE,
        f64::MAX,
        f64::MIN,
        f64::INFINITY,
        f64::NEG_INFINITY,
        f64::NAN,
        -f64::NAN,
        f64::from_bits(0x7FF0_0000_0000_0001),
        f64::from_bits(0xFFFF_FFFF_FFFF_FFFF),
        123.456,
        -123.456,
    ]
}

#[test]
fn try_init() {
    let _environment = Environment::new();
}

#[test]
fn numbers_compare_as_their_values_do() {
    for &a in &samples() {
        let x = value_number(a);
        assert_eq!(x.is_nan(), a.is_nan(), "{}", a);
        assert_eq!(x.is_zero(), a == 0.0, "{}", a);
        for &b in &samples() {
            let y = value_number(b);
            assert_eq!(x.equals(&y), a == b, "{} == {}", a, b);
            assert_eq!(x.less(&y), a < b, "{} < {}", a, b);
            assert_eq!(x.less_eq(&y), a <= b, "{} <= {}", a, b);
        }
    }
}

#[test]
fn a_number_keeps_its_text() {
    let n = value_number(2.5);
    assert_eq!(n.bits, 2.5f64.to_bits());
    assert_eq!(n.text, "2.5");
    assert_eq!(n.duplicate(), n);
    assert_eq!(num(2.5).to_text(), "2.5");
}

#[test]
fn truthiness_of_values() {
    assert_eq!(num(0.0).truth(), Some(false));
    assert_eq!(num(-0.0).truth(), Some(false));
    assert_eq!(num(0.1).truth(), Some(true));
    assert_eq!(num(f64::NAN).truth(), Some(true));
    assert_eq!(text("").truth(), Some(false));
    assert_eq!(text(" ").truth(), Some(true));
    assert_eq!(LiteralValue::True.truth(), Some(true));
    assert_eq!(LiteralValue::False.truth(), Some(false));
    assert_eq!(LiteralValue::Nil.truth(), Some(false));
    assert_eq!(callable("f", 0, 1).truth(), None);
    assert!(callable("f", 0, 1).is_callable());
    assert!(!LiteralValue::Nil.is_callable());

    assert_eq!(num(0.0).is_truthy(), LiteralValue::False);
    assert_eq!(num(0.0).is_falsy(), LiteralValue::True);
    assert_eq!(num(3.0).is_truthy(), LiteralValue::True);
    assert_eq!(num(3.0).is_falsy(), LiteralValue::False);
    assert_eq!(text("").is_falsy(), LiteralValue::True);
    assert_eq!(text("a").is_truthy(), LiteralValue::True);
    assert_eq!(LiteralValue::Nil.is_truthy(), LiteralValue::False);
    assert_eq!(LiteralValue::Nil.is_falsy(), LiteralValue::True);
    assert_eq!(LiteralValue::True.is_falsy(), LiteralValue::False);
    assert_eq!(LiteralValue::False.is_truthy(), LiteralValue::False);
}

#[test]
fn equality_of_values() {
    assert_eq!(num(1.0), num(1.0));
    assert_ne!(num(1.0), num(2.0));
    assert_ne!(num(f64::NAN), num(f64::NAN));
    assert_eq!(num(0.0), num(-0.0));
    // The text of a number takes no part.
    assert_eq!(
        LiteralValue::Number(Number::new(1.0f64.to_bits(), "1".to_string())),
        LiteralValue::Number(Number::new(1.0f64.to_bits(), "1.0".to_string()))
    );
    assert_eq!(text("a"), text("a"));
    assert_ne!(text("a"), text("b"));
    assert_ne!(text("1"), num(1.0));
    assert_eq!(LiteralValue::Nil, LiteralValue::Nil);
    assert_ne!(LiteralValue::Nil, LiteralValue::False);
    assert_ne!(LiteralValue::True, LiteralValue::False);
    // Function values are told apart by name and arity alone.
    assert_eq!(callable("f", 1, 3), callable("f", 1, 4));
    assert_ne!(callable("f", 1, 3), callable("g", 1, 3));
    assert_ne!(callable("f", 1, 3), callable("f", 2, 3));
}

#[test]
fn texts_and_kinds_of_values() {
    assert_eq!(text("raw").to_text(), "raw");
    assert_eq!(LiteralValue::True.to_text(), "true");
    assert_eq!(LiteralValue::False.to_text(), "false");
    assert_eq!(LiteralValue::Nil.to_text(), "nil");
    assert_eq!(callable("add", 12, 0).to_text(), "add<12>");
    assert_eq!(text("").type_text(), "String");
    assert_eq!(num(1.0).type_text(), "Number");
    assert_eq!(callable("f", 0, 0).type_text(), "Callable");
    assert_eq!(LiteralValue::True.type_text(), "Boolean");
    assert_eq!(LiteralValue::False.type_text(), "Boolean");
    assert_eq!(LiteralValue::Nil.type_text(), "nil");
    assert_eq!(LiteralValue::from_bool(true), LiteralValue::True);
    assert_eq!(LiteralValue::from_bool(false), LiteralValue::False);
    assert_eq!(callable("f", 2, 5).duplicate().to_text(), "f<2>");
}

#[test]
fn values_of_literal_tokens() {
    let string = Token::new(
        TokenType::String,
        "\"a\"".to_string(),
        Some(rlang::lexer::LiteralValue::StringValue("a".to_string())),
        1,
    );
    assert!(LiteralValue::is_literal(&string));
    assert_eq!(LiteralValue::from_token(string), text("a"));
    let number = Token::new(
        TokenType::Number,
        "2".to_string(),
        Some(rlang::lexer::LiteralValue::FloatValue(value_number(2.0))),
        1,
    );
    assert_eq!(LiteralValue::from_token(number), num(2.0));
    let nil = Token::new(TokenType::Nil, "nil".to_string(), None, 1);
    assert_eq!(LiteralValue::from_token(nil), LiteralValue::Nil);
    let yes = Token::new(TokenType::True, "true".to_string(), None, 1);
    assert_eq!(LiteralValue::from_token(yes), LiteralValue::True);
    let no = Token::new(TokenType::False, "false".to_string(), None, 1);
    assert_eq!(LiteralValue::from_token(no), LiteralValue::False);
    let plus = Token::new(TokenType::Plus, "+".to_string(), None, 1);
    assert!(!LiteralValue::is_literal(&plus));
    let bare = Token::new(TokenType::Number, "2".to_string(), None, 1);
    assert!(!LiteralValue::is_literal(&bare));
}

#[test]
fn arithmetic_is_asked_of_the_caller() {
    let a = 1.5f64.to_bits();
    let b = 2.0f64.to_bits();
    let ask = |op| match binary_operation(&num(1.5), op, &num(2.0)) {
        Outcome::Ask(request) => request,
        other => panic!("{:?}", other),
    };
    assert_eq!(ask(TokenType::Plus), NumberRequest::Add(a, b));
    assert_eq!(ask(TokenType::Minus), NumberRequest::Subtract(a, b));
    assert_eq!(ask(TokenType::Star), NumberRequest::Multiply(a, b));
    assert_eq!(ask(TokenType::Slash), NumberRequest::Divide(a, b));
    match unary_operation(TokenType::Minus, &num(1.5), "1.5") {
        Outcome::Ask(request) => assert_eq!(request, NumberRequest::Negate(a)),
        other => panic!("{:?}", other),
    }
    assert_eq!(NumberRequest::Parse("1".to_string()).duplicate(), NumberRequest::Parse("1".to_string()));
}

fn decided(left: &LiteralValue, op: TokenType, right: &LiteralValue) -> LiteralValue {
    match binary_operation(left, op, right) {
        Outcome::Value(v) => v,
        other => panic!("{:?}", other),
    }
}

fn refused(left: &LiteralValue, op: TokenType, right: &LiteralValue) -> String {
    match binary_operation(left, op, right) {
        Outcome::Error(m) => m,
        other => panic!("{:?}", other),
    }
}

#[test]
fn binary_operators_on_values() {
    assert_eq!(decided(&num(1.0), TokenType::Less, &num(2.0)), LiteralValue::True);
    assert_eq!(decided(&num(2.0), TokenType::LessEqual, &num(2.0)), LiteralValue::True);
    assert_eq!(decided(&num(1.0), TokenType::Greater, &num(2.0)), LiteralValue::False);
    assert_eq!(decided(&num(1.0), TokenType::GreaterEqual, &num(2.0)), LiteralValue::False);
    assert_eq!(decided(&num(f64::NAN), TokenType::GreaterEqual, &num(f64::NAN)), LiteralValue::False);
    assert_eq!(decided(&text("a"), TokenType::Plus, &text("b")), text("ab"));
    assert_eq!(decided(&text("a"), TokenType::Plus, &num(1.0)), text("a1"));
    assert_eq!(decided(&text("a"), TokenType::Less, &text("b")), LiteralValue::True);
    assert_eq!(decided(&text("b"), TokenType::LessEqual, &text("a")), LiteralValue::False);
    assert_eq!(decided(&text("b"), TokenType::Greater, &text("a")), LiteralValue::True);
    assert_eq!(decided(&text("a"), TokenType::GreaterEqual, &text("a")), LiteralValue::True);
    assert_eq!(decided(&num(1.0), TokenType::EqualEqual, &text("1")), LiteralValue::False);
    assert_eq!(decided(&num(1.0), TokenType::BangEqual, &text("1")), LiteralValue::True);
    assert_eq!(decided(&LiteralValue::Nil, TokenType::EqualEqual, &LiteralValue::Nil), LiteralValue::True);
    assert_eq!(
        refused(&num(1.0), TokenType::Star, &text("a")),
        "Star is not defined for String and Number"
    );
    assert_eq!(
        refused(&text("a"), TokenType::Slash, &num(2.0)),
        "Slash is not implemented for the operands `a` and `2`"
    );
    assert_eq!(
        refused(&num(1.0), TokenType::And, &num(2.0)),
        "And is not implemented for the operands `1` and `2`"
    );
    assert_eq!(
        refused(&LiteralValue::Nil, TokenType::Less, &callable("f", 1, 0)),
        "Less is not implemented for the operands `nil` and `f<1>`"
    );
}

#[test]
fn unary_operators_on_values() {
    let not = |v: &LiteralValue| match unary_operation(TokenType::Bang, v, "x") {
        Outcome::Value(v) => v,
        other => panic!("{:?}", other),
    };
    assert_eq!(not(&LiteralValue::Nil), LiteralValue::True);
    assert_eq!(not(&num(0.0)), LiteralValue::True);
    assert_eq!(not(&text("a")), LiteralValue::False);
    let refuse = |op, v: &LiteralValue| match unary_operation(op, v, "(var x)") {
        Outcome::Error(m) => m,
        other => panic!("{:?}", other),
    };
    assert_eq!(refuse(TokenType::Minus, &text("a")), "Minus not implemented for (var x)");
    assert_eq!(refuse(TokenType::Bang, &callable("f", 0, 0)), "Cannot use callable as a falsy value");
    assert_eq!(refuse(TokenType::Plus, &num(1.0)), "Plus is not valid unary operator");
}

#[test]
fn environment_defines_and_finds() {
    let mut env = Environment::new();
    assert_eq!(env.len(), 1);
    assert!(env.get(0, "a").is_none());
    env.define(0, "a".to_string(), num(1.0));
    assert_eq!(env.get(0, "a"), Some(num(1.0)));
    // A second definition in the same scope replaces the first.
    env.define(0, "a".to_string(), text("again"));
    assert_eq!(env.get(0, "a"), Some(text("again")));
    env.define(0, "b".to_string(), LiteralValue::Nil);
    assert_eq!(env.get(0, "b"), Some(LiteralValue::Nil));
    assert_eq!(env.get(0, "a"), Some(text("again")));
}

#[test]
fn environment_walks_the_chain_outwards() {
    let mut env = Environment::new();
    env.define(0, "a".to_string(), num(1.0));
    let inner = env.new_scope(0);
    assert_eq!(inner, 1);
    let innermost = env.new_scope(inner);
    assert_eq!(innermost, 2);
    assert_eq!(env.len(), 3);
    assert_eq!(env.get(innermost, "a"), Some(num(1.0)));
    // A definition in an inner scope shadows, and is not seen from outside.
    env.define(inner, "a".to_string(), num(2.0));
    assert_eq!(env.get(innermost, "a"), Some(num(2.0)));
    assert_eq!(env.get(inner, "a"), Some(num(2.0)));
    assert_eq!(env.get(0, "a"), Some(num(1.0)));
    env.define(innermost, "b".to_string(), num(3.0));
    assert!(env.get(inner, "b").is_none());
    assert!(env.get(0, "b").is_none());
}

#[test]
fn environment_assigns_to_the_nearest_binding() {
    let mut env = Environment::new();
    env.define(0, "a".to_string(), num(1.0));
    let inner = env.new_scope(0);
    assert!(env.assign(inner, "a", num(5.0)));
    assert_eq!(env.get(0, "a"), Some(num(5.0)));
    env.define(inner, "a".to_string(), num(7.0));
    assert!(env.assign(inner, "a", num(8.0)));
    assert_eq!(env.get(inner, "a"), Some(num(8.0)));
    assert_eq!(env.get(0, "a"), Some(num(5.0)));
    // Without a binding nothing changes and none is made.
    assert!(!env.assign(inner, "z", num(1.0)));
    assert!(env.get(inner, "z").is_none());
    assert!(env.get(0, "z").is_none());
}

#[test]
fn sibling_scopes_share_what_encloses_them() {
    let mut env = Environment::new();
    let shared = env.new_scope(0);
    env.define(shared, "n".to_string(), num(0.0));
    let one = env.new_scope(shared);
    let other = env.new_scope(shared);
    assert!(env.assign(one, "n", num(1.0)));
    assert_eq!(env.get(other, "n"), Some(num(1.0)));
    assert!(env.assign(other, "n", num(2.0)));
    assert_eq!(env.get(one, "n"), Some(num(2.0)));
    assert!(env.get(0, "n").is_none());
}

#[test]
fn environment_defines_at_the_outermost_scope() {
    let mut env = Environment::new();
    let inner = env.new_scope(0);
    let innermost = env.new_scope(inner);
    env.define_top_level(innermost, "r".to_string(), num(9.0));
    assert_eq!(env.get(0, "r"), Some(num(9.0)));
    assert_eq!(env.get(innermost, "r"), Some(num(9.0)));
    env.define_top_level(0, "s".to_string(), num(1.0));
    assert_eq!(env.get(0, "s"), Some(num(1.0)));
}

#[test]
fn decimal_text_of_integers() {
    assert_eq!(usize_text(0), "0");
    assert_eq!(usize_text(7), "7");
    assert_eq!(usize_text(10), "10");
    assert_eq!(usize_text(255), "255");
    assert_eq!(usize_text(1234567890), "1234567890");
    assert_eq!(usize_text(usize::MAX), usize::MAX.to_string());
}

#[test]
fn text_helpers() {
    assert_eq!(chars_of("aé\n"), vec!['a', 'é', '\n']);
    assert_eq!(text_of(&vec!['a', 'b', 'c', 'd'], 1, 3), "bc");
    assert_eq!(text_of(&vec!['a', 'b'], 1, 1), "");
    assert_eq!(join_text(&vec![]), "");
    assert_eq!(join_text(&vec!["a".to_string()]), "a");
    assert_eq!(join_text(&vec!["a".to_string(), "".to_string(), "b".to_string()]), "a\n\nb");
}

#[test]
fn texts_are_ordered_like_strings() {
    let words = ["", "a", "A", "ab", "b", "aa", "é", "z", "~", "\u{10000}", "a\u{0}"];
    for a in words {
        for b in words {
            assert_eq!(text_less(a, b), a < b, "{:?} < {:?}", a, b);
        }
    }
}

#[test]
fn logger_keeps_messages_by_kind() {
    let mut logger = Logger::new();
    assert_eq!(logger.lines(LoggerType::Info).len(), 0);
    logger.log_msg("first", LoggerType::Info);
    logger.log_msg("broken", LoggerType::Error);
    logger.log_msg("second", LoggerType::Info);
    logger.log_msg("note", LoggerType::Message);
    assert_eq!(
        logger.lines(LoggerType::Info),
        vec!["\x1b[1;36m[#] \x1b[0;36mfirst\x1b[0m", "\x1b[1;36m[#] \x1b[0;36msecond\x1b[0m"]
    );
    assert_eq!(
        logger.lines(LoggerType::Error),
        vec!["\x1b[1;31m[*] \x1b[0;31mbroken\x1b[0m"]
    );
    assert_eq!(
        logger.lines(LoggerType::Message),
        vec!["\x1b[1;32m[+] \x1b[0;32mnote\x1b[0m"]
    );
}
