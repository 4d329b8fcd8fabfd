use domain_coloring::ast::CompiledFunction;
use domain_coloring::ast::Node;
use domain_coloring::complex::C;
use domain_coloring::complex::check_scalar;
use domain_coloring::lexer::Function;
use domain_coloring::lexer::LexError;
use domain_coloring::lexer::Token;
use domain_coloring::lexer::fun_from_str;
use domain_coloring::lexer::is_digit_char;
use domain_coloring::lexer::is_id_char;
use domain_coloring::lexer::new_lexer;
use domain_coloring::parser::ParseError;
use domain_coloring::parser::parse;
use domain_coloring::parser::parse_to_fn;

fn c(re: &str, im: &str) -> C {
    C::new(re.to_string(), im.to_string()).expect("valid component renderings")
}

fn c_f(re: f64, im: f64) -> C {
    C::new(re.to_string(), im.to_string()).expect("float renderings are valid")
}

fn c_to_f(v: &C) -> (f64, f64) {
    (v.re().parse().unwrap(), v.im().parse().unwrap())
}

/// The tree both `z (3 + i)` and `z*(3+i)` must parse to.
fn z_times_3_plus_i() -> Node {
    Node::Binary {
        op: Token::Mult,
        left: Box::new(Node::Var),
        right: Box::new(Node::Binary {
            op: Token::Add,
            left: Box::new(Node::Const { val: c("3", "0") }),
            right: Box::new(Node::Const { val: c("0", "1") }),
        }),
    }
}

const TREE_STR: &str = "flowchart TD
    0[*]
    1[z]
    2[+]
    3[3+0i]
    4[0+1i]
    0 --> 1
    0 --> 2
    2 --> 3
    2 --> 4";

#[test]
fn test_mermaid() {
    println!("Testing Mermaid output...");
    let tree = Node::Binary {
        op: Token::Mult,
        left: Box::new(Node::Var),
        right: Box::new(Node::Binary {
            op: Token::Add,
            left: Box::new(Node::Const { val: c("3", "0") }),
            right: Box::new(Node::Const { val: c("0", "1") }),
        }),
    };
    println!("{}", tree.to_mermaid());
    assert_eq!(tree.to_mermaid(), TREE_STR);
}

#[test]
fn test_parser() {
    println!("Testing parser...");
    let tree = parse("z (3 + i)").unwrap();
    println!("{}", tree.to_mermaid());
    assert_eq!(tree.to_mermaid(), TREE_STR);
    assert_eq!(tree, z_times_3_plus_i());
}

#[test]
fn test_closure() {
    println!("Testing parser...");
    let f = parse("z (3 + i)").unwrap().to_closure();
    assert_eq!(f.eval(&c_f(1.0, 0.0)), c("3", "1"));
    assert_eq!(f.eval(&c_f(2.0, 0.0)), c("6", "2"));
}

#[test]
fn parse_is_deterministic() {
    let one = parse("sin(z) + 2*i / z^2").unwrap();
    let two = parse("sin(z) + 2*i / z^2").unwrap();
    assert_eq!(one, two);
}

#[test]
fn compiled_z_is_identity() {
    let f: CompiledFunction = parse_to_fn("z").unwrap();
    for (re, im) in [(0.0, 0.0), (1.5, -2.25), (-1e300, 3e-12), (7.0, f64::INFINITY)] {
        let p = c_f(re, im);
        let out = f.eval(&p);
        assert_eq!(out, c_f(re, im));
    }
}

#[test]
fn implicit_multiplication_matches_explicit() {
    assert_eq!(parse("z(3+i)").unwrap(), parse("z*(3+i)").unwrap());
    assert_eq!(parse("z(3+i)").unwrap(), z_times_3_plus_i());
}

#[test]
fn power_is_right_associative() {
    let expected = Node::Binary {
        op: Token::Pow,
        left: Box::new(Node::Const { val: c("2", "0") }),
        right: Box::new(Node::Binary {
            op: Token::Pow,
            left: Box::new(Node::Const { val: c("3", "0") }),
            right: Box::new(Node::Const { val: c("2", "0") }),
        }),
    };
    assert_eq!(parse("2^3^2").unwrap(), expected);
    // 2^(3^2) is 512, not the 64 of (2^3)^2
    let f = parse_to_fn("2^3^2").unwrap();
    let (re, im) = c_to_f(&f.eval(&c_f(0.0, 0.0)));
    assert!((re - 512.0).abs() < 1e-9, "got {re}");
    assert!(im.abs() < 1e-9, "got {im}");
}

#[test]
fn double_decimal_is_a_lexical_error() {
    assert_eq!(
        parse("3.4.5").unwrap_err(),
        ParseError::Lexical(LexError::DoubleDecimal)
    );
    let mut lexer = new_lexer("3.4.5");
    assert_eq!(lexer.next(), Some(Token::Error(LexError::DoubleDecimal)));
}

#[test]
fn unclosed_paren_is_a_syntax_error() {
    let err = parse("(").unwrap_err();
    assert_eq!(err, ParseError::MissingClosingParen);
    assert_eq!(err.message(), "Expected a closing parenthesis".to_string());
}

#[test]
fn error_variants_each_have_an_input() {
    assert_eq!(
        parse("$").unwrap_err(),
        ParseError::Lexical(LexError::InvalidCharacter)
    );
    assert_eq!(
        parse(".").unwrap_err(),
        ParseError::Lexical(LexError::InvalidNumber)
    );
    assert_eq!(
        parse("foo(z)").unwrap_err(),
        ParseError::Lexical(LexError::UnknownIdentifier)
    );
    assert_eq!(parse("sin 3").unwrap_err(), ParseError::MissingOpeningParen);
    assert_eq!(parse("+").unwrap_err(), ParseError::ExpectedAtom);
    assert_eq!(parse("").unwrap_err(), ParseError::ExpectedAtom);
    assert_eq!(parse("z)").unwrap_err(), ParseError::TrailingInput);
}

#[test]
fn lexer_peek_does_not_consume() {
    let mut lexer = new_lexer("  z + 4.5");
    assert_eq!(lexer.peek(), Some(Token::VarZ));
    assert_eq!(lexer.next(), Some(Token::VarZ));
    assert_eq!(lexer.peek(), Some(Token::Add));
    assert_eq!(lexer.next(), Some(Token::Add));
    assert_eq!(lexer.next(), Some(Token::Float("4.5".to_string())));
    assert_eq!(lexer.peek(), None);
    assert_eq!(lexer.next(), None);
}

#[test]
fn lexer_classifies_characters() {
    assert!(is_digit_char(&'7'));
    assert!(is_digit_char(&'.'));
    assert!(!is_digit_char(&'z'));
    assert!(is_id_char(&'q'));
    assert!(is_id_char(&'_'));
    assert!(!is_id_char(&'3'));
}

#[test]
fn function_names_are_the_fixed_table() {
    assert_eq!(fun_from_str("sqrt"), Some(Function::Sqrt));
    assert_eq!(fun_from_str("exp"), Some(Function::Exp));
    assert_eq!(fun_from_str("sin"), Some(Function::Sin));
    assert_eq!(fun_from_str("cos"), Some(Function::Cos));
    assert_eq!(fun_from_str("tan"), Some(Function::Tan));
    assert_eq!(fun_from_str("cot"), Some(Function::Cot));
    assert_eq!(fun_from_str("sec"), Some(Function::Sec));
    assert_eq!(fun_from_str("csc"), Some(Function::Csc));
    assert_eq!(fun_from_str("sinh"), Some(Function::Sinh));
    assert_eq!(fun_from_str("cosh"), Some(Function::Cosh));
    assert_eq!(fun_from_str("tanh"), Some(Function::Tanh));
    assert_eq!(fun_from_str("coth"), Some(Function::Coth));
    assert_eq!(fun_from_str("sech"), Some(Function::Sech));
    assert_eq!(fun_from_str("csch"), Some(Function::Csch));
    assert_eq!(fun_from_str("Re"), Some(Function::Re));
    assert_eq!(fun_from_str("Im"), Some(Function::Im));
    assert_eq!(fun_from_str("log"), None);
    assert_eq!(fun_from_str("Sin"), None);
}

#[test]
fn evaluator_applies_each_operation() {
    // addition and subtraction move the point
    let (re, im) = c_to_f(&parse_to_fn("z+i").unwrap().eval(&c_f(1.0, 0.0)));
    assert_eq!((re, im), (1.0, 1.0));
    let (re, im) = c_to_f(&parse_to_fn("z-i").unwrap().eval(&c_f(0.0, 0.0)));
    assert_eq!((re, im), (0.0, -1.0));
    // division
    let (re, im) = c_to_f(&parse_to_fn("z/2").unwrap().eval(&c_f(4.0, 0.0)));
    assert_eq!((re, im), (2.0, 0.0));
    // the principal-branch power
    let (re, im) = c_to_f(&parse_to_fn("z^2").unwrap().eval(&c_f(0.0, 1.0)));
    assert!((re - -1.0).abs() < 1e-9 && im.abs() < 1e-9, "got {re} {im}");
    // negation, reachable only through a hand-built unary node
    let neg = Node::Unary {
        op: Token::Sub,
        child: Box::new(Node::Var),
    }
    .to_closure();
    assert_eq!(c_to_f(&neg.eval(&c_f(3.0, -1.5))), (-3.0, 1.5));
}

#[test]
fn evaluator_applies_named_functions() {
    let at = |formula: &str, re: f64, im: f64| c_to_f(&parse_to_fn(formula).unwrap().eval(&c_f(re, im)));
    assert_eq!(at("exp(z)", 0.0, 0.0), (1.0, 0.0));
    assert_eq!(at("sin(z)", 0.0, 0.0), (0.0, 0.0));
    assert_eq!(at("cos(z)", 0.0, 0.0), (1.0, 0.0));
    assert_eq!(at("sqrt(z)", 4.0, 0.0), (2.0, 0.0));
    assert_eq!(at("sinh(z)", 0.0, 0.0), (0.0, 0.0));
    assert_eq!(at("cosh(z)", 0.0, 0.0), (1.0, 0.0));
    assert_eq!(at("tanh(z)", 0.0, 0.0), (0.0, 0.0));
    // the reciprocal functions
    assert_eq!(at("sec(z)", 0.0, 0.0), (1.0, 0.0));
    assert_eq!(at("sech(z)", 0.0, 0.0), (1.0, 0.0));
    let (re, im) = at("tan(z)", 0.78539816339744830961, 0.0);
    assert!((re - 1.0).abs() < 1e-9 && im.abs() < 1e-9, "got {re} {im}");
    let (re, im) = at("cot(z)", 0.78539816339744830961, 0.0);
    assert!((re - 1.0).abs() < 1e-9 && im.abs() < 1e-9, "got {re} {im}");
    let (re, im) = at("csc(z)", 1.57079632679489661923, 0.0);
    assert!((re - 1.0).abs() < 1e-9 && im.abs() < 1e-9, "got {re} {im}");
    let (re, im) = at("coth(z)", 1.0, 0.0);
    assert!((re - 1.0 / 1.0_f64.tanh()).abs() < 1e-9, "got {re} {im}");
    let (re, im) = at("csch(z)", 1.0, 0.0);
    assert!((re - 1.0 / 1.0_f64.sinh()).abs() < 1e-9, "got {re} {im}");
    // component extraction: the other component is zero
    assert_eq!(at("Re(z)", 3.0, 4.0), (3.0, 0.0));
    assert_eq!(at("Im(z)", 3.0, 4.0), (0.0, 4.0));
}

#[test]
fn whitespace_is_skipped_everywhere() {
    assert_eq!(parse(" z \t*\n( 3 + i )\r").unwrap(), z_times_3_plus_i());
}

#[test]
fn component_renderings_are_recognized() {
    assert!(check_scalar("3.5"));
    assert!(check_scalar("-0.125"));
    assert!(check_scalar("3."));
    assert!(check_scalar(".5"));
    assert!(check_scalar("inf"));
    assert!(check_scalar("-inf"));
    assert!(check_scalar("NaN"));
    assert!(!check_scalar("."));
    assert!(!check_scalar("-"));
    assert!(!check_scalar("1e5"));
    assert!(!check_scalar("nan"));
    assert!(!check_scalar("1.2.3"));
    let real = domain_coloring::complex::C::from_real("2.5".to_string()).unwrap();
    assert_eq!(real.re(), "2.5");
    assert_eq!(real.im(), "0");
}

#[test]
fn invalid_component_renderings_are_refused() {
    assert!(C::new("abc".to_string(), "0".to_string()).is_none());
    assert!(C::new("1".to_string(), "1.2.3".to_string()).is_none());
    assert!(C::new("".to_string(), "0".to_string()).is_none());
    assert!(C::new("-5".to_string(), "0.125".to_string()).is_some());
    assert!(C::new("inf".to_string(), "-inf".to_string()).is_some());
    assert!(C::new("NaN".to_string(), "0".to_string()).is_some());
}
