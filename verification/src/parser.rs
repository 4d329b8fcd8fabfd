//! Recursive-descent parser for the formula grammar
//!
//! ```text
//! expr      := term (('+' | '-') term)*
//! term      := factor ( ('*' | '/') factor | factor )*
//! factor    := base ('^' factor)?
//! base      := FLOAT | 'i' | 'z' | FUNCTION par_expr | par_expr
//! par_expr  := '(' expr ')'
//! ```
//!
//! The trailing alternative in `term` is implicit multiplication: where no
//! explicit `*` or `/` follows, the parser attempts another factor, and
//! success synthesizes a multiplication node; on failure the attempt consumes
//! nothing. Exponentiation is right-associative. Input left over after the
//! top-level expression is a syntax error.

use vstd::prelude::*;

verus! {

use crate::ast::Node;
use crate::ast::NodeV;
use crate::ast::node_view;
use crate::complex::C;
use crate::complex::CVal;
use crate::complex::dec_ok;
use crate::complex::one_string;
use crate::complex::valid_scalar;
use crate::complex::zero_string;
use crate::lexer::LexError;
use crate::lexer::Lexer;
use crate::lexer::Token;
use crate::lexer::TokenV;
use crate::lexer::is_digit_or_dot;
use crate::lexer::is_space;
use crate::lexer::lemma_next_token_bounds;
use crate::lexer::lemma_scan_number_bounds;
use crate::lexer::new_lexer;
use crate::lexer::next_token;
use crate::lexer::scan_number;

/// A parse failure: the kind of fault. A human-readable description comes
/// from [`ParseError::message`].
#[derive(Clone, Copy, PartialEq, Eq, Structural, Debug)]
pub enum ParseError {
    /// A lexical fault, surfaced by the parser.
    Lexical(LexError),
    /// A position where a constant, `z`, `i`, a parenthesized expression or
    /// a function call was required held something else, or the input ended.
    ExpectedAtom,
    /// An opened parenthesis was never closed.
    MissingClosingParen,
    /// A function name was not followed by a parenthesized argument.
    MissingOpeningParen,
    /// Input was left over after the top-level expression.
    TrailingInput,
}

/// The description [`ParseError::message`] returns.
pub open spec fn message_v(e: ParseError) -> Seq<char> {
    match e {
        ParseError::Lexical(LexError::DoubleDecimal) => "A numeric literal holds a second decimal point"@,
        ParseError::Lexical(LexError::InvalidCharacter) => "Invalid character"@,
        ParseError::Lexical(LexError::InvalidNumber) => "A numeric literal holds no digits"@,
        ParseError::Lexical(LexError::UnknownIdentifier) => "Unrecognized function name"@,
        ParseError::ExpectedAtom => "Expected a constant, \"z\", \"i\", an expression in parentheses, or a function call. "@,
        ParseError::MissingClosingParen => "Expected a closing parenthesis"@,
        ParseError::MissingOpeningParen => "Expected an opening parenthesis"@,
        ParseError::TrailingInput => "Unexpected input after the end of the expression"@,
    }
}

impl ParseError {
    /// A human-readable description of the failure.
    pub fn message(&self) -> (r: String)
        ensures
            r@ == message_v(*self),
    {
        match self {
            ParseError::Lexical(LexError::DoubleDecimal) => String::from_str(
                "A numeric literal holds a second decimal point",
            ),
            ParseError::Lexical(LexError::InvalidCharacter) => String::from_str(
                "Invalid character",
            ),
            ParseError::Lexical(LexError::InvalidNumber) => String::from_str(
                "A numeric literal holds no digits",
            ),
            ParseError::Lexical(LexError::UnknownIdentifier) => String::from_str(
                "Unrecognized function name",
            ),
            ParseError::ExpectedAtom => String::from_str(
                "Expected a constant, \"z\", \"i\", an expression in parentheses, or a function call. ",
            ),
            ParseError::MissingClosingParen => String::from_str("Expected a closing parenthesis"),
            ParseError::MissingOpeningParen => String::from_str("Expected an opening parenthesis"),
            ParseError::TrailingInput => String::from_str(
                "Unexpected input after the end of the expression",
            ),
        }
    }
}

/// How an executable parse result corresponds to a specified one.
pub open spec fn res_matches(r: Result<Node, ParseError>, s: Result<NodeV, ParseError>) -> bool {
    match (r, s) {
        (Result::Ok(n), Result::Ok(nv)) => node_view(n) == nv,
        (Result::Err(a), Result::Err(b)) => a == b,
        _ => false,
    }
}

// The grammar, as spec functions. Each takes the input and the position the
// production starts at, and returns the parsed tree or the fault, together
// with the position the production stopped at (also on a fault: the parser
// does not rewind what a failed inner production consumed, except for the
// implicit-multiplication attempt, which is the one speculative step).
//
// Termination: every guarded recursive step either moves the position
// forward or goes to a production of strictly smaller rank at the same
// position. The position guards are provable facts (see the bounds lemmas
// below); where a guard would fail the functions return a harmless default
// that executable code never reproduces.

pub open spec fn sp_base(s: Seq<char>, i: nat) -> (Result<NodeV, ParseError>, nat)
    decreases s.len() - i, 1nat,
{
    match next_token(s, i) {
        (Option::None, _) => (Result::Err(ParseError::ExpectedAtom), i),
        (Option::Some(tv), j) => match tv {
            TokenV::Float(d) => (
                Result::Ok(NodeV::Const { val: CVal { re: d, im: seq!['0'] } }),
                j,
            ),
            TokenV::ComplexI => (
                Result::Ok(NodeV::Const { val: CVal { re: seq!['0'], im: seq!['1'] } }),
                j,
            ),
            TokenV::VarZ => (Result::Ok(NodeV::Var), j),
            TokenV::Fun(f) => {
                if i < j <= s.len() {
                    match sp_par_expr(s, j) {
                        (Result::Ok(arg), k) => (
                            Result::Ok(NodeV::Fun { fun: f, arg: Box::new(arg) }),
                            k,
                        ),
                        (Result::Err(e), k) => (Result::Err(e), k),
                    }
                } else {
                    (Result::Err(ParseError::ExpectedAtom), i)
                }
            },
            TokenV::LParen => sp_par_expr(s, i),
            TokenV::Error(e) => (Result::Err(ParseError::Lexical(e)), i),
            _ => (Result::Err(ParseError::ExpectedAtom), i),
        },
    }
}

pub open spec fn sp_par_expr(s: Seq<char>, i: nat) -> (Result<NodeV, ParseError>, nat)
    decreases s.len() - i, 0nat,
{
    match next_token(s, i) {
        (Option::Some(TokenV::LParen), j) => {
            if i < j <= s.len() {
                let (r, k) = sp_expr(s, j);
                match next_token(s, k) {
                    (Option::Some(TokenV::RParen), m) => (r, m),
                    _ => (Result::Err(ParseError::MissingClosingParen), k),
                }
            } else {
                (Result::Err(ParseError::MissingOpeningParen), i)
            }
        },
        _ => (Result::Err(ParseError::MissingOpeningParen), i),
    }
}

pub open spec fn sp_factor(s: Seq<char>, i: nat) -> (Result<NodeV, ParseError>, nat)
    decreases s.len() - i, 2nat,
{
    match sp_base(s, i) {
        (Result::Err(e), j) => (Result::Err(e), j),
        (Result::Ok(left), j) => match next_token(s, j) {
            (Option::Some(TokenV::Pow), k) => {
                if i < k <= s.len() {
                    match sp_factor(s, k) {
                        (Result::Ok(right), m) => (
                            Result::Ok(
                                NodeV::Binary {
                                    op: TokenV::Pow,
                                    left: Box::new(left),
                                    right: Box::new(right),
                                },
                            ),
                            m,
                        ),
                        (Result::Err(e), m) => (Result::Err(e), m),
                    }
                } else {
                    (Result::Ok(left), j)
                }
            },
            _ => (Result::Ok(left), j),
        },
    }
}

pub open spec fn sp_term(s: Seq<char>, i: nat) -> (Result<NodeV, ParseError>, nat)
    decreases s.len() - i, 3nat,
{
    match sp_factor(s, i) {
        (Result::Err(e), j) => (Result::Err(e), j),
        (Result::Ok(left), j) => {
            if i < j <= s.len() {
                sp_term_tail(s, left, j)
            } else {
                (Result::Ok(left), j)
            }
        },
    }
}

pub open spec fn sp_term_tail(s: Seq<char>, left: NodeV, i: nat) -> (Result<
    NodeV,
    ParseError,
>, nat)
    decreases s.len() - i, 4nat,
{
    let (t, j) = next_token(s, i);
    if (t == Option::Some(TokenV::Mult) || t == Option::Some(TokenV::Div)) && i < j <= s.len() {
        let op = if t == Option::Some(TokenV::Mult) {
            TokenV::Mult
        } else {
            TokenV::Div
        };
        match sp_factor(s, j) {
            (Result::Err(e), k) => (Result::Err(e), k),
            (Result::Ok(right), k) => {
                let node = NodeV::Binary { op, left: Box::new(left), right: Box::new(right) };
                if i < k <= s.len() {
                    sp_term_tail(s, node, k)
                } else {
                    (Result::Ok(node), k)
                }
            },
        }
    } else {
        // implicit multiplication: attempt a factor; a failed attempt
        // consumes nothing
        match sp_factor(s, i) {
            (Result::Ok(right), k) => {
                let node = NodeV::Binary {
                    op: TokenV::Mult,
                    left: Box::new(left),
                    right: Box::new(right),
                };
                if i < k <= s.len() {
                    sp_term_tail(s, node, k)
                } else {
                    (Result::Ok(node), k)
                }
            },
            (Result::Err(_), _) => (Result::Ok(left), i),
        }
    }
}

pub open spec fn sp_expr(s: Seq<char>, i: nat) -> (Result<NodeV, ParseError>, nat)
    decreases s.len() - i, 5nat,
{
    match sp_term(s, i) {
        (Result::Err(e), j) => (Result::Err(e), j),
        (Result::Ok(left), j) => {
            if i < j <= s.len() {
                sp_expr_tail(s, left, j)
            } else {
                (Result::Ok(left), j)
            }
        },
    }
}

pub open spec fn sp_expr_tail(s: Seq<char>, left: NodeV, i: nat) -> (Result<
    NodeV,
    ParseError,
>, nat)
    decreases s.len() - i, 6nat,
{
    let (t, j) = next_token(s, i);
    if (t == Option::Some(TokenV::Add) || t == Option::Some(TokenV::Sub)) && i < j <= s.len() {
        let op = if t == Option::Some(TokenV::Add) {
            TokenV::Add
        } else {
            TokenV::Sub
        };
        match sp_term(s, j) {
            (Result::Err(e), k) => (Result::Err(e), k),
            (Result::Ok(right), k) => {
                let node = NodeV::Binary { op, left: Box::new(left), right: Box::new(right) };
                if i < k <= s.len() {
                    sp_expr_tail(s, node, k)
                } else {
                    (Result::Ok(node), k)
                }
            },
        }
    } else {
        (Result::Ok(left), i)
    }
}

/// What parsing a whole formula yields: the top-level expression, which must
/// consume the entire input. A lexical error token standing where the input
/// should have ended surfaces as the lexical fault itself.
pub open spec fn sp_parse(s: Seq<char>) -> Result<NodeV, ParseError> {
    let (r, j) = sp_expr(s, 0);
    match r {
        Result::Err(e) => Result::Err(e),
        Result::Ok(node) => match next_token(s, j) {
            (Option::None, _) => Result::Ok(node),
            (Option::Some(TokenV::Error(e)), _) => Result::Err(ParseError::Lexical(e)),
            _ => Result::Err(ParseError::TrailingInput),
        },
    }
}

// Bounds: every production stops within the input and no earlier than it
// started, and a successful production consumes at least one token.

pub proof fn lemma_base_bounds(s: Seq<char>, i: nat)
    requires
        i <= s.len(),
    ensures
        i <= sp_base(s, i).1 <= s.len(),
        sp_base(s, i).0 is Ok ==> sp_base(s, i).1 > i,
    decreases s.len() - i, 1nat,
{
    lemma_next_token_bounds(s, i);
    let (t, j) = next_token(s, i);
    match t {
        Option::Some(TokenV::Fun(_)) => {
            if i < j <= s.len() {
                lemma_par_expr_bounds(s, j);
            }
        },
        Option::Some(TokenV::LParen) => {
            lemma_par_expr_bounds(s, i);
        },
        _ => {},
    }
}

pub proof fn lemma_par_expr_bounds(s: Seq<char>, i: nat)
    requires
        i <= s.len(),
    ensures
        i <= sp_par_expr(s, i).1 <= s.len(),
        sp_par_expr(s, i).0 is Ok ==> sp_par_expr(s, i).1 > i,
    decreases s.len() - i, 0nat,
{
    lemma_next_token_bounds(s, i);
    match next_token(s, i) {
        (Option::Some(TokenV::LParen), j) => {
            if i < j <= s.len() {
                lemma_expr_bounds(s, j);
                let (_, k) = sp_expr(s, j);
                lemma_next_token_bounds(s, k);
            }
        },
        _ => {},
    }
}

pub proof fn lemma_factor_bounds(s: Seq<char>, i: nat)
    requires
        i <= s.len(),
    ensures
        i <= sp_factor(s, i).1 <= s.len(),
        sp_factor(s, i).0 is Ok ==> sp_factor(s, i).1 > i,
    decreases s.len() - i, 2nat,
{
    lemma_base_bounds(s, i);
    match sp_base(s, i) {
        (Result::Ok(_), j) => {
            lemma_next_token_bounds(s, j);
            match next_token(s, j) {
                (Option::Some(TokenV::Pow), k) => {
                    if i < k <= s.len() {
                        lemma_factor_bounds(s, k);
                    }
                },
                _ => {},
            }
        },
        _ => {},
    }
}

pub proof fn lemma_term_tail_bounds(s: Seq<char>, left: NodeV, i: nat)
    requires
        i <= s.len(),
    ensures
        i <= sp_term_tail(s, left, i).1 <= s.len(),
    decreases s.len() - i, 4nat,
{
    lemma_next_token_bounds(s, i);
    let (t, j) = next_token(s, i);
    if (t == Option::Some(TokenV::Mult) || t == Option::Some(TokenV::Div)) && i < j <= s.len() {
        let op = if t == Option::Some(TokenV::Mult) {
            TokenV::Mult
        } else {
            TokenV::Div
        };
        lemma_factor_bounds(s, j);
        match sp_factor(s, j) {
            (Result::Ok(right), k) => {
                let node = NodeV::Binary { op, left: Box::new(left), right: Box::new(right) };
                if i < k <= s.len() {
                    lemma_term_tail_bounds(s, node, k);
                }
            },
            _ => {},
        }
    } else {
        lemma_factor_bounds(s, i);
        match sp_factor(s, i) {
            (Result::Ok(right), k) => {
                let node = NodeV::Binary {
                    op: TokenV::Mult,
                    left: Box::new(left),
                    right: Box::new(right),
                };
                if i < k <= s.len() {
                    lemma_term_tail_bounds(s, node, k);
                }
            },
            _ => {},
        }
    }
}

pub proof fn lemma_term_bounds(s: Seq<char>, i: nat)
    requires
        i <= s.len(),
    ensures
        i <= sp_term(s, i).1 <= s.len(),
        sp_term(s, i).0 is Ok ==> sp_term(s, i).1 > i,
    decreases s.len() - i, 3nat,
{
    lemma_factor_bounds(s, i);
    match sp_factor(s, i) {
        (Result::Ok(left), j) => {
            if i < j <= s.len() {
                lemma_term_tail_bounds(s, left, j);
            }
        },
        _ => {},
    }
}

pub proof fn lemma_expr_tail_bounds(s: Seq<char>, left: NodeV, i: nat)
    requires
        i <= s.len(),
    ensures
        i <= sp_expr_tail(s, left, i).1 <= s.len(),
    decreases s.len() - i, 6nat,
{
    lemma_next_token_bounds(s, i);
    let (t, j) = next_token(s, i);
    if (t == Option::Some(TokenV::Add) || t == Option::Some(TokenV::Sub)) && i < j <= s.len() {
        let op = if t == Option::Some(TokenV::Add) {
            TokenV::Add
        } else {
            TokenV::Sub
        };
        lemma_term_bounds(s, j);
        match sp_term(s, j) {
            (Result::Ok(right), k) => {
                let node = NodeV::Binary { op, left: Box::new(left), right: Box::new(right) };
                if i < k <= s.len() {
                    lemma_expr_tail_bounds(s, node, k);
                }
            },
            _ => {},
        }
    }
}

pub proof fn lemma_expr_bounds(s: Seq<char>, i: nat)
    requires
        i <= s.len(),
    ensures
        i <= sp_expr(s, i).1 <= s.len(),
        sp_expr(s, i).0 is Ok ==> sp_expr(s, i).1 > i,
    decreases s.len() - i, 5nat,
{
    lemma_term_bounds(s, i);
    match sp_term(s, i) {
        (Result::Ok(left), j) => {
            if i < j <= s.len() {
                lemma_expr_tail_bounds(s, left, j);
            }
        },
        _ => {},
    }
}

/// The digit string of a scanned numeric literal is a valid component
/// rendering: only digits and at most one decimal point, and a digit.
proof fn lemma_scan_number_valid(s: Seq<char>, i: nat, d: bool, g: bool)
    requires
        i <= s.len(),
    ensures
        ({
            let (end, err) = scan_number(s, i, d, g);
            err is None ==> dec_ok(s.subrange(i as int, end as int), d, g)
        }),
    decreases s.len() - i,
{
    lemma_scan_number_bounds(s, i, d, g);
    let (end, err) = scan_number(s, i, d, g);
    if i < s.len() && is_digit_or_dot(s[i as int]) {
        if s[i as int] == '.' && d {
        } else if s[i as int] == '.' {
            lemma_scan_number_valid(s, (i + 1) as nat, true, g);
            if err is None {
                assert(s.subrange(i as int, end as int).skip(1) =~= s.subrange(
                    i as int + 1,
                    end as int,
                ));
            }
        } else {
            lemma_scan_number_valid(s, (i + 1) as nat, d, true);
            if err is None {
                assert(s.subrange(i as int, end as int).skip(1) =~= s.subrange(
                    i as int + 1,
                    end as int,
                ));
            }
        }
    } else {
        assert(s.subrange(i as int, i as int) =~= Seq::<char>::empty());
    }
}

/// A numeric-literal token carries a valid component rendering.
pub proof fn lemma_float_token_valid(s: Seq<char>, i: nat)
    requires
        i <= s.len(),
    ensures
        (match next_token(s, i).0 {
            Option::Some(TokenV::Float(d)) => valid_scalar(d),
            _ => true,
        }),
    decreases s.len() - i,
{
    if i < s.len() {
        let c = s[i as int];
        if is_space(c) {
            lemma_float_token_valid(s, (i + 1) as nat);
        } else if !(c == '+' || c == '-' || c == '*' || c == '/' || c == '^' || c == '(' || c
            == ')') && is_digit_or_dot(c) {
            lemma_scan_number_valid(s, i, false, false);
        }
    }
}

/// The component renderings the parser writes into constants are valid.
proof fn lemma_digit_literals_valid()
    ensures
        valid_scalar(seq!['0']),
        valid_scalar(seq!['1']),
    decreases 0nat,
{
    assert(seq!['0'].skip(1) =~= Seq::<char>::empty());
    assert(seq!['1'].skip(1) =~= Seq::<char>::empty());
    assert(dec_ok(Seq::<char>::empty(), false, true));
    assert(dec_ok(seq!['0'], false, false));
    assert(dec_ok(seq!['1'], false, false));
}

/// Parses a whole formula into a syntax tree.
pub fn parse(str_buf: &str) -> (r: Result<Node, ParseError>)
    ensures
        res_matches(r, sp_parse(str_buf@)),
        (r matches Result::Ok(n) ==> n.wf()),
{
    let mut lexer = new_lexer(str_buf);
    let e = expr(&mut lexer);
    proof {
        lemma_next_token_bounds(lexer.buffer@, lexer.pos as nat);
    }
    match e {
        Result::Err(err) => Result::Err(err),
        Result::Ok(node) => {
            match lexer.peek() {
                Option::None => Result::Ok(node),
                Option::Some(Token::Error(le)) => Result::Err(ParseError::Lexical(le)),
                Option::Some(_) => Result::Err(ParseError::TrailingInput),
            }
        },
    }
}

/// Parses a whole formula and compiles it into a reusable evaluator.
pub fn parse_to_fn(fun_str: &str) -> (r: Result<crate::ast::CompiledFunction, ParseError>)
    ensures
        (match (r, sp_parse(fun_str@)) {
            (Result::Ok(cf), Result::Ok(nv)) => cf@ == nv && cf.wf(),
            (Result::Err(a), Result::Err(b)) => a == b,
            _ => false,
        }),
{
    match parse(fun_str) {
        Result::Ok(node) => Result::Ok(node.to_closure()),
        Result::Err(e) => Result::Err(e),
    }
}

fn expr(lexer: &mut Lexer) -> (r: Result<Node, ParseError>)
    requires
        old(lexer).wf(),
    ensures
        final(lexer).wf(),
        final(lexer).buffer@ == old(lexer).buffer@,
        res_matches(r, sp_expr(old(lexer).buffer@, old(lexer).pos as nat).0),
        final(lexer).pos as nat == sp_expr(old(lexer).buffer@, old(lexer).pos as nat).1,
        (r matches Result::Ok(n) ==> n.wf()),
    decreases lexer.buffer@.len() - lexer.pos, 5nat,
{
    let ghost s = lexer.buffer@;
    let ghost i = lexer.pos as nat;
    proof {
        lemma_term_bounds(s, i);
    }
    match term(lexer) {
        Result::Err(e) => Result::Err(e),
        Result::Ok(left) => expr_tail(lexer, left),
    }
}

fn expr_tail(lexer: &mut Lexer, left: Node) -> (r: Result<Node, ParseError>)
    requires
        old(lexer).wf(),
        left.wf(),
    ensures
        final(lexer).wf(),
        final(lexer).buffer@ == old(lexer).buffer@,
        res_matches(r, sp_expr_tail(old(lexer).buffer@, node_view(left), old(lexer).pos as nat).0),
        final(lexer).pos as nat == sp_expr_tail(
            old(lexer).buffer@,
            node_view(left),
            old(lexer).pos as nat,
        ).1,
        (r matches Result::Ok(n) ==> n.wf()),
    decreases lexer.buffer@.len() - lexer.pos, 6nat,
{
    let ghost s = lexer.buffer@;
    let ghost i = lexer.pos as nat;
    proof {
        lemma_next_token_bounds(s, i);
    }
    let t = lexer.peek();
    let is_add = matches!(t, Option::Some(Token::Add));
    let is_sub = matches!(t, Option::Some(Token::Sub));
    if is_add || is_sub {
        let op = lexer.next().unwrap();
        proof {
            lemma_term_bounds(s, lexer.pos as nat);
        }
        match term(lexer) {
            Result::Err(e) => Result::Err(e),
            Result::Ok(right) => {
                let node = Node::Binary {
                    op: if is_add {
                        Token::Add
                    } else {
                        Token::Sub
                    },
                    left: Box::new(left),
                    right: Box::new(right),
                };
                expr_tail(lexer, node)
            },
        }
    } else {
        Result::Ok(left)
    }
}

fn term(lexer: &mut Lexer) -> (r: Result<Node, ParseError>)
    requires
        old(lexer).wf(),
    ensures
        final(lexer).wf(),
        final(lexer).buffer@ == old(lexer).buffer@,
        res_matches(r, sp_term(old(lexer).buffer@, old(lexer).pos as nat).0),
        final(lexer).pos as nat == sp_term(old(lexer).buffer@, old(lexer).pos as nat).1,
        (r matches Result::Ok(n) ==> n.wf()),
    decreases lexer.buffer@.len() - lexer.pos, 3nat,
{
    let ghost s = lexer.buffer@;
    let ghost i = lexer.pos as nat;
    proof {
        lemma_factor_bounds(s, i);
    }
    match factor(lexer) {
        Result::Err(e) => Result::Err(e),
        Result::Ok(left) => term_tail(lexer, left),
    }
}

fn term_tail(lexer: &mut Lexer, left: Node) -> (r: Result<Node, ParseError>)
    requires
        old(lexer).wf(),
        left.wf(),
    ensures
        final(lexer).wf(),
        final(lexer).buffer@ == old(lexer).buffer@,
        res_matches(r, sp_term_tail(old(lexer).buffer@, node_view(left), old(lexer).pos as nat).0),
        final(lexer).pos as nat == sp_term_tail(
            old(lexer).buffer@,
            node_view(left),
            old(lexer).pos as nat,
        ).1,
        (r matches Result::Ok(n) ==> n.wf()),
    decreases lexer.buffer@.len() - lexer.pos, 4nat,
{
    let ghost s = lexer.buffer@;
    let ghost i = lexer.pos as nat;
    proof {
        lemma_next_token_bounds(s, i);
    }
    let t = lexer.peek();
    let is_mult = matches!(t, Option::Some(Token::Mult));
    let is_div = matches!(t, Option::Some(Token::Div));
    if is_mult || is_div {
        let _ = lexer.next();
        proof {
            lemma_factor_bounds(s, lexer.pos as nat);
        }
        match factor(lexer) {
            Result::Err(e) => Result::Err(e),
            Result::Ok(right) => {
                let node = Node::Binary {
                    op: if is_mult {
                        Token::Mult
                    } else {
                        Token::Div
                    },
                    left: Box::new(left),
                    right: Box::new(right),
                };
                term_tail(lexer, node)
            },
        }
    } else {
        // implicit multiplication: attempt a factor, rewinding on failure
        let save = lexer.pos;
        proof {
            lemma_factor_bounds(s, i);
        }
        match factor(lexer) {
            Result::Ok(right) => {
                let node = Node::Binary {
                    op: Token::Mult,
                    left: Box::new(left),
                    right: Box::new(right),
                };
                term_tail(lexer, node)
            },
            Result::Err(_) => {
                lexer.pos = save;
                Result::Ok(left)
            },
        }
    }
}

fn factor(lexer: &mut Lexer) -> (r: Result<Node, ParseError>)
    requires
        old(lexer).wf(),
    ensures
        final(lexer).wf(),
        final(lexer).buffer@ == old(lexer).buffer@,
        res_matches(r, sp_factor(old(lexer).buffer@, old(lexer).pos as nat).0),
        final(lexer).pos as nat == sp_factor(old(lexer).buffer@, old(lexer).pos as nat).1,
        (r matches Result::Ok(n) ==> n.wf()),
    decreases lexer.buffer@.len() - lexer.pos, 2nat,
{
    let ghost s = lexer.buffer@;
    let ghost i = lexer.pos as nat;
    proof {
        lemma_base_bounds(s, i);
    }
    match base(lexer) {
        Result::Err(e) => Result::Err(e),
        Result::Ok(left) => {
            proof {
                lemma_next_token_bounds(s, lexer.pos as nat);
            }
            let t = lexer.peek();
            if matches!(t, Option::Some(Token::Pow)) {
                let _ = lexer.next();
                proof {
                    lemma_factor_bounds(s, lexer.pos as nat);
                }
                match factor(lexer) {
                    Result::Err(e) => Result::Err(e),
                    Result::Ok(right) => Result::Ok(
                        Node::Binary {
                            op: Token::Pow,
                            left: Box::new(left),
                            right: Box::new(right),
                        },
                    ),
                }
            } else {
                Result::Ok(left)
            }
        },
    }
}

fn base(lexer: &mut Lexer) -> (r: Result<Node, ParseError>)
    requires
        old(lexer).wf(),
    ensures
        final(lexer).wf(),
        final(lexer).buffer@ == old(lexer).buffer@,
        res_matches(r, sp_base(old(lexer).buffer@, old(lexer).pos as nat).0),
        final(lexer).pos as nat == sp_base(old(lexer).buffer@, old(lexer).pos as nat).1,
        (r matches Result::Ok(n) ==> n.wf()),
    decreases lexer.buffer@.len() - lexer.pos, 1nat,
{
    let ghost s = lexer.buffer@;
    let ghost i = lexer.pos as nat;
    proof {
        lemma_next_token_bounds(s, i);
        lemma_float_token_valid(s, i);
        lemma_digit_literals_valid();
    }
    let t = lexer.peek();
    match t {
        Option::None => Result::Err(ParseError::ExpectedAtom),
        Option::Some(Token::Float(d)) => {
            let _ = lexer.next();
            Result::Ok(Node::Const { val: C { re: d, im: zero_string() } })
        },
        Option::Some(Token::ComplexI) => {
            let _ = lexer.next();
            Result::Ok(Node::Const { val: C { re: zero_string(), im: one_string() } })
        },
        Option::Some(Token::VarZ) => {
            let _ = lexer.next();
            Result::Ok(Node::Var)
        },
        Option::Some(Token::Fun(f)) => {
            let _ = lexer.next();
            match par_expr(lexer) {
                Result::Err(e) => Result::Err(e),
                Result::Ok(arg) => Result::Ok(Node::Fun { fun: f, arg: Box::new(arg) }),
            }
        },
        Option::Some(Token::LParen) => par_expr(lexer),
        Option::Some(Token::Error(e)) => Result::Err(ParseError::Lexical(e)),
        Option::Some(_) => Result::Err(ParseError::ExpectedAtom),
    }
}

fn par_expr(lexer: &mut Lexer) -> (r: Result<Node, ParseError>)
    requires
        old(lexer).wf(),
    ensures
        final(lexer).wf(),
        final(lexer).buffer@ == old(lexer).buffer@,
        res_matches(r, sp_par_expr(old(lexer).buffer@, old(lexer).pos as nat).0),
        final(lexer).pos as nat == sp_par_expr(old(lexer).buffer@, old(lexer).pos as nat).1,
        (r matches Result::Ok(n) ==> n.wf()),
    decreases lexer.buffer@.len() - lexer.pos, 0nat,
{
    let ghost s = lexer.buffer@;
    let ghost i = lexer.pos as nat;
    proof {
        lemma_next_token_bounds(s, i);
    }
    let t = lexer.peek();
    if matches!(t, Option::Some(Token::LParen)) {
        let _ = lexer.next();
        proof {
            lemma_expr_bounds(s, lexer.pos as nat);
        }
        let inner = expr(lexer);
        proof {
            lemma_next_token_bounds(s, lexer.pos as nat);
        }
        let t2 = lexer.peek();
        if matches!(t2, Option::Some(Token::RParen)) {
            let _ = lexer.next();
            inner
        } else {
            Result::Err(ParseError::MissingClosingParen)
        }
    } else {
        Result::Err(ParseError::MissingOpeningParen)
    }
}

} // verus!
