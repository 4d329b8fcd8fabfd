//! Lexer: turns a formula string into tokens, one at a time, with one-token
//! lookahead. Whitespace is skipped. A numeric literal is a run of digits
//! with at most one decimal point; a second point within one literal, a run
//! with no digit at all, an identifier that is neither `i`, `z` nor a known
//! function name, and any other unexpected character each yield an error
//! token rather than a panic or a silent end of the stream.

use vstd::prelude::*;

verus! {

use crate::complex::is_digit;

/// A lexical fault, carried inside an error token.
#[derive(Clone, Copy, PartialEq, Eq, Structural, Debug)]
pub enum LexError {
    /// A numeric literal held a second decimal point.
    DoubleDecimal,
    /// A character that can begin no token.
    InvalidCharacter,
    /// A numeric literal (a lone decimal point) with no digit in it.
    InvalidNumber,
    /// An identifier that is not `i`, `z`, or a known function name.
    UnknownIdentifier,
}

/// The fixed set of function names the language knows.
#[derive(Clone, Copy, PartialEq, Eq, Structural, Debug)]
pub enum Function {
    Sqrt,
    Exp,
    Sin,
    Cos,
    Tan,
    Cot,
    Sec,
    Csc,
    Sinh,
    Cosh,
    Tanh,
    Coth,
    Sech,
    Csch,
    Re,
    Im,
}

/// One token. A numeric literal carries its digit string; its `f64` value is
/// taken from it only when an evaluator is compiled.
#[derive(Clone, PartialEq, Debug)]
pub enum Token {
    Float(String),
    ComplexI,
    VarZ,
    Fun(Function),
    Add,
    Sub,
    Mult,
    Div,
    Pow,
    LParen,
    RParen,
    Error(LexError),
}

/// The mathematical value of a [`Token`].
pub enum TokenV {
    Float(Seq<char>),
    ComplexI,
    VarZ,
    Fun(Function),
    Add,
    Sub,
    Mult,
    Div,
    Pow,
    LParen,
    RParen,
    Error(LexError),
}

impl View for Token {
    type V = TokenV;

    open spec fn view(&self) -> TokenV {
        match self {
            Token::Float(s) => TokenV::Float(s@),
            Token::ComplexI => TokenV::ComplexI,
            Token::VarZ => TokenV::VarZ,
            Token::Fun(f) => TokenV::Fun(*f),
            Token::Add => TokenV::Add,
            Token::Sub => TokenV::Sub,
            Token::Mult => TokenV::Mult,
            Token::Div => TokenV::Div,
            Token::Pow => TokenV::Pow,
            Token::LParen => TokenV::LParen,
            Token::RParen => TokenV::RParen,
            Token::Error(e) => TokenV::Error(*e),
        }
    }
}

pub open spec fn tok_opt_view(t: Option<Token>) -> Option<TokenV> {
    match t {
        Option::None => Option::None,
        Option::Some(x) => Option::Some(x@),
    }
}

/// The whitespace the lexer skips: the six ASCII whitespace characters.
pub open spec fn is_space(c: char) -> bool {
    c == ' ' || c == '\t' || c == '\n' || c == '\r' || c == '\x0b' || c == '\x0c'
}

/// The characters a numeric literal is made of.
pub open spec fn is_digit_or_dot(c: char) -> bool {
    is_digit(c) || c == '.'
}

/// The characters an identifier is made of.
pub open spec fn is_id(c: char) -> bool {
    ('a' <= c && c <= 'z') || ('A' <= c && c <= 'Z') || c == '_'
}

/// Scans a numeric literal from `i` on. `seen_dot` and `seen_digit` say what
/// an already-read prefix held. Returns where the literal ends (for a second
/// decimal point: just after it) and the lexical fault, if any.
pub open spec fn scan_number(s: Seq<char>, i: nat, seen_dot: bool, seen_digit: bool) -> (nat, Option<
    LexError,
>)
    decreases s.len() - i,
{
    if i < s.len() && is_digit_or_dot(s[i as int]) {
        if s[i as int] == '.' {
            if seen_dot {
                (((i + 1) as nat), Option::Some(LexError::DoubleDecimal))
            } else {
                scan_number(s, (i + 1) as nat, true, seen_digit)
            }
        } else {
            scan_number(s, (i + 1) as nat, seen_dot, true)
        }
    } else {
        (i, if seen_digit {
            Option::None
        } else {
            Option::Some(LexError::InvalidNumber)
        })
    }
}

/// Where an identifier that starts at `i` ends.
pub open spec fn scan_id(s: Seq<char>, i: nat) -> nat
    decreases s.len() - i,
{
    if i < s.len() && is_id(s[i as int]) {
        scan_id(s, (i + 1) as nat)
    } else {
        i
    }
}

/// The fixed function-name table.
pub open spec fn fun_of_name(w: Seq<char>) -> Option<Function> {
    if w.len() == 2 {
        if w[0] == 'R' && w[1] == 'e' {
            Option::Some(Function::Re)
        } else if w[0] == 'I' && w[1] == 'm' {
            Option::Some(Function::Im)
        } else {
            Option::None
        }
    } else if w.len() == 3 {
        if w[0] == 'e' && w[1] == 'x' && w[2] == 'p' {
            Option::Some(Function::Exp)
        } else if w[0] == 's' && w[1] == 'i' && w[2] == 'n' {
            Option::Some(Function::Sin)
        } else if w[0] == 'c' && w[1] == 'o' && w[2] == 's' {
            Option::Some(Function::Cos)
        } else if w[0] == 't' && w[1] == 'a' && w[2] == 'n' {
            Option::Some(Function::Tan)
        } else if w[0] == 'c' && w[1] == 'o' && w[2] == 't' {
            Option::Some(Function::Cot)
        } else if w[0] == 's' && w[1] == 'e' && w[2] == 'c' {
            Option::Some(Function::Sec)
        } else if w[0] == 'c' && w[1] == 's' && w[2] == 'c' {
            Option::Some(Function::Csc)
        } else {
            Option::None
        }
    } else if w.len() == 4 {
        if w[0] == 's' && w[1] == 'q' && w[2] == 'r' && w[3] == 't' {
            Option::Some(Function::Sqrt)
        } else if w[0] == 's' && w[1] == 'i' && w[2] == 'n' && w[3] == 'h' {
            Option::Some(Function::Sinh)
        } else if w[0] == 'c' && w[1] == 'o' && w[2] == 's' && w[3] == 'h' {
            Option::Some(Function::Cosh)
        } else if w[0] == 't' && w[1] == 'a' && w[2] == 'n' && w[3] == 'h' {
            Option::Some(Function::Tanh)
        } else if w[0] == 'c' && w[1] == 'o' && w[2] == 't' && w[3] == 'h' {
            Option::Some(Function::Coth)
        } else if w[0] == 's' && w[1] == 'e' && w[2] == 'c' && w[3] == 'h' {
            Option::Some(Function::Sech)
        } else if w[0] == 'c' && w[1] == 's' && w[2] == 'c' && w[3] == 'h' {
            Option::Some(Function::Csch)
        } else {
            Option::None
        }
    } else {
        Option::None
    }
}

/// What an identifier means: the single characters `i` and `z` are the
/// imaginary unit and the variable, everything else is looked up in the
/// function-name table.
pub open spec fn classify_id(w: Seq<char>) -> TokenV {
    if w.len() == 1 && w[0] == 'i' {
        TokenV::ComplexI
    } else if w.len() == 1 && w[0] == 'z' {
        TokenV::VarZ
    } else {
        match fun_of_name(w) {
            Option::Some(f) => TokenV::Fun(f),
            Option::None => TokenV::Error(LexError::UnknownIdentifier),
        }
    }
}

/// The token that starts at position `i` of `s` (skipping whitespace), and
/// the position just after it. `None` means the input is exhausted.
pub open spec fn next_token(s: Seq<char>, i: nat) -> (Option<TokenV>, nat)
    decreases s.len() - i,
{
    if i >= s.len() {
        (Option::None, i)
    } else {
        let c = s[i as int];
        if is_space(c) {
            next_token(s, (i + 1) as nat)
        } else if c == '+' {
            (Option::Some(TokenV::Add), (i + 1) as nat)
        } else if c == '-' {
            (Option::Some(TokenV::Sub), (i + 1) as nat)
        } else if c == '*' {
            (Option::Some(TokenV::Mult), (i + 1) as nat)
        } else if c == '/' {
            (Option::Some(TokenV::Div), (i + 1) as nat)
        } else if c == '^' {
            (Option::Some(TokenV::Pow), (i + 1) as nat)
        } else if c == '(' {
            (Option::Some(TokenV::LParen), (i + 1) as nat)
        } else if c == ')' {
            (Option::Some(TokenV::RParen), (i + 1) as nat)
        } else if is_digit_or_dot(c) {
            let (end, err) = scan_number(s, i, false, false);
            match err {
                Option::Some(e) => (Option::Some(TokenV::Error(e)), end),
                Option::None => (
                    Option::Some(TokenV::Float(s.subrange(i as int, end as int))),
                    end,
                ),
            }
        } else if is_id(c) {
            let end = scan_id(s, i);
            (Option::Some(classify_id(s.subrange(i as int, end as int))), end)
        } else {
            (Option::Some(TokenV::Error(LexError::InvalidCharacter)), (i + 1) as nat)
        }
    }
}

/// The scan of a numeric literal stays within the input and moves forward.
pub proof fn lemma_scan_number_bounds(s: Seq<char>, i: nat, d: bool, g: bool)
    requires
        i <= s.len(),
    ensures
        i <= scan_number(s, i, d, g).0 <= s.len(),
        i < s.len() && is_digit_or_dot(s[i as int]) ==> scan_number(s, i, d, g).0 > i,
    decreases s.len() - i,
{
    if i < s.len() && is_digit_or_dot(s[i as int]) {
        if s[i as int] == '.' && d {
        } else {
            lemma_scan_number_bounds(s, (i + 1) as nat, true, true);
            lemma_scan_number_bounds(s, (i + 1) as nat, true, g);
            lemma_scan_number_bounds(s, (i + 1) as nat, d, true);
        }
    }
}

/// The scan of an identifier stays within the input and moves forward.
pub proof fn lemma_scan_id_bounds(s: Seq<char>, i: nat)
    requires
        i <= s.len(),
    ensures
        i <= scan_id(s, i) <= s.len(),
        i < s.len() && is_id(s[i as int]) ==> scan_id(s, i) > i,
    decreases s.len() - i,
{
    if i < s.len() && is_id(s[i as int]) {
        lemma_scan_id_bounds(s, (i + 1) as nat);
    }
}

/// A produced token ends within the input and after where it began; the
/// stream ends exactly at the end of the input.
pub proof fn lemma_next_token_bounds(s: Seq<char>, i: nat)
    requires
        i <= s.len(),
    ensures
        i <= next_token(s, i).1 <= s.len(),
        next_token(s, i).0 is Some ==> next_token(s, i).1 > i,
        next_token(s, i).0 is None ==> next_token(s, i).1 == s.len(),
    decreases s.len() - i,
{
    if i < s.len() {
        let c = s[i as int];
        if is_space(c) {
            lemma_next_token_bounds(s, (i + 1) as nat);
        } else if is_digit_or_dot(c) {
            lemma_scan_number_bounds(s, i, false, false);
        } else if is_id(c) {
            lemma_scan_id_bounds(s, i);
        }
    }
}

/// Whether `c` can stand in a numeric literal: a digit or the decimal point.
#[inline]
pub fn is_digit_char(c: &char) -> (r: bool)
    ensures
        r == is_digit_or_dot(*c),
{
    ('0' <= *c && *c <= '9') || *c == '.'
}

/// Whether `c` can stand in an identifier.
#[inline]
pub fn is_id_char(c: &char) -> (r: bool)
    ensures
        r == is_id(*c),
{
    ('a' <= *c && *c <= 'z') || ('A' <= *c && *c <= 'Z') || *c == '_'
}

fn is_space_char(c: char) -> (r: bool)
    ensures
        r == is_space(c),
{
    c == ' ' || c == '\t' || c == '\n' || c == '\r' || c == '\x0b' || c == '\x0c'
}

/// Looks an identifier up in the fixed function-name table.
pub fn fun_from_str(s: &str) -> (r: Option<Function>)
    ensures
        r == fun_of_name(s@),
{
    let n = s.unicode_len();
    if n == 2 {
        let a = s.get_char(0);
        let b = s.get_char(1);
        if a == 'R' && b == 'e' {
            Some(Function::Re)
        } else if a == 'I' && b == 'm' {
            Some(Function::Im)
        } else {
            None
        }
    } else if n == 3 {
        let a = s.get_char(0);
        let b = s.get_char(1);
        let c = s.get_char(2);
        if a == 'e' && b == 'x' && c == 'p' {
            Some(Function::Exp)
        } else if a == 's' && b == 'i' && c == 'n' {
            Some(Function::Sin)
        } else if a == 'c' && b == 'o' && c == 's' {
            Some(Function::Cos)
        } else if a == 't' && b == 'a' && c == 'n' {
            Some(Function::Tan)
        } else if a == 'c' && b == 'o' && c == 't' {
            Some(Function::Cot)
        } else if a == 's' && b == 'e' && c == 'c' {
            Some(Function::Sec)
        } else if a == 'c' && b == 's' && c == 'c' {
            Some(Function::Csc)
        } else {
            None
        }
    } else if n == 4 {
        let a = s.get_char(0);
        let b = s.get_char(1);
        let c = s.get_char(2);
        let d = s.get_char(3);
        if a == 's' && b == 'q' && c == 'r' && d == 't' {
            Some(Function::Sqrt)
        } else if a == 's' && b == 'i' && c == 'n' && d == 'h' {
            Some(Function::Sinh)
        } else if a == 'c' && b == 'o' && c == 's' && d == 'h' {
            Some(Function::Cosh)
        } else if a == 't' && b == 'a' && c == 'n' && d == 'h' {
            Some(Function::Tanh)
        } else if a == 'c' && b == 'o' && c == 't' && d == 'h' {
            Some(Function::Coth)
        } else if a == 's' && b == 'e' && c == 'c' && d == 'h' {
            Some(Function::Sech)
        } else if a == 'c' && b == 's' && c == 'c' && d == 'h' {
            Some(Function::Csch)
        } else {
            None
        }
    } else {
        None
    }
}

/// The lexer: a borrowed input and the position the next token starts at
/// (after whitespace). Tokens are produced on demand; peeking does not move
/// the position.
pub struct LexerBaseIter<'a> {
    pub buffer: &'a str,
    pub pos: usize,
}

/// The token stream the parser consumes.
pub type Lexer<'a> = LexerBaseIter<'a>;

/// Builds a lexer over `buffer`, positioned at its start.
pub fn new_lexer<'a>(buffer: &'a str) -> (r: Lexer<'a>)
    ensures
        r.buffer@ == buffer@,
        r.pos == 0,
{
    LexerBaseIter::new(buffer)
}

impl<'a> LexerBaseIter<'a> {
    pub open spec fn wf(&self) -> bool {
        self.pos <= self.buffer@.len()
    }

    pub fn new(buffer: &'a str) -> (r: LexerBaseIter<'a>)
        ensures
            r.buffer@ == buffer@,
            r.pos == 0,
    {
        LexerBaseIter { buffer, pos: 0 }
    }

    /// Produces the next token and moves past it; `None` at the end of the
    /// input.
    pub fn next(&mut self) -> (t: Option<Token>)
        requires
            old(self).wf(),
        ensures
            final(self).wf(),
            final(self).buffer@ == old(self).buffer@,
            tok_opt_view(t) == next_token(old(self).buffer@, old(self).pos as nat).0,
            final(self).pos == next_token(old(self).buffer@, old(self).pos as nat).1,
    {
        let (t, p) = scan_token(self.buffer, self.pos);
        self.pos = p;
        t
    }

    /// The token `next` would produce, without moving past it.
    pub fn peek(&self) -> (t: Option<Token>)
        requires
            self.wf(),
        ensures
            tok_opt_view(t) == next_token(self.buffer@, self.pos as nat).0,
    {
        let (t, _) = scan_token(self.buffer, self.pos);
        t
    }
}

/// Reads the token that starts at `pos`, returning it and the position just
/// after it.
#[verifier::loop_isolation(false)]
fn scan_token(buffer: &str, pos: usize) -> (r: (Option<Token>, usize))
    requires
        pos <= buffer@.len(),
    ensures
        tok_opt_view(r.0) == next_token(buffer@, pos as nat).0,
        r.1 == next_token(buffer@, pos as nat).1,
        r.1 <= buffer@.len(),
{
    proof {
        lemma_next_token_bounds(buffer@, pos as nat);
    }
    let n = buffer.unicode_len();
    let mut i: usize = pos;
    while i < n && is_space_char(buffer.get_char(i))
        invariant
            pos <= i <= n,
            next_token(buffer@, pos as nat) == next_token(buffer@, i as nat),
        decreases n - i,
    {
        i = i + 1;
    }
    if i == n {
        return (None, i);
    }
    let c = buffer.get_char(i);
    if c == '+' {
        return (Some(Token::Add), i + 1);
    }
    if c == '-' {
        return (Some(Token::Sub), i + 1);
    }
    if c == '*' {
        return (Some(Token::Mult), i + 1);
    }
    if c == '/' {
        return (Some(Token::Div), i + 1);
    }
    if c == '^' {
        return (Some(Token::Pow), i + 1);
    }
    if c == '(' {
        return (Some(Token::LParen), i + 1);
    }
    if c == ')' {
        return (Some(Token::RParen), i + 1);
    }
    if is_digit_char(&c) {
        let ghost st = i as nat;
        let mut j: usize = i;
        let mut seen_dot = false;
        let mut seen_digit = false;
        while j < n && is_digit_char(&buffer.get_char(j))
            invariant
                i <= j <= n,
                scan_number(buffer@, st, false, false) == scan_number(
                    buffer@,
                    j as nat,
                    seen_dot,
                    seen_digit,
                ),
            decreases n - j,
        {
            let d = buffer.get_char(j);
            if d == '.' {
                if seen_dot {
                    return (Some(Token::Error(LexError::DoubleDecimal)), j + 1);
                }
                seen_dot = true;
            } else {
                seen_digit = true;
            }
            j = j + 1;
        }
        if seen_digit {
            let word = buffer.substring_char(i, j);
            return (Some(Token::Float(word.to_owned())), j);
        } else {
            return (Some(Token::Error(LexError::InvalidNumber)), j);
        }
    }
    if is_id_char(&c) {
        let ghost st = i as nat;
        let mut j: usize = i;
        while j < n && is_id_char(&buffer.get_char(j))
            invariant
                i <= j <= n,
                scan_id(buffer@, st) == scan_id(buffer@, j as nat),
            decreases n - j,
        {
            j = j + 1;
        }
        if j == i + 1 && c == 'i' {
            return (Some(Token::ComplexI), j);
        }
        if j == i + 1 && c == 'z' {
            return (Some(Token::VarZ), j);
        }
        let word = buffer.substring_char(i, j);
        match fun_from_str(word) {
            Some(f) => {
                return (Some(Token::Fun(f)), j);
            },
            None => {
                return (Some(Token::Error(LexError::UnknownIdentifier)), j);
            },
        }
    }
    (Some(Token::Error(LexError::InvalidCharacter)), i + 1)
}

} // verus!
