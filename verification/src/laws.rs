//! Laws of the library, stated and proved over the same specification
//! functions the executable functions' contracts use.

use vstd::prelude::*;

verus! {

use crate::ast::NodeV;
use crate::ast::eval_node;
use crate::complex::CVal;
use crate::domain_color::DCOptionsV;
use crate::domain_color::bmp_ok;
use crate::domain_color::le32;
use crate::domain_color::le32_val;
use crate::domain_color::spec_stride;
use crate::lexer::LexError;
use crate::lexer::TokenV;
use crate::lexer::next_token;
use crate::lexer::scan_id;
use crate::lexer::scan_number;
use crate::parser::ParseError;
use crate::parser::sp_base;
use crate::parser::sp_expr;
use crate::parser::sp_expr_tail;
use crate::parser::sp_factor;
use crate::parser::sp_par_expr;
use crate::parser::sp_parse;
use crate::parser::sp_term;
use crate::parser::sp_term_tail;

/// Parsing is deterministic. The executable parser's postcondition ties its
/// result to `sp_parse`, a function of the input string alone, so any two
/// results tied to the same input are structurally identical.
pub proof fn lemma_parse_deterministic(
    s: Seq<char>,
    r1: Result<NodeV, ParseError>,
    r2: Result<NodeV, ParseError>,
)
    requires
        r1 == sp_parse(s),
        r2 == sp_parse(s),
    ensures
        r1 == r2,
{
}

/// Round trip: the formula `z` parses to the variable node, and evaluating
/// that node at any point `p` yields `p` itself, exactly.
pub proof fn lemma_parse_z_identity(p: CVal)
    ensures
        sp_parse("z"@) == Result::<NodeV, ParseError>::Ok(NodeV::Var),
        eval_node(NodeV::Var, p) == p,
{
    let s = "z"@;
    reveal_strlit("z");
    assert(next_token(s, 0) == (Option::Some(TokenV::VarZ), 1nat)) by {
        reveal_with_fuel(scan_id, 3);
        assert(s.subrange(0, 1) =~= seq!['z']);
    }
    assert(next_token(s, 1) == (Option::<TokenV>::None, 1nat));
    assert(sp_base(s, 0) == (Result::<NodeV, ParseError>::Ok(NodeV::Var), 1nat));
    assert(sp_factor(s, 0) == (Result::<NodeV, ParseError>::Ok(NodeV::Var), 1nat));
    assert(sp_base(s, 1) == (Result::<NodeV, ParseError>::Err(ParseError::ExpectedAtom), 1nat));
    assert(sp_factor(s, 1) == (Result::<NodeV, ParseError>::Err(ParseError::ExpectedAtom), 1nat));
    assert(sp_term_tail(s, NodeV::Var, 1) == (Result::<NodeV, ParseError>::Ok(NodeV::Var), 1nat));
    assert(sp_term(s, 0) == (Result::<NodeV, ParseError>::Ok(NodeV::Var), 1nat));
    assert(sp_expr_tail(s, NodeV::Var, 1) == (Result::<NodeV, ParseError>::Ok(NodeV::Var), 1nat));
    assert(sp_expr(s, 0) == (Result::<NodeV, ParseError>::Ok(NodeV::Var), 1nat));
}

/// The tree both `z(3+i)` and `z*(3+i)` parse to.
pub open spec fn juxtaposition_tree() -> NodeV {
    NodeV::Binary {
        op: TokenV::Mult,
        left: Box::new(NodeV::Var),
        right: Box::new(
            NodeV::Binary {
                op: TokenV::Add,
                left: Box::new(NodeV::Const { val: CVal { re: seq!['3'], im: seq!['0'] } }),
                right: Box::new(NodeV::Const { val: CVal { re: seq!['0'], im: seq!['1'] } }),
            },
        ),
    }
}

/// What `(3+i)` parses to: the sum node of [`juxtaposition_tree`].
spec fn three_plus_i() -> NodeV {
    NodeV::Binary {
        op: TokenV::Add,
        left: Box::new(NodeV::Const { val: CVal { re: seq!['3'], im: seq!['0'] } }),
        right: Box::new(NodeV::Const { val: CVal { re: seq!['0'], im: seq!['1'] } }),
    }
}

/// Implicit multiplication: `z(3+i)` parses to the same tree as `z*(3+i)`,
/// so the two compiled functions agree at every point.
pub proof fn lemma_implicit_multiplication(p: CVal)
    ensures
        sp_parse("z(3+i)"@) == sp_parse("z*(3+i)"@),
        sp_parse("z(3+i)"@) == Result::<NodeV, ParseError>::Ok(juxtaposition_tree()),
        (match (sp_parse("z(3+i)"@), sp_parse("z*(3+i)"@)) {
            (Result::Ok(a), Result::Ok(b)) => eval_node(a, p) == eval_node(b, p),
            _ => false,
        }),
{
    lemma_parse_juxtaposed();
    lemma_parse_explicit();
}

proof fn lemma_parse_juxtaposed()
    ensures
        sp_parse("z(3+i)"@) == Result::<NodeV, ParseError>::Ok(juxtaposition_tree()),
{
    let s = "z(3+i)"@;
    reveal_strlit("z(3+i)");
    assert(s.len() == 6);
    assert(next_token(s, 0) == (Option::Some(TokenV::VarZ), 1nat)) by {
        reveal_with_fuel(scan_id, 3);
        assert(s.subrange(0, 1) =~= seq!['z']);
    }
    assert(next_token(s, 1) == (Option::Some(TokenV::LParen), 2nat));
    assert(next_token(s, 2) == (Option::Some(TokenV::Float(seq!['3'])), 3nat)) by {
        reveal_with_fuel(scan_number, 3);
        assert(s.subrange(2, 3) =~= seq!['3']);
    }
    assert(next_token(s, 3) == (Option::Some(TokenV::Add), 4nat));
    assert(next_token(s, 4) == (Option::Some(TokenV::ComplexI), 5nat)) by {
        reveal_with_fuel(scan_id, 3);
        assert(s.subrange(4, 5) =~= seq!['i']);
    }
    assert(next_token(s, 5) == (Option::Some(TokenV::RParen), 6nat));
    assert(next_token(s, 6) == (Option::<TokenV>::None, 6nat));

    let c3 = NodeV::Const { val: CVal { re: seq!['3'], im: seq!['0'] } };
    let ci = NodeV::Const { val: CVal { re: seq!['0'], im: seq!['1'] } };
    let a = three_plus_i();
    let m = juxtaposition_tree();

    // the parenthesized sum, starting at the `(`
    assert(sp_base(s, 2) == (Result::<NodeV, ParseError>::Ok(c3), 3nat));
    assert(sp_factor(s, 2) == (Result::<NodeV, ParseError>::Ok(c3), 3nat));
    assert(sp_base(s, 3) == (Result::<NodeV, ParseError>::Err(ParseError::ExpectedAtom), 3nat));
    assert(sp_factor(s, 3) == (Result::<NodeV, ParseError>::Err(ParseError::ExpectedAtom), 3nat));
    assert(sp_term_tail(s, c3, 3) == (Result::<NodeV, ParseError>::Ok(c3), 3nat));
    assert(sp_term(s, 2) == (Result::<NodeV, ParseError>::Ok(c3), 3nat));
    assert(sp_base(s, 4) == (Result::<NodeV, ParseError>::Ok(ci), 5nat));
    assert(sp_factor(s, 4) == (Result::<NodeV, ParseError>::Ok(ci), 5nat));
    assert(sp_base(s, 5) == (Result::<NodeV, ParseError>::Err(ParseError::ExpectedAtom), 5nat));
    assert(sp_factor(s, 5) == (Result::<NodeV, ParseError>::Err(ParseError::ExpectedAtom), 5nat));
    assert(sp_term_tail(s, ci, 5) == (Result::<NodeV, ParseError>::Ok(ci), 5nat));
    assert(sp_term(s, 4) == (Result::<NodeV, ParseError>::Ok(ci), 5nat));
    assert(sp_expr_tail(s, a, 5) == (Result::<NodeV, ParseError>::Ok(a), 5nat)) by {
        reveal_with_fuel(sp_expr_tail, 2);
    }
    assert(sp_expr_tail(s, c3, 3) == (Result::<NodeV, ParseError>::Ok(a), 5nat)) by {
        reveal_with_fuel(sp_expr_tail, 3);
    }
    assert(sp_expr(s, 2) == (Result::<NodeV, ParseError>::Ok(a), 5nat));
    assert(sp_par_expr(s, 1) == (Result::<NodeV, ParseError>::Ok(a), 6nat));

    // the whole formula
    assert(sp_base(s, 0) == (Result::<NodeV, ParseError>::Ok(NodeV::Var), 1nat));
    assert(sp_factor(s, 0) == (Result::<NodeV, ParseError>::Ok(NodeV::Var), 1nat));
    assert(sp_base(s, 1) == (Result::<NodeV, ParseError>::Ok(a), 6nat));
    assert(sp_factor(s, 1) == (Result::<NodeV, ParseError>::Ok(a), 6nat));
    assert(sp_base(s, 6) == (Result::<NodeV, ParseError>::Err(ParseError::ExpectedAtom), 6nat));
    assert(sp_factor(s, 6) == (Result::<NodeV, ParseError>::Err(ParseError::ExpectedAtom), 6nat));
    assert(sp_term_tail(s, m, 6) == (Result::<NodeV, ParseError>::Ok(m), 6nat));
    assert(sp_term_tail(s, NodeV::Var, 1) == (Result::<NodeV, ParseError>::Ok(m), 6nat)) by {
        reveal_with_fuel(sp_term_tail, 3);
    }
    assert(sp_term(s, 0) == (Result::<NodeV, ParseError>::Ok(m), 6nat));
    assert(sp_expr_tail(s, m, 6) == (Result::<NodeV, ParseError>::Ok(m), 6nat));
    assert(sp_expr(s, 0) == (Result::<NodeV, ParseError>::Ok(m), 6nat));
}

proof fn lemma_parse_explicit()
    ensures
        sp_parse("z*(3+i)"@) == Result::<NodeV, ParseError>::Ok(juxtaposition_tree()),
{
    let s = "z*(3+i)"@;
    reveal_strlit("z*(3+i)");
    assert(s.len() == 7);
    assert(next_token(s, 0) == (Option::Some(TokenV::VarZ), 1nat)) by {
        reveal_with_fuel(scan_id, 3);
        assert(s.subrange(0, 1) =~= seq!['z']);
    }
    assert(next_token(s, 1) == (Option::Some(TokenV::Mult), 2nat));
    assert(next_token(s, 2) == (Option::Some(TokenV::LParen), 3nat));
    assert(next_token(s, 3) == (Option::Some(TokenV::Float(seq!['3'])), 4nat)) by {
        reveal_with_fuel(scan_number, 3);
        assert(s.subrange(3, 4) =~= seq!['3']);
    }
    assert(next_token(s, 4) == (Option::Some(TokenV::Add), 5nat));
    assert(next_token(s, 5) == (Option::Some(TokenV::ComplexI), 6nat)) by {
        reveal_with_fuel(scan_id, 3);
        assert(s.subrange(5, 6) =~= seq!['i']);
    }
    assert(next_token(s, 6) == (Option::Some(TokenV::RParen), 7nat));
    assert(next_token(s, 7) == (Option::<TokenV>::None, 7nat));

    let c3 = NodeV::Const { val: CVal { re: seq!['3'], im: seq!['0'] } };
    let ci = NodeV::Const { val: CVal { re: seq!['0'], im: seq!['1'] } };
    let a = three_plus_i();
    let m = juxtaposition_tree();

    // the parenthesized sum, starting at the `(`
    assert(sp_base(s, 3) == (Result::<NodeV, ParseError>::Ok(c3), 4nat));
    assert(sp_factor(s, 3) == (Result::<NodeV, ParseError>::Ok(c3), 4nat));
    assert(sp_base(s, 4) == (Result::<NodeV, ParseError>::Err(ParseError::ExpectedAtom), 4nat));
    assert(sp_factor(s, 4) == (Result::<NodeV, ParseError>::Err(ParseError::ExpectedAtom), 4nat));
    assert(sp_term_tail(s, c3, 4) == (Result::<NodeV, ParseError>::Ok(c3), 4nat));
    assert(sp_term(s, 3) == (Result::<NodeV, ParseError>::Ok(c3), 4nat));
    assert(sp_base(s, 5) == (Result::<NodeV, ParseError>::Ok(ci), 6nat));
    assert(sp_factor(s, 5) == (Result::<NodeV, ParseError>::Ok(ci), 6nat));
    assert(sp_base(s, 6) == (Result::<NodeV, ParseError>::Err(ParseError::ExpectedAtom), 6nat));
    assert(sp_factor(s, 6) == (Result::<NodeV, ParseError>::Err(ParseError::ExpectedAtom), 6nat));
    assert(sp_term_tail(s, ci, 6) == (Result::<NodeV, ParseError>::Ok(ci), 6nat));
    assert(sp_term(s, 5) == (Result::<NodeV, ParseError>::Ok(ci), 6nat));
    assert(sp_expr_tail(s, a, 6) == (Result::<NodeV, ParseError>::Ok(a), 6nat)) by {
        reveal_with_fuel(sp_expr_tail, 2);
    }
    assert(sp_expr_tail(s, c3, 4) == (Result::<NodeV, ParseError>::Ok(a), 6nat)) by {
        reveal_with_fuel(sp_expr_tail, 3);
    }
    assert(sp_expr(s, 3) == (Result::<NodeV, ParseError>::Ok(a), 6nat));
    assert(sp_par_expr(s, 2) == (Result::<NodeV, ParseError>::Ok(a), 7nat));

    // the whole formula, with the explicit `*`
    assert(sp_base(s, 0) == (Result::<NodeV, ParseError>::Ok(NodeV::Var), 1nat));
    assert(sp_factor(s, 0) == (Result::<NodeV, ParseError>::Ok(NodeV::Var), 1nat));
    assert(sp_base(s, 2) == (Result::<NodeV, ParseError>::Ok(a), 7nat));
    assert(sp_factor(s, 2) == (Result::<NodeV, ParseError>::Ok(a), 7nat));
    assert(sp_base(s, 7) == (Result::<NodeV, ParseError>::Err(ParseError::ExpectedAtom), 7nat));
    assert(sp_factor(s, 7) == (Result::<NodeV, ParseError>::Err(ParseError::ExpectedAtom), 7nat));
    assert(sp_term_tail(s, m, 7) == (Result::<NodeV, ParseError>::Ok(m), 7nat));
    assert(sp_term_tail(s, NodeV::Var, 1) == (Result::<NodeV, ParseError>::Ok(m), 7nat)) by {
        reveal_with_fuel(sp_term_tail, 3);
    }
    assert(sp_term(s, 0) == (Result::<NodeV, ParseError>::Ok(m), 7nat));
    assert(sp_expr_tail(s, m, 7) == (Result::<NodeV, ParseError>::Ok(m), 7nat));
    assert(sp_expr(s, 0) == (Result::<NodeV, ParseError>::Ok(m), 7nat));
}

/// The tree `2^3^2` parses to: exponentiation groups to the right,
/// `2^(3^2)`, not `(2^3)^2`.
pub open spec fn right_assoc_power_tree() -> NodeV {
    NodeV::Binary {
        op: TokenV::Pow,
        left: Box::new(NodeV::Const { val: CVal { re: seq!['2'], im: seq!['0'] } }),
        right: Box::new(
            NodeV::Binary {
                op: TokenV::Pow,
                left: Box::new(NodeV::Const { val: CVal { re: seq!['3'], im: seq!['0'] } }),
                right: Box::new(NodeV::Const { val: CVal { re: seq!['2'], im: seq!['0'] } }),
            },
        ),
    }
}

/// Exponentiation is right-associative: `2^3^2` parses as `2^(3^2)`.
pub proof fn lemma_power_right_associative()
    ensures
        sp_parse("2^3^2"@) == Result::<NodeV, ParseError>::Ok(right_assoc_power_tree()),
{
    let s = "2^3^2"@;
    reveal_strlit("2^3^2");
    assert(s.len() == 5);
    reveal_with_fuel(scan_number, 3);
    assert(next_token(s, 0) == (Option::Some(TokenV::Float(seq!['2'])), 1nat)) by {
        assert(s.subrange(0, 1) =~= seq!['2']);
    }
    assert(next_token(s, 1) == (Option::Some(TokenV::Pow), 2nat));
    assert(next_token(s, 2) == (Option::Some(TokenV::Float(seq!['3'])), 3nat)) by {
        assert(s.subrange(2, 3) =~= seq!['3']);
    }
    assert(next_token(s, 3) == (Option::Some(TokenV::Pow), 4nat));
    assert(next_token(s, 4) == (Option::Some(TokenV::Float(seq!['2'])), 5nat)) by {
        assert(s.subrange(4, 5) =~= seq!['2']);
    }
    assert(next_token(s, 5) == (Option::<TokenV>::None, 5nat));

    let c2 = NodeV::Const { val: CVal { re: seq!['2'], im: seq!['0'] } };
    let c3 = NodeV::Const { val: CVal { re: seq!['3'], im: seq!['0'] } };
    let inner = NodeV::Binary { op: TokenV::Pow, left: Box::new(c3), right: Box::new(c2) };
    let outer = right_assoc_power_tree();

    assert(sp_base(s, 0) == (Result::<NodeV, ParseError>::Ok(c2), 1nat));
    assert(sp_base(s, 2) == (Result::<NodeV, ParseError>::Ok(c3), 3nat));
    assert(sp_base(s, 4) == (Result::<NodeV, ParseError>::Ok(c2), 5nat));
    assert(sp_factor(s, 4) == (Result::<NodeV, ParseError>::Ok(c2), 5nat));
    assert(sp_factor(s, 2) == (Result::<NodeV, ParseError>::Ok(inner), 5nat)) by {
        reveal_with_fuel(sp_factor, 2);
    }
    assert(sp_factor(s, 0) == (Result::<NodeV, ParseError>::Ok(outer), 5nat)) by {
        reveal_with_fuel(sp_factor, 3);
    }
    assert(sp_base(s, 5) == (Result::<NodeV, ParseError>::Err(ParseError::ExpectedAtom), 5nat));
    assert(sp_factor(s, 5) == (Result::<NodeV, ParseError>::Err(ParseError::ExpectedAtom), 5nat));
    assert(sp_term_tail(s, outer, 5) == (Result::<NodeV, ParseError>::Ok(outer), 5nat));
    assert(sp_term(s, 0) == (Result::<NodeV, ParseError>::Ok(outer), 5nat));
    assert(sp_expr_tail(s, outer, 5) == (Result::<NodeV, ParseError>::Ok(outer), 5nat));
    assert(sp_expr(s, 0) == (Result::<NodeV, ParseError>::Ok(outer), 5nat));
}

/// A second decimal point within one numeric literal is a lexical fault, not
/// a silently truncated value: `3.4.5` parses to exactly that fault.
pub proof fn lemma_double_decimal_rejected()
    ensures
        sp_parse("3.4.5"@) == Result::<NodeV, ParseError>::Err(
            ParseError::Lexical(LexError::DoubleDecimal),
        ),
{
    let s = "3.4.5"@;
    reveal_strlit("3.4.5");
    assert(s.len() == 5);
    assert(next_token(s, 0) == (
        Option::Some(TokenV::Error(LexError::DoubleDecimal)),
        4nat,
    )) by {
        reveal_with_fuel(scan_number, 5);
    }
    assert(sp_base(s, 0) == (
        Result::<NodeV, ParseError>::Err(ParseError::Lexical(LexError::DoubleDecimal)),
        0nat,
    ));
}

/// An opened parenthesis that is never closed is the missing-closing-
/// parenthesis fault (never a panic: every function of this crate returns).
pub proof fn lemma_unclosed_paren_rejected()
    ensures
        sp_parse("("@) == Result::<NodeV, ParseError>::Err(ParseError::MissingClosingParen),
{
    let s = "("@;
    reveal_strlit("(");
    assert(s.len() == 1);
    assert(next_token(s, 0) == (Option::Some(TokenV::LParen), 1nat));
    assert(next_token(s, 1) == (Option::<TokenV>::None, 1nat));
    assert(sp_base(s, 1) == (Result::<NodeV, ParseError>::Err(ParseError::ExpectedAtom), 1nat));
    assert(sp_factor(s, 1) == (Result::<NodeV, ParseError>::Err(ParseError::ExpectedAtom), 1nat));
    assert(sp_term(s, 1) == (Result::<NodeV, ParseError>::Err(ParseError::ExpectedAtom), 1nat));
    assert(sp_expr(s, 1) == (Result::<NodeV, ParseError>::Err(ParseError::ExpectedAtom), 1nat));
    assert(sp_par_expr(s, 0) == (
        Result::<NodeV, ParseError>::Err(ParseError::MissingClosingParen),
        1nat,
    ));
    assert(sp_base(s, 0) == (
        Result::<NodeV, ParseError>::Err(ParseError::MissingClosingParen),
        1nat,
    ));
}

/// The four-byte little-endian rendering of a 32-bit value reads back as that
/// value.
pub proof fn lemma_le32_value(v: nat)
    requires
        v <= 0xFFFF_FFFF,
    ensures
        le32_val(le32(v)) == v,
{
    assert(le32_val(le32(v)) == v) by (nonlinear_arith)
        requires
            v <= 0xFFFF_FFFF,
    ;
}

/// The encoder's size law: in any buffer the renderer returns, the declared
/// file-size field (bytes two to five, little endian) equals the buffer's
/// actual byte length, and the row stride is a multiple of four.
pub proof fn lemma_bmp_size_field(buf: Seq<u8>, node: NodeV, o: DCOptionsV, w: nat, h: nat)
    requires
        bmp_ok(buf, node, o, w, h),
        54 + spec_stride(w) * h <= 0xFFFF_FFFF,
    ensures
        le32_val(buf.subrange(2, 6)) == buf.len(),
        spec_stride(w) % 4 == 0,
{
    let size = (54 + spec_stride(w) * h) as nat;
    assert(buf.subrange(2, 6) =~= le32(size));
    lemma_le32_value(size);
    assert(spec_stride(w) % 4 == 0) by (nonlinear_arith);
}

} // verus!
