//! The abstract syntax tree the parser builds, and its compilation into a
//! reusable complex-to-complex evaluator.

use vstd::prelude::*;

verus! {

use crate::complex::C;
use crate::complex::CVal;
use crate::complex::add_v;
use crate::complex::c_add;
use crate::complex::c_cos;
use crate::complex::c_cosh;
use crate::complex::c_div;
use crate::complex::c_exp;
use crate::complex::c_inv;
use crate::complex::c_mul;
use crate::complex::c_neg;
use crate::complex::c_powc;
use crate::complex::c_sin;
use crate::complex::c_sinh;
use crate::complex::c_sqrt;
use crate::complex::c_sub;
use crate::complex::c_tan;
use crate::complex::c_tanh;
use crate::complex::cos_v;
use crate::complex::cosh_v;
use crate::complex::div_v;
use crate::complex::exp_v;
use crate::complex::inv_v;
use crate::complex::mul_v;
use crate::complex::neg_v;
use crate::complex::powc_v;
use crate::complex::sin_v;
use crate::complex::sinh_v;
use crate::complex::sqrt_v;
use crate::complex::sub_v;
use crate::complex::tan_v;
use crate::complex::tanh_v;
use crate::complex::zero_string;
use crate::lexer::Function;
use crate::lexer::Token;
use crate::lexer::TokenV;

/// One node of the syntax tree. Each node owns its children outright: the
/// tree has no sharing and no cycles, and no partially-built node escapes the
/// parser.
#[derive(PartialEq, Debug)]
pub enum Node {
    Const { val: C },
    Var,
    Binary { op: Token, left: Box<Node>, right: Box<Node> },
    Unary { op: Token, child: Box<Node> },
    Fun { fun: Function, arg: Box<Node> },
}

/// The mathematical value of a [`Node`].
pub enum NodeV {
    Const { val: CVal },
    Var,
    Binary { op: TokenV, left: Box<NodeV>, right: Box<NodeV> },
    Unary { op: TokenV, child: Box<NodeV> },
    Fun { fun: Function, arg: Box<NodeV> },
}

pub open spec fn node_view(n: Node) -> NodeV
    decreases n,
{
    match n {
        Node::Const { val } => NodeV::Const { val: val@ },
        Node::Var => NodeV::Var,
        Node::Binary { op, left, right } => NodeV::Binary {
            op: op@,
            left: Box::new(node_view(*left)),
            right: Box::new(node_view(*right)),
        },
        Node::Unary { op, child } => NodeV::Unary { op: op@, child: Box::new(node_view(*child)) },
        Node::Fun { fun, arg } => NodeV::Fun { fun, arg: Box::new(node_view(*arg)) },
    }
}

impl View for Node {
    type V = NodeV;

    open spec fn view(&self) -> NodeV {
        node_view(*self)
    }
}

/// The operators a binary node may carry.
pub open spec fn is_bin_op(op: TokenV) -> bool {
    op is Add || op is Sub || op is Mult || op is Div || op is Pow
}

/// A tree the grammar can produce: operator tokens where operators belong,
/// and well-formed constants. Evaluation is defined on such trees alone; any
/// other shape would be an internal-invariant violation.
pub open spec fn wf_node(n: NodeV) -> bool
    decreases n,
{
    match n {
        NodeV::Const { val } => val.wf(),
        NodeV::Var => true,
        NodeV::Binary { op, left, right } => is_bin_op(op) && wf_node(*left) && wf_node(*right),
        NodeV::Unary { op, child } => op is Sub && wf_node(*child),
        NodeV::Fun { fun: _, arg } => wf_node(*arg),
    }
}

impl Node {
    pub open spec fn wf(&self) -> bool {
        wf_node(self@)
    }

    /// Compiles the tree into a reusable evaluator.
    pub fn to_closure(self) -> (r: CompiledFunction)
        requires
            self.wf(),
        ensures
            r@ == self@,
            r.wf(),
    {
        CompiledFunction { node: self }
    }
}

/// What one of the named analytic functions returns: the reciprocal
/// functions are the reciprocals of the corresponding direct ones, and `Re`
/// and `Im` hand the component back with the other component zero.
pub open spec fn apply_fun(f: Function, v: CVal) -> CVal {
    match f {
        Function::Sqrt => sqrt_v(v),
        Function::Exp => exp_v(v),
        Function::Sin => sin_v(v),
        Function::Cos => cos_v(v),
        Function::Tan => tan_v(v),
        Function::Cot => inv_v(tan_v(v)),
        Function::Sec => inv_v(cos_v(v)),
        Function::Csc => inv_v(sin_v(v)),
        Function::Sinh => sinh_v(v),
        Function::Cosh => cosh_v(v),
        Function::Tanh => tanh_v(v),
        Function::Coth => inv_v(tanh_v(v)),
        Function::Sech => inv_v(cosh_v(v)),
        Function::Csch => inv_v(sinh_v(v)),
        Function::Re => CVal { re: v.re, im: seq!['0'] },
        Function::Im => CVal { re: seq!['0'], im: v.im },
    }
}

/// What a well-formed tree evaluates to at the point `z`: constants and the
/// variable are themselves, operator nodes apply the complex operation to
/// their evaluated children (left first), a function node applies the named
/// analytic function to its evaluated argument.
pub open spec fn eval_node(n: NodeV, z: CVal) -> CVal
    decreases n,
{
    match n {
        NodeV::Const { val } => val,
        NodeV::Var => z,
        NodeV::Binary { op, left, right } => {
            let l = eval_node(*left, z);
            let r = eval_node(*right, z);
            if op is Add {
                add_v(l, r)
            } else if op is Sub {
                sub_v(l, r)
            } else if op is Mult {
                mul_v(l, r)
            } else if op is Div {
                div_v(l, r)
            } else {
                powc_v(l, r)
            }
        },
        NodeV::Unary { op: _, child } => neg_v(eval_node(*child, z)),
        NodeV::Fun { fun, arg } => apply_fun(fun, eval_node(*arg, z)),
    }
}

/// A compiled formula: one complex input to one complex output, reusable for
/// arbitrarily many evaluations and stateless between them.
pub struct CompiledFunction {
    pub node: Node,
}

impl View for CompiledFunction {
    type V = NodeV;

    open spec fn view(&self) -> NodeV {
        self.node@
    }
}

impl CompiledFunction {
    pub open spec fn wf(&self) -> bool {
        wf_node(self@)
    }

    /// Evaluates the compiled formula at the point `z`.
    pub fn eval(&self, z: &C) -> (r: C)
        requires
            self.wf(),
            z.wf(),
        ensures
            r.wf(),
            r@ == eval_node(self@, z@),
    {
        eval_rec(&self.node, z)
    }
}

// ---------------------------------------------------------------------------
// Diagnostic tree rendering: the tree as a flowchart, one line per node and
// per edge, nodes numbered in depth-first visiting order.
// ---------------------------------------------------------------------------

/// How many nodes a tree has; the numbering of a rendered tree uses one
/// number per node.
pub open spec fn node_count(n: NodeV) -> nat
    decreases n,
{
    match n {
        NodeV::Const { .. } => 1,
        NodeV::Var => 1,
        NodeV::Binary { op: _, left, right } => 1 + node_count(*left) + node_count(*right),
        NodeV::Unary { op: _, child } => 1 + node_count(*child),
        NodeV::Fun { fun: _, arg } => 1 + node_count(*arg),
    }
}

/// The label of an operator token.
pub open spec fn op_label(t: TokenV) -> Seq<char> {
    if t is Add {
        seq!['+']
    } else if t is Sub {
        seq!['-']
    } else if t is Mult {
        seq!['*']
    } else if t is Div {
        seq!['/']
    } else {
        seq!['^']
    }
}

/// The label of a named function.
pub open spec fn fun_label(f: Function) -> Seq<char> {
    match f {
        Function::Sqrt => seq!['s', 'q', 'r', 't'],
        Function::Exp => seq!['e', 'x', 'p'],
        Function::Sin => seq!['s', 'i', 'n'],
        Function::Cos => seq!['c', 'o', 's'],
        Function::Tan => seq!['t', 'a', 'n'],
        Function::Cot => seq!['c', 'o', 't'],
        Function::Sec => seq!['s', 'e', 'c'],
        Function::Csc => seq!['c', 's', 'c'],
        Function::Sinh => seq!['s', 'i', 'n', 'h'],
        Function::Cosh => seq!['c', 'o', 's', 'h'],
        Function::Tanh => seq!['t', 'a', 'n', 'h'],
        Function::Coth => seq!['c', 'o', 't', 'h'],
        Function::Sech => seq!['s', 'e', 'c', 'h'],
        Function::Csch => seq!['c', 's', 'c', 'h'],
        Function::Re => seq!['R', 'e'],
        Function::Im => seq!['I', 'm'],
    }
}

/// The label of one node: a constant as `re+imi` from its component
/// renderings, the variable as `z`, an operator node as its symbol, a
/// function node as the function's name.
pub open spec fn node_label(n: NodeV) -> Seq<char> {
    match n {
        NodeV::Const { val } => val.re + seq!['+'] + val.im + seq!['i'],
        NodeV::Var => seq!['z'],
        NodeV::Binary { op, .. } => op_label(op),
        NodeV::Unary { op, .. } => op_label(op),
        NodeV::Fun { fun, .. } => fun_label(fun),
    }
}

/// The node lines and edge lines of the tree rooted at `n` when its root is
/// numbered `id` and its descendants follow in depth-first order, and the
/// first number after the subtree.
pub open spec fn mermaid_parts(n: NodeV, id: nat) -> (Seq<Seq<char>>, Seq<Seq<char>>, nat)
    decreases n,
{
    let node_line = crate::domain_color::dec_of(id) + seq!['['] + node_label(n) + seq![']'];
    match n {
        NodeV::Const { .. } => (seq![node_line], Seq::<Seq<char>>::empty(), id + 1),
        NodeV::Var => (seq![node_line], Seq::<Seq<char>>::empty(), id + 1),
        NodeV::Binary { op: _, left, right } => {
            let (ln, le, i1) = mermaid_parts(*left, id + 1);
            let (rn, re, i2) = mermaid_parts(*right, i1);
            (
                seq![node_line] + ln + rn,
                seq![edge_line(id, id + 1)] + le + seq![edge_line(id, i1)] + re,
                i2,
            )
        },
        NodeV::Unary { op: _, child } => {
            let (cn, ce, i1) = mermaid_parts(*child, id + 1);
            (seq![node_line] + cn, seq![edge_line(id, id + 1)] + ce, i1)
        },
        NodeV::Fun { fun: _, arg } => {
            let (an, ae, i1) = mermaid_parts(*arg, id + 1);
            (seq![node_line] + an, seq![edge_line(id, id + 1)] + ae, i1)
        },
    }
}

/// One edge line: `parent --> child`.
pub open spec fn edge_line(parent: nat, child: nat) -> Seq<char> {
    crate::domain_color::dec_of(parent) + seq![' ', '-', '-', '>', ' ']
        + crate::domain_color::dec_of(child)
}

/// Lines joined by a newline and the flowchart indent before each line.
pub open spec fn joined(lines: Seq<Seq<char>>) -> Seq<char>
    decreases lines.len(),
{
    if lines.len() == 0 {
        Seq::<char>::empty()
    } else {
        seq!['\n', ' ', ' ', ' ', ' '] + lines[0] + joined(lines.skip(1))
    }
}

/// Joining distributes over concatenation of line lists.
proof fn lemma_joined_app(a: Seq<Seq<char>>, b: Seq<Seq<char>>)
    ensures
        joined(a + b) == joined(a) + joined(b),
    decreases a.len(),
{
    if a.len() == 0 {
        assert(a + b =~= b);
        assert(joined(a) + joined(b) =~= joined(b));
    } else {
        assert((a + b).skip(1) =~= a.skip(1) + b);
        lemma_joined_app(a.skip(1), b);
        assert(joined(a + b) =~= joined(a) + joined(b));
    }
}

/// The whole flowchart text of a tree.
pub open spec fn mermaid_v(n: NodeV) -> Seq<char> {
    let (ns, es, _) = mermaid_parts(n, 0);
    seq!['f', 'l', 'o', 'w', 'c', 'h', 'a', 'r', 't', ' ', 'T', 'D'] + joined(ns) + joined(es)
}

fn op_label_str(t: &Token) -> (r: &'static str)
    requires
        is_bin_op(t@) || t@ is Sub,
    ensures
        r@ == op_label(t@),
{
    proof {
        reveal_strlit("+");
        reveal_strlit("-");
        reveal_strlit("*");
        reveal_strlit("/");
        reveal_strlit("^");
    }
    let r: &'static str = match t {
        Token::Add => "+",
        Token::Sub => "-",
        Token::Mult => "*",
        Token::Div => "/",
        Token::Pow => "^",
        _ => unreached(),
    };
    proof {
        assert(r@ =~= op_label(t@));
    }
    r
}

fn fun_label_str(f: &Function) -> (r: &'static str)
    ensures
        r@ == fun_label(*f),
{
    proof {
        reveal_strlit("sqrt");
        reveal_strlit("exp");
        reveal_strlit("sin");
        reveal_strlit("cos");
        reveal_strlit("tan");
        reveal_strlit("cot");
        reveal_strlit("sec");
        reveal_strlit("csc");
        reveal_strlit("sinh");
        reveal_strlit("cosh");
        reveal_strlit("tanh");
        reveal_strlit("coth");
        reveal_strlit("sech");
        reveal_strlit("csch");
        reveal_strlit("Re");
        reveal_strlit("Im");
    }
    let r: &'static str = match f {
        Function::Sqrt => "sqrt",
        Function::Exp => "exp",
        Function::Sin => "sin",
        Function::Cos => "cos",
        Function::Tan => "tan",
        Function::Cot => "cot",
        Function::Sec => "sec",
        Function::Csc => "csc",
        Function::Sinh => "sinh",
        Function::Cosh => "cosh",
        Function::Tanh => "tanh",
        Function::Coth => "coth",
        Function::Sech => "sech",
        Function::Csch => "csch",
        Function::Re => "Re",
        Function::Im => "Im",
    };
    proof {
        assert(r@ =~= fun_label(*f));
    }
    r
}

impl Node {
    /// The label of this node alone (see [`node_label`]).
    pub fn label(&self) -> (r: String)
        requires
            self.wf(),
        ensures
            r@ == node_label(self@),
    {
        match self {
            Node::Const { val } => {
                let mut s = val.re.clone();
                s.append("+");
                s.append(val.im.as_str());
                s.append("i");
                proof {
                    reveal_strlit("+");
                    reveal_strlit("i");
                    assert(s@ =~= node_label(self@));
                }
                s
            },
            Node::Var => {
                let s = String::from_str("z");
                proof {
                    reveal_strlit("z");
                    assert(s@ =~= seq!['z']);
                }
                s
            },
            Node::Binary { op, .. } => op_label_str(op).to_owned(),
            Node::Unary { op, .. } => op_label_str(op).to_owned(),
            Node::Fun { fun, .. } => fun_label_str(fun).to_owned(),
        }
    }

    /// Renders the tree as a flowchart: one line per node in depth-first
    /// order and one line per edge, for diagnostics.
    pub fn to_mermaid(&self) -> (r: String)
        requires
            self.wf(),
            node_count(self@) <= usize::MAX,
        ensures
            r@ == mermaid_v(self@),
    {
        let mut nodes = String::from_str("flowchart TD");
        let mut edges = String::new();
        proof {
            reveal_strlit("flowchart TD");
            assert(nodes@ =~= seq![
                'f',
                'l',
                'o',
                'w',
                'c',
                'h',
                'a',
                'r',
                't',
                ' ',
                'T',
                'D',
            ]);
        }
        let _ = mermaid_rec(self, 0, &mut nodes, &mut edges);
        let r = nodes.concat(edges.as_str());
        proof {
            assert(r@ =~= mermaid_v(self@));
        }
        r
    }
}

/// The subtree has at least one node.
proof fn lemma_node_count_pos(n: NodeV)
    ensures
        node_count(n) >= 1,
{
}

/// The first number after a rendered subtree is its root's number plus the
/// subtree's node count.
proof fn lemma_mermaid_next(n: NodeV, id: nat)
    ensures
        mermaid_parts(n, id).2 == id + node_count(n),
    decreases n,
{
    match n {
        NodeV::Binary { op: _, left, right } => {
            lemma_mermaid_next(*left, id + 1);
            lemma_mermaid_next(*right, mermaid_parts(*left, id + 1).2);
        },
        NodeV::Unary { op: _, child } => {
            lemma_mermaid_next(*child, id + 1);
        },
        NodeV::Fun { fun: _, arg } => {
            lemma_mermaid_next(*arg, id + 1);
        },
        _ => {},
    }
}

/// Appends one line, with the newline and indent before it.
fn append_line(out: &mut String, line: &str)
    ensures
        final(out)@ == old(out)@ + seq!['\n', ' ', ' ', ' ', ' '] + line@,
{
    out.append("\n    ");
    out.append(line);
    proof {
        reveal_strlit("\n    ");
        assert(out@ =~= old(out)@ + seq!['\n', ' ', ' ', ' ', ' '] + line@);
    }
}

/// One edge line `parent --> child`.
fn edge_string(parent: usize, child: usize) -> (r: String)
    ensures
        r@ == edge_line(parent as nat, child as nat),
{
    let mut s = crate::domain_color::usize_to_string(parent);
    s.append(" --> ");
    s.append(crate::domain_color::usize_to_string(child).as_str());
    proof {
        reveal_strlit(" --> ");
        assert(s@ =~= edge_line(parent as nat, child as nat));
    }
    s
}

/// Writes the node and edge lines of the subtree `n`, rooted at number `id`,
/// and returns the first number after the subtree.
fn mermaid_rec(n: &Node, id: usize, nodes: &mut String, edges: &mut String) -> (next: usize)
    requires
        n.wf(),
        id + node_count(n@) <= usize::MAX,
    ensures
        next == id + node_count(n@),
        final(nodes)@ == old(nodes)@ + joined(mermaid_parts(n@, id as nat).0),
        final(edges)@ == old(edges)@ + joined(mermaid_parts(n@, id as nat).1),
    decreases *n,
{
    proof {
        lemma_node_count_pos(n@);
        assert(joined(Seq::<Seq<char>>::empty()) =~= Seq::<char>::empty());
    }
    let mut line = crate::domain_color::usize_to_string(id);
    line.append("[");
    line.append(n.label().as_str());
    line.append("]");
    proof {
        reveal_strlit("[");
        reveal_strlit("]");
        assert(line@ =~= crate::domain_color::dec_of(id as nat) + seq!['['] + node_label(n@)
            + seq![']']);
    }
    append_line(nodes, line.as_str());
    let ghost node_line = line@;
    match n {
        Node::Const { .. } => {
            proof {
                assert(seq![node_line].skip(1) =~= Seq::<Seq<char>>::empty());
                assert(nodes@ =~= old(nodes)@ + joined(mermaid_parts(n@, id as nat).0));
                assert(edges@ =~= old(edges)@ + joined(mermaid_parts(n@, id as nat).1));
            }
            id + 1
        },
        Node::Var => {
            proof {
                assert(seq![node_line].skip(1) =~= Seq::<Seq<char>>::empty());
                assert(nodes@ =~= old(nodes)@ + joined(mermaid_parts(n@, id as nat).0));
                assert(edges@ =~= old(edges)@ + joined(mermaid_parts(n@, id as nat).1));
            }
            id + 1
        },
        Node::Binary { op: _, left, right } => {
            proof {
                lemma_node_count_pos(left@);
                lemma_node_count_pos(right@);
                lemma_mermaid_next(left@, id as nat + 1);
                lemma_mermaid_next(right@, mermaid_parts(left@, id as nat + 1).2);
            }
            let e1 = edge_string(id, id + 1);
            append_line(edges, e1.as_str());
            let i1 = mermaid_rec(left, id + 1, nodes, edges);
            let e2 = edge_string(id, i1);
            append_line(edges, e2.as_str());
            let i2 = mermaid_rec(right, i1, nodes, edges);
            proof {
                let gid = id as nat;
                let (ln, le, gi1) = mermaid_parts(left@, gid + 1);
                let (rn, re, _) = mermaid_parts(right@, gi1);
                lemma_joined_app(seq![node_line] + ln, rn);
                lemma_joined_app(seq![node_line], ln);
                assert(joined(seq![node_line]) =~= seq!['\n', ' ', ' ', ' ', ' '] + node_line)
                    by {
                    assert(seq![node_line].skip(1) =~= Seq::<Seq<char>>::empty());
                }
                assert((seq![node_line] + ln + rn) =~= mermaid_parts(n@, gid).0);
                let ea = seq![edge_line(gid, gid + 1)];
                let eb = seq![edge_line(gid, gi1)];
                lemma_joined_app(ea + le + eb, re);
                lemma_joined_app(ea + le, eb);
                lemma_joined_app(ea, le);
                assert(joined(ea) =~= seq!['\n', ' ', ' ', ' ', ' '] + edge_line(gid, gid + 1))
                    by {
                    assert(ea.skip(1) =~= Seq::<Seq<char>>::empty());
                }
                assert(joined(eb) =~= seq!['\n', ' ', ' ', ' ', ' '] + edge_line(gid, gi1)) by {
                    assert(eb.skip(1) =~= Seq::<Seq<char>>::empty());
                }
                assert((ea + le + eb + re) =~= mermaid_parts(n@, gid).1);
                assert(nodes@ =~= old(nodes)@ + joined(mermaid_parts(n@, gid).0));
                assert(edges@ =~= old(edges)@ + joined(mermaid_parts(n@, gid).1));
            }
            i2
        },
        Node::Unary { op: _, child } => {
            let e1 = edge_string(id, id + 1);
            append_line(edges, e1.as_str());
            let i1 = mermaid_rec(child, id + 1, nodes, edges);
            proof {
                let gid = id as nat;
                let (cn, ce, _) = mermaid_parts(child@, gid + 1);
                lemma_joined_app(seq![node_line], cn);
                assert(joined(seq![node_line]) =~= seq!['\n', ' ', ' ', ' ', ' '] + node_line)
                    by {
                    assert(seq![node_line].skip(1) =~= Seq::<Seq<char>>::empty());
                }
                assert((seq![node_line] + cn) =~= mermaid_parts(n@, gid).0);
                let ea = seq![edge_line(gid, gid + 1)];
                lemma_joined_app(ea, ce);
                assert(joined(ea) =~= seq!['\n', ' ', ' ', ' ', ' '] + edge_line(gid, gid + 1))
                    by {
                    assert(ea.skip(1) =~= Seq::<Seq<char>>::empty());
                }
                assert((ea + ce) =~= mermaid_parts(n@, gid).1);
                assert(nodes@ =~= old(nodes)@ + joined(mermaid_parts(n@, gid).0));
                assert(edges@ =~= old(edges)@ + joined(mermaid_parts(n@, gid).1));
            }
            i1
        },
        Node::Fun { fun: _, arg } => {
            let e1 = edge_string(id, id + 1);
            append_line(edges, e1.as_str());
            let i1 = mermaid_rec(arg, id + 1, nodes, edges);
            proof {
                let gid = id as nat;
                let (an, ae, _) = mermaid_parts(arg@, gid + 1);
                lemma_joined_app(seq![node_line], an);
                assert(joined(seq![node_line]) =~= seq!['\n', ' ', ' ', ' ', ' '] + node_line)
                    by {
                    assert(seq![node_line].skip(1) =~= Seq::<Seq<char>>::empty());
                }
                assert((seq![node_line] + an) =~= mermaid_parts(n@, gid).0);
                let ea = seq![edge_line(gid, gid + 1)];
                lemma_joined_app(ea, ae);
                assert(joined(ea) =~= seq!['\n', ' ', ' ', ' ', ' '] + edge_line(gid, gid + 1))
                    by {
                    assert(ea.skip(1) =~= Seq::<Seq<char>>::empty());
                }
                assert((ea + ae) =~= mermaid_parts(n@, gid).1);
                assert(nodes@ =~= old(nodes)@ + joined(mermaid_parts(n@, gid).0));
                assert(edges@ =~= old(edges)@ + joined(mermaid_parts(n@, gid).1));
            }
            i1
        },
    }
}

fn eval_rec(n: &Node, z: &C) -> (r: C)
    requires
        n.wf(),
        z.wf(),
    ensures
        r.wf(),
        r@ == eval_node(n@, z@),
    decreases *n,
{
    match n {
        Node::Const { val } => val.clone(),
        Node::Var => z.clone(),
        Node::Binary { op, left, right } => {
            let l = eval_rec(left, z);
            let rr = eval_rec(right, z);
            match op {
                Token::Add => c_add(&l, &rr),
                Token::Sub => c_sub(&l, &rr),
                Token::Mult => c_mul(&l, &rr),
                Token::Div => c_div(&l, &rr),
                Token::Pow => c_powc(&l, &rr),
                _ => unreached(),
            }
        },
        Node::Unary { op: _, child } => {
            let c = eval_rec(child, z);
            c_neg(&c)
        },
        Node::Fun { fun, arg } => {
            let v = eval_rec(arg, z);
            match fun {
                Function::Sqrt => c_sqrt(&v),
                Function::Exp => c_exp(&v),
                Function::Sin => c_sin(&v),
                Function::Cos => c_cos(&v),
                Function::Tan => c_tan(&v),
                Function::Cot => {
                    let t = c_tan(&v);
                    c_inv(&t)
                },
                Function::Sec => {
                    let t = c_cos(&v);
                    c_inv(&t)
                },
                Function::Csc => {
                    let t = c_sin(&v);
                    c_inv(&t)
                },
                Function::Sinh => c_sinh(&v),
                Function::Cosh => c_cosh(&v),
                Function::Tanh => c_tanh(&v),
                Function::Coth => {
                    let t = c_tanh(&v);
                    c_inv(&t)
                },
                Function::Sech => {
                    let t = c_cosh(&v);
                    c_inv(&t)
                },
                Function::Csch => {
                    let t = c_sinh(&v);
                    c_inv(&t)
                },
                Function::Re => C { re: v.re.clone(), im: zero_string() },
                Function::Im => C { re: zero_string(), im: v.im.clone() },
            }
        },
    }
}

} // verus!
