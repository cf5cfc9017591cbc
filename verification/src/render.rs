//! Rendering: the plain form `(a + b)` and the typed form
//! `((a + b): Real)` of an expression, built exactly as the
//! specification-level character sequences say.

use vstd::prelude::*;

use crate::values::{Expressions, Tier, Types, ValModel, Wrapper};
use crate::graph::{ast_of, root_of, shape_ok, shape_of, view_of, wf_at, Ast, Graph, IdxTree,
    Node, OpTag};
use crate::tower::ArithmeticError;
use crate::eval::solve_spec;

verus! {

/// The decimal digit character for one digit value.
pub open spec fn digit_char(d: int) -> char {
    if d == 0 {
        '0'
    } else if d == 1 {
        '1'
    } else if d == 2 {
        '2'
    } else if d == 3 {
        '3'
    } else if d == 4 {
        '4'
    } else if d == 5 {
        '5'
    } else if d == 6 {
        '6'
    } else if d == 7 {
        '7'
    } else if d == 8 {
        '8'
    } else {
        '9'
    }
}

/// The decimal digits of a number, most significant first.
pub open spec fn dec_nat(n: nat) -> Seq<char>
    decreases n,
{
    if n < 10 {
        seq![digit_char(n as int)]
    } else {
        dec_nat(n / 10) + seq![digit_char((n % 10) as int)]
    }
}

/// The decimal form of an integer, with a leading minus for a negative.
pub open spec fn dec_int(v: int) -> Seq<char> {
    if v < 0 {
        seq!['-'] + dec_nat((-v) as nat)
    } else {
        dec_nat(v as nat)
    }
}

/// The display tag of a tier.
pub open spec fn tier_tag(t: Tier) -> Seq<char> {
    match t {
        Tier::Natural => "Natural"@,
        Tier::Zahl => "Zahl"@,
        Tier::Real => "Real"@,
    }
}

/// The infix text of an operation kind.
pub open spec fn op_str(tag: OpTag) -> Seq<char> {
    match tag {
        OpTag::Addition => " + "@,
        OpTag::Subtraction => " - "@,
        OpTag::Multiplication => " * "@,
        OpTag::Exponentiation => " ** "@,
    }
}

/// The plain rendered form: a constant prints its number, a variable its
/// name, and an operation its parenthesized infix form.
pub open spec fn render_plain(t: Ast) -> Seq<char>
    decreases t,
{
    match t {
        Ast::Cst(_, v) => dec_int(v),
        Ast::Var(_, n) => n,
        Ast::Op(tag, l, r) => seq!['('] + render_plain(*l) + op_str(tag) + render_plain(*r)
            + seq![')'],
    }
}

/// The typed rendered form: every node is annotated with the tier it
/// solves to, `((2: Natural) + (3: Natural)): Natural` with surrounding
/// parentheses.  A node whose solve reports an arithmetic error has no
/// tier to show, so the whole rendering reports that error.
pub open spec fn render_typed_spec(t: Ast) -> Result<Seq<char>, ArithmeticError>
    decreases t,
{
    match t {
        Ast::Cst(tier, v) => Ok(
            seq!['('] + dec_int(v) + seq![':', ' '] + tier_tag(tier) + seq![')'],
        ),
        Ast::Var(tier, n) => Ok(seq!['('] + n + seq![':', ' '] + tier_tag(tier) + seq![')']),
        Ast::Op(tag, l, r) => match render_typed_spec(*l) {
            Err(e) => Err(e),
            Ok(ls) => match render_typed_spec(*r) {
                Err(e) => Err(e),
                Ok(rs) => match solve_spec(t) {
                    Err(e) => Err(e),
                    Ok((tier, _)) => Ok(
                        seq!['(', '('] + ls + op_str(tag) + rs + seq![')', ':', ' ']
                            + tier_tag(tier) + seq![')'],
                    ),
                },
            },
        },
    }
}

/// One decimal digit as text.
fn digit_str(d: u64) -> (r: &'static str)
    requires
        d < 10,
    ensures
        r@ == seq![digit_char(d as int)],
{
    proof {
        reveal_strlit("0");
        reveal_strlit("1");
        reveal_strlit("2");
        reveal_strlit("3");
        reveal_strlit("4");
        reveal_strlit("5");
        reveal_strlit("6");
        reveal_strlit("7");
        reveal_strlit("8");
        reveal_strlit("9");
    }
    let r = if d == 0 {
        "0"
    } else if d == 1 {
        "1"
    } else if d == 2 {
        "2"
    } else if d == 3 {
        "3"
    } else if d == 4 {
        "4"
    } else if d == 5 {
        "5"
    } else if d == 6 {
        "6"
    } else if d == 7 {
        "7"
    } else if d == 8 {
        "8"
    } else {
        "9"
    };
    proof {
        assert(r@ =~= seq![digit_char(d as int)]);
    }
    r
}

/// Append the decimal digits of `n`.
fn push_dec_u64(out: &mut String, n: u64)
    ensures
        final(out)@ == old(out)@ + dec_nat(n as nat),
    decreases n,
{
    if n < 10 {
        out.append(digit_str(n));
    } else {
        push_dec_u64(out, n / 10);
        out.append(digit_str(n % 10));
        proof {
            assert(old(out)@ + dec_nat((n / 10) as nat) + seq![digit_char((n % 10) as int)]
                =~= old(out)@ + dec_nat(n as nat));
        }
    }
}

/// Append the decimal form of a signed value.
fn push_dec_i64(out: &mut String, v: i64)
    ensures
        final(out)@ == old(out)@ + dec_int(v as int),
{
    if v < 0 {
        proof {
            reveal_strlit("-");
        }
        out.append("-");
        let m: u64 = if v == i64::MIN {
            9223372036854775808u64
        } else {
            (-v) as u64
        };
        push_dec_u64(out, m);
        proof {
            assert("-"@ =~= seq!['-']);
            assert(old(out)@ + "-"@ + dec_nat(m as nat) =~= old(out)@ + dec_int(v as int));
        }
    } else {
        push_dec_u64(out, v as u64);
    }
}

/// The infix text of an operation kind.
fn op_text(tag: OpTag) -> (r: &'static str)
    ensures
        r@ == op_str(tag),
{
    match tag {
        OpTag::Addition => " + ",
        OpTag::Subtraction => " - ",
        OpTag::Multiplication => " * ",
        OpTag::Exponentiation => " ** ",
    }
}

/// Append the plain form of one leaf value.
fn push_leaf(out: &mut String, t: &Types)
    requires
        !(t@ is Sym),
    ensures
        final(out)@ == old(out)@ + render_plain(crate::graph::leaf_ast(t@)),
{
    match t {
        Types::Natural(w) => match w {
            Wrapper::Constant(c) => push_dec_i64(out, c.get() as i64),
            Wrapper::Variable(n) => out.append(n.as_str()),
            Wrapper::Expression(_) => {
                proof {
                    assert(false);
                }
            },
        },
        Types::Zahl(w) => match w {
            Wrapper::Constant(c) => push_dec_i64(out, c.get() as i64),
            Wrapper::Variable(n) => out.append(n.as_str()),
            Wrapper::Expression(_) => {
                proof {
                    assert(false);
                }
            },
        },
        Types::Real(w) => match w {
            Wrapper::Constant(c) => push_dec_i64(out, c.get()),
            Wrapper::Variable(n) => out.append(n.as_str()),
            Wrapper::Expression(_) => {
                proof {
                    assert(false);
                }
            },
        },
    }
}

/// Tier promotion: widening a constant keeps its rendered digits — only
/// the tier tag changes — and an operator with a `Real` operand always
/// answers in `Real`.
pub proof fn lemma_tier_promotion(
    m: ValModel,
    t: Tier,
    tag: OpTag,
    other: Tier,
)
    requires
        m is Cst,
        crate::tower::widen_model(m, t) is Ok,
    ensures
        crate::tower::widen_model(m, t)->Ok_0.tier() == t,
        render_plain(crate::graph::leaf_ast(crate::tower::widen_model(m, t)->Ok_0))
            == render_plain(crate::graph::leaf_ast(m)),
        crate::tower::op_tier(tag, Tier::Real, other) == Tier::Real,
        crate::tower::op_tier(tag, other, Tier::Real) == Tier::Real,
{
}

/// The plain form of one leaf value as its own string.
pub fn render_value(t: &Types) -> (r: String)
    requires
        !(t@ is Sym),
    ensures
        r@ == render_plain(crate::graph::leaf_ast(t@)),
{
    let mut out = String::new();
    push_leaf(&mut out, t);
    out
}

impl Graph {
    /// The plain form of any tiered value: a constant prints its number,
    /// a variable its name, and a deferred value defers to the node it
    /// points at, so a deferred sum prints as `(a + b)`.
    pub fn display_value(&self, v: &Types) -> (r: String)
        requires
            v@ is Sym ==> wf_at(self.nodes@, v@->Sym_1),
        ensures
            r@ == render_plain(crate::tower::operand_view(self.nodes@, v@)),
    {
        let target: Option<Expressions> = match v {
            Types::Natural(Wrapper::Expression(h)) => Some(*h),
            Types::Zahl(Wrapper::Expression(h)) => Some(*h),
            Types::Real(Wrapper::Expression(h)) => Some(*h),
            _ => Option::None,
        };
        match target {
            Some(h) => self.render(h),
            Option::None => render_value(v),
        }
    }

    /// The recursive worker behind `render`.
    fn render_at(&self, e: Expressions, sh: Ghost<IdxTree>, out: &mut String)
        requires
            shape_ok(self.nodes@, sh@),
            root_of(sh@) == e.id(),
        ensures
            final(out)@ == old(out)@ + render_plain(ast_of(self.nodes@, sh@)),
        decreases sh@,
    {
        match &self.nodes[e.0] {
            Node::Value(t) => {
                push_leaf(out, t);
            },
            Node::Operation(op) => {
                let kind = op.kind();
                let (l, r) = op.sides();
                proof {
                    reveal_strlit("(");
                    reveal_strlit(")");
                    assert("("@ =~= seq!['(']);
                    assert(")"@ =~= seq![')']);
                }
                out.append("(");
                self.render_at(l, Ghost(*sh@->Branch_1), out);
                out.append(op_text(kind));
                self.render_at(r, Ghost(*sh@->Branch_2), out);
                out.append(")");
                proof {
                    assert(final(out)@ =~= old(out)@ + render_plain(ast_of(self.nodes@, sh@)));
                }
            },
        }
    }

    /// The plain rendered form of the subtree at `e`.
    pub fn render(&self, e: Expressions) -> (r: String)
        requires
            wf_at(self.nodes@, e.id()),
        ensures
            r@ == render_plain(view_of(self.nodes@, e.id())),
    {
        let ghost sh = shape_of(self.nodes@, e.id());
        proof {
            assert(shape_ok(self.nodes@, sh) && root_of(sh) == e.id());
        }
        let mut out = String::new();
        self.render_at(e, Ghost(sh), &mut out);
        out
    }

    /// The recursive worker behind `render_typed`.
    fn render_typed_at(&self, e: Expressions, sh: Ghost<IdxTree>) -> (r: Result<
        String,
        ArithmeticError,
    >)
        requires
            shape_ok(self.nodes@, sh@),
            root_of(sh@) == e.id(),
        ensures
            match render_typed_spec(ast_of(self.nodes@, sh@)) {
                Ok(s) => r is Ok && r->Ok_0@ == s,
                Err(err) => r is Err && r->Err_0 == err,
            },
        decreases sh@,
    {
        proof {
            reveal_strlit("(");
            reveal_strlit(")");
            reveal_strlit(": ");
            reveal_strlit("): ");
            assert("("@ =~= seq!['(']);
            assert(")"@ =~= seq![')']);
            assert(": "@ =~= seq![':', ' ']);
            assert("): "@ =~= seq![')', ':', ' ']);
        }
        match &self.nodes[e.0] {
            Node::Value(t) => {
                let mut out = String::new();
                out.append("(");
                push_leaf(&mut out, t);
                out.append(": ");
                out.append(t.get_type());
                out.append(")");
                proof {
                    assert(out@ =~= render_typed_spec(ast_of(self.nodes@, sh@))->Ok_0);
                }
                Ok(out)
            },
            Node::Operation(op) => {
                let kind = op.kind();
                let (l, r) = op.sides();
                let ls = match self.render_typed_at(l, Ghost(*sh@->Branch_1)) {
                    Ok(s) => s,
                    Err(err) => {
                        return Err(err);
                    },
                };
                let rs = match self.render_typed_at(r, Ghost(*sh@->Branch_2)) {
                    Ok(s) => s,
                    Err(err) => {
                        return Err(err);
                    },
                };
                let solved = match self.solve_at(e, sh) {
                    Ok(v) => v,
                    Err(err) => {
                        return Err(err);
                    },
                };
                let mut out = String::new();
                out.append("((");
                out.append(ls.as_str());
                out.append(op_text(kind));
                out.append(rs.as_str());
                out.append("): ");
                out.append(solved.get_type());
                out.append(")");
                proof {
                    reveal_strlit("((");
                    assert("(("@ =~= seq!['(', '(']);
                    assert(out@ =~= render_typed_spec(ast_of(self.nodes@, sh@))->Ok_0);
                }
                Ok(out)
            },
        }
    }

    /// The typed rendered form of the subtree at `e`: every node carries
    /// the tier it solves to.  When solving anywhere below reports an
    /// arithmetic error, that error is the answer.
    pub fn render_typed(&self, e: Expressions) -> (r: Result<String, ArithmeticError>)
        requires
            wf_at(self.nodes@, e.id()),
        ensures
            match render_typed_spec(view_of(self.nodes@, e.id())) {
                Ok(s) => r is Ok && r->Ok_0@ == s,
                Err(err) => r is Err && r->Err_0 == err,
            },
    {
        let ghost sh = shape_of(self.nodes@, e.id());
        proof {
            assert(shape_ok(self.nodes@, sh) && root_of(sh) == e.id());
        }
        self.render_typed_at(e, Ghost(sh))
    }
}

} // verus!
