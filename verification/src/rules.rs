//! The rule engine: a fixed, ordered catalog of rewrite rules.
//!
//! Each rule is a pure match-and-propose transform over one node: it
//! inspects the node (and, for constant evaluation, solves below it) and
//! proposes a replacement content, never mutating what is already there.
//! Proposal nodes are allocated into the graph up front; applying a match
//! later is one in-place overwrite of the matched slot.

use vstd::prelude::*;

use crate::values::{Expressions, Natural, Tier, TypeTrait, Types, ValModel, Wrapper};
use crate::graph::{ast_of, lemma_canon, lemma_shape_update_off, mem_idx, root_of,
    shape_ok, shape_of, uniq, view_of, wf_at, Ast, Graph, IdxTree, Node, Operation, OpTag};
use crate::eval::solve_spec;
use crate::render::render_plain;

verus! {

/// The rewrite rules, in catalog order.
#[derive(Clone, Copy, PartialEq, Eq, Structural, Debug)]
pub enum Rule {
    Distributivity,
    ConstEvaluation,
    ExponentToMultiplication,
    ExponentIdentity,
}

impl Rule {
    /// The rule's display name.
    pub fn name(&self) -> (r: &'static str)
        ensures
            r@ == self.spec_name(),
    {
        match self {
            Rule::Distributivity => "Distributivity",
            Rule::ConstEvaluation => "Constant Evaluation",
            Rule::ExponentToMultiplication => "EXPONENT_TO_MULTIPLICATION",
            Rule::ExponentIdentity => "Exponent Identity",
        }
    }

    pub open spec fn spec_name(self) -> Seq<char> {
        match self {
            Rule::Distributivity => "Distributivity"@,
            Rule::ConstEvaluation => "Constant Evaluation"@,
            Rule::ExponentToMultiplication => "EXPONENT_TO_MULTIPLICATION"@,
            Rule::ExponentIdentity => "Exponent Identity"@,
        }
    }

    /// The rule's one-line description.
    pub fn description(&self) -> (r: &'static str)
        ensures
            r@ == self.spec_description(),
    {
        match self {
            Rule::Distributivity => "x * (a + b) = x * a + x * b",
            Rule::ConstEvaluation => "1 + 1 = 2",
            Rule::ExponentToMultiplication => "a ** x = a * a ** (x - 1))",
            Rule::ExponentIdentity => "a ** 1 = 1, a ** 1 = a",
        }
    }

    pub open spec fn spec_description(self) -> Seq<char> {
        match self {
            Rule::Distributivity => "x * (a + b) = x * a + x * b"@,
            Rule::ConstEvaluation => "1 + 1 = 2"@,
            Rule::ExponentToMultiplication => "a ** x = a * a ** (x - 1))"@,
            Rule::ExponentIdentity => "a ** 1 = 1, a ** 1 = a"@,
        }
    }
}

/// Whether a rule matches the given expression.
pub open spec fn rule_matches(r: Rule, t: Ast) -> bool {
    match r {
        Rule::Distributivity => t matches Ast::Op(OpTag::Multiplication, _x, s)
            && (*s matches Ast::Op(OpTag::Addition, _, _)),
        Rule::ConstEvaluation => t is Op && (solve_spec(t) matches Ok((_, v)) && v is Some),
        Rule::ExponentToMultiplication => t matches Ast::Op(OpTag::Exponentiation, _, _),
        Rule::ExponentIdentity => t matches Ast::Op(OpTag::Exponentiation, _, x)
            && (*x matches Ast::Cst(_, v) && v == 1),
    }
}

/// What a matching rule proposes in place of the expression.
pub open spec fn rule_proposal(r: Rule, t: Ast) -> Ast {
    match r {
        Rule::Distributivity => {
            let x = *t->Op_1;
            let a = *t->Op_2->Op_1;
            let b = *t->Op_2->Op_2;
            Ast::Op(
                OpTag::Addition,
                Box::new(Ast::Op(OpTag::Multiplication, Box::new(x), Box::new(a))),
                Box::new(Ast::Op(OpTag::Multiplication, Box::new(x), Box::new(b))),
            )
        },
        Rule::ConstEvaluation => {
            let (tier, v) = solve_spec(t)->Ok_0;
            Ast::Cst(tier, v->Some_0)
        },
        Rule::ExponentToMultiplication => {
            let a = *t->Op_1;
            let x = *t->Op_2;
            Ast::Op(
                OpTag::Multiplication,
                Box::new(a),
                Box::new(
                    Ast::Op(
                        OpTag::Exponentiation,
                        Box::new(a),
                        Box::new(
                            Ast::Op(
                                OpTag::Subtraction,
                                Box::new(x),
                                Box::new(Ast::Cst(Tier::Natural, 1)),
                            ),
                        ),
                    ),
                ),
            )
        },
        Rule::ExponentIdentity => *t->Op_1,
    }
}

/// The rules that match, in catalog order: Distributivity, Constant
/// Evaluation, Exponent-to-Multiplication, Exponent Identity.  The index
/// into this sequence is what a caller uses to pick one.
pub open spec fn applicable_rules(t: Ast) -> Seq<Rule> {
    let s0 = Seq::<Rule>::empty();
    let s1 = if rule_matches(Rule::Distributivity, t) {
        s0.push(Rule::Distributivity)
    } else {
        s0
    };
    let s2 = if rule_matches(Rule::ConstEvaluation, t) {
        s1.push(Rule::ConstEvaluation)
    } else {
        s1
    };
    let s3 = if rule_matches(Rule::ExponentToMultiplication, t) {
        s2.push(Rule::ExponentToMultiplication)
    } else {
        s2
    };
    if rule_matches(Rule::ExponentIdentity, t) {
        s3.push(Rule::ExponentIdentity)
    } else {
        s3
    }
}

/// One applicable rule together with the content it proposes for the
/// matched node.
pub struct Match {
    /// The rule that matched.
    pub rule: Rule,
    /// The content to install in the matched slot.
    pub result: Node,
    /// The proposed replacement's display form.
    pub rendered: String,
    /// The index tree the installed content will root.
    pub shape: Ghost<IdxTree>,
}

impl Match {
    /// The proposed replacement content.
    pub fn result(&self) -> (r: &Node)
        ensures
            r == &self.result,
    {
        &self.result
    }

    /// Installing `self.result` at slot `c` yields a well-formed subtree
    /// whose meaning is the rule's proposal for `t`.
    pub open spec fn valid_for(self, nodes: Seq<Node>, c: int, t: Ast) -> bool {
        let nodes2 = nodes.update(c, self.result);
        &&& rule_matches(self.rule, t)
        &&& shape_ok(nodes2, self.shape@)
        &&& root_of(self.shape@) == c
        &&& ast_of(nodes2, self.shape@) == rule_proposal(self.rule, t)
    }
}

/// A match stays valid while the arena only grows around it.
proof fn lemma_valid_for_append(m: Match, a: Seq<Node>, b: Seq<Node>, c: int, t: Ast)
    requires
        m.valid_for(a, c, t),
        a.len() <= b.len(),
        forall|k: int| 0 <= k < a.len() ==> b[k] == a[k],
        0 <= c < a.len(),
    ensures
        m.valid_for(b, c, t),
{
    let a2 = a.update(c, m.result);
    let b2 = b.update(c, m.result);
    assert(forall|k: int| 0 <= k < a2.len() ==> b2[k] == a2[k]);
    crate::graph::lemma_shape_append(a2, b2, m.shape@);
}

fn try_distributivity(g: &mut Graph, e: Expressions) -> (m: Option<Match>)
    requires
        wf_at(old(g).nodes@, e.id()),
        uniq(shape_of(old(g).nodes@, e.id())),
    ensures
        old(g).nodes@.len() <= final(g).nodes@.len(),
        forall|k: int| 0 <= k < old(g).nodes@.len() ==> final(g).nodes@[k] == old(g).nodes@[k],
        forall|i: int| #[trigger] wf_at(old(g).nodes@, i) ==> wf_at(final(g).nodes@, i)
            && shape_of(final(g).nodes@, i) == shape_of(old(g).nodes@, i) && view_of(
            final(g).nodes@,
            i,
        ) == view_of(old(g).nodes@, i),
        (m is Some) <==> rule_matches(Rule::Distributivity, view_of(old(g).nodes@, e.id())),
        m is Some ==> m->Some_0.rule == Rule::Distributivity && m->Some_0.valid_for(
            final(g).nodes@,
            e.id(),
            view_of(old(g).nodes@, e.id()),
        ) && m->Some_0.rendered@ == render_plain(
            rule_proposal(Rule::Distributivity, view_of(old(g).nodes@, e.id())),
        ),
{
    let ghost nodes0 = g.nodes@;
    let ghost sh = shape_of(nodes0, e.id());
    let ghost t = view_of(nodes0, e.id());
    proof {
        assert(shape_ok(nodes0, sh) && root_of(sh) == e.id());
        crate::graph::lemma_append_preserves_all(nodes0, nodes0);
    }
    let parts: Option<(Expressions, Expressions)> = match &g.nodes[e.0] {
        Node::Operation(Operation::Multiplication(mm)) => Some((mm.left, mm.right)),
        _ => Option::None,
    };
    match parts {
        Option::None => {
            proof {
                match sh {
                    IdxTree::Leaf(_) => {
                        assert(!(t is Op));
                    },
                    IdxTree::Branch(_, _, _) => {
                        assert(nodes0[e.id()] is Operation);
                        assert(!(nodes0[e.id()]->Operation_0 is Multiplication));
                        assert(t->Op_0 == nodes0[e.id()]->Operation_0.tag());
                        assert(t->Op_0 != OpTag::Multiplication);
                    },
                }
                assert(!rule_matches(Rule::Distributivity, t));
            }
            Option::None
        },
        Some((x, s)) => {
            proof {
                assert(sh is Branch);
                assert(shape_ok(nodes0, *sh->Branch_2));
            }
            let inner: Option<(Expressions, Expressions)> = match &g.nodes[s.0] {
                Node::Operation(Operation::Addition(aa)) => Some((aa.left, aa.right)),
                _ => Option::None,
            };
            match inner {
                Option::None => {
                    proof {
                        let shs = *sh->Branch_2;
                        assert(root_of(shs) == s.id());
                        assert(*t->Op_2 == ast_of(nodes0, shs));
                        match shs {
                            IdxTree::Leaf(_) => {
                                assert(!(*t->Op_2 is Op));
                            },
                            IdxTree::Branch(_, _, _) => {
                                assert(nodes0[s.id()] is Operation);
                                assert(!(nodes0[s.id()]->Operation_0 is Addition));
                                assert((*t->Op_2)->Op_0 != OpTag::Addition);
                            },
                        }
                        assert(!rule_matches(Rule::Distributivity, t));
                    }
                    Option::None
                },
                Some((a, b)) => {
                    let ghost shx = *sh->Branch_1;
                    let ghost shs = *sh->Branch_2;
                    let ghost sha = *shs->Branch_1;
                    let ghost shb = *shs->Branch_2;
                    proof {
                        lemma_canon(nodes0, shx);
                        lemma_canon(nodes0, sha);
                        lemma_canon(nodes0, shb);
                    }
                    let m1 = g.operation(OpTag::Multiplication, x, a);
                    let m2 = g.operation(OpTag::Multiplication, x, b);
                    let ghost nodes2 = g.nodes@;
                    let result = Node::Operation(
                        Operation::Addition(crate::graph::Addition { left: m1, right: m2 }),
                    );
                    let ghost shm1 = IdxTree::Branch(m1.id(), Box::new(shx), Box::new(sha));
                    let ghost shm2 = IdxTree::Branch(m2.id(), Box::new(shx), Box::new(shb));
                    let ghost shn = IdxTree::Branch(e.id(), Box::new(shm1), Box::new(shm2));
                    proof {
                        assert(shape_of(nodes2, m1.id()) == shm1);
                        assert(shape_of(nodes2, m2.id()) == shm2);
                        assert(ast_of(nodes2, shx) == ast_of(nodes0, shx));
                        assert(ast_of(nodes2, sha) == ast_of(nodes0, sha));
                        assert(ast_of(nodes2, shb) == ast_of(nodes0, shb));
                        assert(t == Ast::Op(
                            OpTag::Multiplication,
                            Box::new(ast_of(nodes0, shx)),
                            Box::new(ast_of(nodes0, shs)),
                        ));
                        assert(ast_of(nodes0, shs) == Ast::Op(
                            OpTag::Addition,
                            Box::new(ast_of(nodes0, sha)),
                            Box::new(ast_of(nodes0, shb)),
                        ));
                        reveal_strlit("(");
                        reveal_strlit(")");
                        reveal_strlit(" + ");
                        assert("("@ =~= seq!['(']);
                        assert(")"@ =~= seq![')']);
                    }
                    let rm1 = g.render(m1);
                    let rm2 = g.render(m2);
                    let mut text = String::new();
                    text.append("(");
                    text.append(rm1.as_str());
                    text.append(" + ");
                    text.append(rm2.as_str());
                    text.append(")");
                    proof {
                        assert(text@ =~= render_plain(rule_proposal(Rule::Distributivity, t)));
                    }
                    let matched = Match {
                        rule: Rule::Distributivity,
                        result,
                        rendered: text,
                        shape: Ghost(shn),
                    };
                    proof {
                        assert(shape_of(nodes2, m1.id()) == shm1);
                        assert(shape_of(nodes2, m2.id()) == shm2);
                        assert(shape_ok(nodes2, shm1));
                        assert(shape_ok(nodes2, shm2));
                        let nodes3 = nodes2.update(e.id(), result);
                        assert(!mem_idx(shm1, e.id())) by {
                            assert(!mem_idx(shx, e.id()));
                            assert(!mem_idx(shs, e.id()));
                            assert(mem_idx(sha, e.id()) ==> mem_idx(shs, e.id()));
                        }
                        assert(!mem_idx(shm2, e.id())) by {
                            assert(!mem_idx(shx, e.id()));
                            assert(!mem_idx(shs, e.id()));
                            assert(mem_idx(shb, e.id()) ==> mem_idx(shs, e.id()));
                        }
                        lemma_shape_update_off(nodes2, e.id(), result, shm1);
                        lemma_shape_update_off(nodes2, e.id(), result, shm2);
                        assert(shape_ok(nodes3, shn));
                        assert(t == Ast::Op(
                            OpTag::Multiplication,
                            Box::new(ast_of(nodes0, shx)),
                            Box::new(ast_of(nodes0, shs)),
                        ));
                        assert(ast_of(nodes0, shs) == Ast::Op(
                            OpTag::Addition,
                            Box::new(ast_of(nodes0, sha)),
                            Box::new(ast_of(nodes0, shb)),
                        ));
                        assert(ast_of(nodes2, shx) == ast_of(nodes0, shx));
                        assert(ast_of(nodes2, sha) == ast_of(nodes0, sha));
                        assert(ast_of(nodes2, shb) == ast_of(nodes0, shb));
                        assert(ast_of(nodes3, shm1) == Ast::Op(
                            OpTag::Multiplication,
                            Box::new(ast_of(nodes0, shx)),
                            Box::new(ast_of(nodes0, sha)),
                        ));
                        assert(ast_of(nodes3, shm2) == Ast::Op(
                            OpTag::Multiplication,
                            Box::new(ast_of(nodes0, shx)),
                            Box::new(ast_of(nodes0, shb)),
                        ));
                        assert(ast_of(nodes3, shn) == rule_proposal(Rule::Distributivity, t));
                        assert(matched.valid_for(g.nodes@, e.id(), t));
                    }
                    Some(matched)
                },
            }
        },
    }
}

fn try_exponent_to_multiplication(g: &mut Graph, e: Expressions) -> (m: Option<Match>)
    requires
        wf_at(old(g).nodes@, e.id()),
        uniq(shape_of(old(g).nodes@, e.id())),
    ensures
        old(g).nodes@.len() <= final(g).nodes@.len(),
        forall|k: int| 0 <= k < old(g).nodes@.len() ==> final(g).nodes@[k] == old(g).nodes@[k],
        forall|i: int| #[trigger] wf_at(old(g).nodes@, i) ==> wf_at(final(g).nodes@, i)
            && shape_of(final(g).nodes@, i) == shape_of(old(g).nodes@, i) && view_of(
            final(g).nodes@,
            i,
        ) == view_of(old(g).nodes@, i),
        (m is Some) <==> rule_matches(
            Rule::ExponentToMultiplication,
            view_of(old(g).nodes@, e.id()),
        ),
        m is Some ==> m->Some_0.rule == Rule::ExponentToMultiplication && m->Some_0.valid_for(
            final(g).nodes@,
            e.id(),
            view_of(old(g).nodes@, e.id()),
        ) && m->Some_0.rendered@ == render_plain(
            rule_proposal(Rule::ExponentToMultiplication, view_of(old(g).nodes@, e.id())),
        ),
{
    let ghost nodes0 = g.nodes@;
    let ghost sh = shape_of(nodes0, e.id());
    let ghost t = view_of(nodes0, e.id());
    proof {
        assert(shape_ok(nodes0, sh) && root_of(sh) == e.id());
        crate::graph::lemma_append_preserves_all(nodes0, nodes0);
    }
    let parts: Option<(Expressions, Expressions)> = match &g.nodes[e.0] {
        Node::Operation(Operation::Exponentiation(ee)) => Some((ee.left, ee.right)),
        _ => Option::None,
    };
    match parts {
        Option::None => {
            proof {
                match sh {
                    IdxTree::Leaf(_) => {
                        assert(!(t is Op));
                    },
                    IdxTree::Branch(_, _, _) => {
                        assert(t->Op_0 == nodes0[e.id()]->Operation_0.tag());
                        assert(t->Op_0 != OpTag::Exponentiation);
                    },
                }
                assert(!rule_matches(Rule::ExponentToMultiplication, t));
            }
            Option::None
        },
        Some((a, x)) => {
            let ghost sha = *sh->Branch_1;
            let ghost shx = *sh->Branch_2;
            proof {
                lemma_canon(nodes0, sha);
                lemma_canon(nodes0, shx);
            }
            let one = g.leaf(Types::Natural(Natural::new(1)));
            let ghost nodes1 = g.nodes@;
            let s = g.operation(OpTag::Subtraction, x, one);
            let e2 = g.operation(OpTag::Exponentiation, a, s);
            let ghost nodes3 = g.nodes@;
            let result = Node::Operation(
                Operation::Multiplication(crate::graph::Multiplication { left: a, right: e2 }),
            );
            let ghost sh1 = IdxTree::Leaf(one.id());
            let ghost shs = IdxTree::Branch(s.id(), Box::new(shx), Box::new(sh1));
            let ghost she2 = IdxTree::Branch(e2.id(), Box::new(sha), Box::new(shs));
            let ghost shn = IdxTree::Branch(e.id(), Box::new(sha), Box::new(she2));
            proof {
                assert(shape_of(nodes3, e2.id()) == she2);
                assert(shape_of(nodes3, a.id()) == sha);
                assert(ast_of(nodes3, sha) == ast_of(nodes0, sha));
                assert(ast_of(nodes3, shx) == ast_of(nodes0, shx));
                assert(ast_of(nodes3, sh1) == Ast::Cst(Tier::Natural, 1));
                assert(t == Ast::Op(
                    OpTag::Exponentiation,
                    Box::new(ast_of(nodes0, sha)),
                    Box::new(ast_of(nodes0, shx)),
                ));
                reveal_strlit("(");
                reveal_strlit(")");
                reveal_strlit(" * ");
                assert("("@ =~= seq!['(']);
                assert(")"@ =~= seq![')']);
            }
            let ra = g.render(a);
            let re2 = g.render(e2);
            let mut text = String::new();
            text.append("(");
            text.append(ra.as_str());
            text.append(" * ");
            text.append(re2.as_str());
            text.append(")");
            proof {
                assert(text@ =~= render_plain(rule_proposal(Rule::ExponentToMultiplication, t)));
            }
            let matched = Match {
                rule: Rule::ExponentToMultiplication,
                result,
                rendered: text,
                shape: Ghost(shn),
            };
            proof {
                assert(shape_of(nodes3, e2.id()) == she2);
                assert(shape_ok(nodes3, she2));
                assert(shape_ok(nodes3, sha));
                let nodes4 = nodes3.update(e.id(), result);
                assert(!mem_idx(sha, e.id()));
                assert(!mem_idx(shx, e.id()));
                assert(!mem_idx(sh1, e.id()));
                assert(!mem_idx(shs, e.id()));
                assert(!mem_idx(she2, e.id()));
                lemma_shape_update_off(nodes3, e.id(), result, sha);
                lemma_shape_update_off(nodes3, e.id(), result, she2);
                assert(shape_ok(nodes4, shn));
                assert(t == Ast::Op(
                    OpTag::Exponentiation,
                    Box::new(ast_of(nodes0, sha)),
                    Box::new(ast_of(nodes0, shx)),
                ));
                assert(ast_of(nodes3, sha) == ast_of(nodes0, sha));
                assert(ast_of(nodes3, shx) == ast_of(nodes0, shx));
                assert(ast_of(nodes4, sha) == ast_of(nodes3, sha));
                assert(ast_of(nodes4, she2) == ast_of(nodes3, she2));
                assert(ast_of(nodes3, sh1) == Ast::Cst(Tier::Natural, 1));
                assert(ast_of(nodes3, shs) == Ast::Op(
                    OpTag::Subtraction,
                    Box::new(ast_of(nodes0, shx)),
                    Box::new(Ast::Cst(Tier::Natural, 1)),
                ));
                assert(ast_of(nodes3, she2) == Ast::Op(
                    OpTag::Exponentiation,
                    Box::new(ast_of(nodes0, sha)),
                    Box::new(ast_of(nodes3, shs)),
                ));
                assert(ast_of(nodes4, shn) == rule_proposal(Rule::ExponentToMultiplication, t));
                assert(matched.valid_for(g.nodes@, e.id(), t));
            }
            Some(matched)
        },
    }
}

fn try_exponent_identity(g: &mut Graph, e: Expressions) -> (m: Option<Match>)
    requires
        wf_at(old(g).nodes@, e.id()),
        uniq(shape_of(old(g).nodes@, e.id())),
    ensures
        old(g).nodes@.len() <= final(g).nodes@.len(),
        forall|k: int| 0 <= k < old(g).nodes@.len() ==> final(g).nodes@[k] == old(g).nodes@[k],
        forall|i: int| #[trigger] wf_at(old(g).nodes@, i) ==> wf_at(final(g).nodes@, i)
            && shape_of(final(g).nodes@, i) == shape_of(old(g).nodes@, i) && view_of(
            final(g).nodes@,
            i,
        ) == view_of(old(g).nodes@, i),
        (m is Some) <==> rule_matches(Rule::ExponentIdentity, view_of(old(g).nodes@, e.id())),
        m is Some ==> m->Some_0.rule == Rule::ExponentIdentity && m->Some_0.valid_for(
            final(g).nodes@,
            e.id(),
            view_of(old(g).nodes@, e.id()),
        ) && m->Some_0.rendered@ == render_plain(
            rule_proposal(Rule::ExponentIdentity, view_of(old(g).nodes@, e.id())),
        ),
{
    let ghost nodes0 = g.nodes@;
    let ghost sh = shape_of(nodes0, e.id());
    let ghost t = view_of(nodes0, e.id());
    proof {
        assert(shape_ok(nodes0, sh) && root_of(sh) == e.id());
        crate::graph::lemma_append_preserves_all(nodes0, nodes0);
    }
    let parts: Option<(Expressions, Expressions)> = match &g.nodes[e.0] {
        Node::Operation(Operation::Exponentiation(ee)) => Some((ee.left, ee.right)),
        _ => Option::None,
    };
    match parts {
        Option::None => {
            proof {
                match sh {
                    IdxTree::Leaf(_) => {
                        assert(!(t is Op));
                    },
                    IdxTree::Branch(_, _, _) => {
                        assert(t->Op_0 == nodes0[e.id()]->Operation_0.tag());
                        assert(t->Op_0 != OpTag::Exponentiation);
                    },
                }
                assert(!rule_matches(Rule::ExponentIdentity, t));
            }
            Option::None
        },
        Some((a, x)) => {
            let ghost sha = *sh->Branch_1;
            let ghost shx = *sh->Branch_2;
            proof {
                lemma_canon(nodes0, sha);
                lemma_canon(nodes0, shx);
            }
            let power_is_one = match &g.nodes[x.0] {
                Node::Value(t) => match t {
                    Types::Natural(Wrapper::Constant(c)) => c.get() == 1u32,
                    Types::Zahl(Wrapper::Constant(c)) => c.get() == 1i32,
                    Types::Real(Wrapper::Constant(c)) => c.get() == 1i64,
                    _ => false,
                },
                _ => false,
            };
            proof {
                assert(*t->Op_2 == ast_of(nodes0, shx));
                match shx {
                    IdxTree::Leaf(_) => {
                    },
                    IdxTree::Branch(_, _, _) => {
                        assert(!(*t->Op_2 is Cst));
                    },
                }
            }
            if !power_is_one {
                proof {
                    assert(!rule_matches(Rule::ExponentIdentity, t));
                }
                return Option::None;
            }
            let dc = g.deep_copy(a);
            let ghost nodesf = g.nodes@;
            let ghost shdc = shape_of(nodesf, dc.id());
            let result = g.nodes[dc.0].duplicate();
            let ghost shn = match shdc {
                IdxTree::Leaf(_) => IdxTree::Leaf(e.id()),
                IdxTree::Branch(_, l, r) => IdxTree::Branch(e.id(), l, r),
            };
            let text = g.render(dc);
            let matched = Match {
                rule: Rule::ExponentIdentity,
                result,
                rendered: text,
                shape: Ghost(shn),
            };
            proof {
                assert(shape_ok(nodesf, shdc) && root_of(shdc) == dc.id());
                crate::graph::lemma_mem_bounds(nodes0, sh);
                let nodes2 = nodesf.update(e.id(), result);
                match shdc {
                    IdxTree::Leaf(_) => {
                        assert(nodes2[e.id()] == result);
                        assert(shape_ok(nodes2, shn));
                        assert(ast_of(nodes2, shn) == ast_of(nodesf, shdc));
                    },
                    IdxTree::Branch(_, l, r) => {
                        assert(!mem_idx(*l, e.id())) by {
                            if mem_idx(*l, e.id()) {
                                assert(mem_idx(shdc, e.id()));
                            }
                        }
                        assert(!mem_idx(*r, e.id())) by {
                            if mem_idx(*r, e.id()) {
                                assert(mem_idx(shdc, e.id()));
                            }
                        }
                        lemma_shape_update_off(nodesf, e.id(), result, *l);
                        lemma_shape_update_off(nodesf, e.id(), result, *r);
                        assert(shape_ok(nodes2, shn));
                        assert(ast_of(nodes2, shn) == ast_of(nodesf, shdc));
                    },
                }
                assert(ast_of(nodesf, shdc) == view_of(nodes0, a.id()));
                assert(view_of(nodes0, a.id()) == ast_of(nodes0, sha));
                assert(rule_proposal(Rule::ExponentIdentity, t) == ast_of(nodes0, sha));
                assert(matched.valid_for(g.nodes@, e.id(), t));
            }
            Some(matched)
        },
    }
}

fn try_const_evaluation(g: &Graph, e: Expressions) -> (m: Option<Match>)
    requires
        wf_at(g.nodes@, e.id()),
    ensures
        (m is Some) <==> rule_matches(Rule::ConstEvaluation, view_of(g.nodes@, e.id())),
        m is Some ==> m->Some_0.rule == Rule::ConstEvaluation && m->Some_0.valid_for(
            g.nodes@,
            e.id(),
            view_of(g.nodes@, e.id()),
        ) && m->Some_0.rendered@ == render_plain(
            rule_proposal(Rule::ConstEvaluation, view_of(g.nodes@, e.id())),
        ),
{
    let ghost sh = shape_of(g.nodes@, e.id());
    let ghost t = view_of(g.nodes@, e.id());
    proof {
        assert(shape_ok(g.nodes@, sh) && root_of(sh) == e.id());
    }
    let is_op = matches!(&g.nodes[e.0], Node::Operation(_));
    if !is_op {
        return Option::None;
    }
    match g.solve(e) {
        Err(_) => Option::None,
        Ok(v) => {
            if v.is_value() {
                let text = crate::render::render_value(&v);
                let result = Node::Value(v);
                let ghost shn = IdxTree::Leaf(e.id());
                let matched = Match {
                    rule: Rule::ConstEvaluation,
                    result,
                    rendered: text,
                    shape: Ghost(shn),
                };
                proof {
                    let nodes2 = g.nodes@.update(e.id(), result);
                    assert(shape_ok(nodes2, shn));
                    assert(ast_of(nodes2, shn) == rule_proposal(Rule::ConstEvaluation, t));
                }
                Some(matched)
            } else {
                Option::None
            }
        },
    }
}

/// Evaluate every rule of the catalog against the node, in catalog
/// order, and return the ordered matches.  The returned index — not the
/// node's structure — is what a caller uses to pick a rule.  Matching
/// allocates the proposals' inner nodes, which disturbs nothing that
/// already exists.
pub fn find_all_rules(g: &mut Graph, e: Expressions) -> (ms: Vec<Match>)
    requires
        wf_at(old(g).nodes@, e.id()),
        uniq(shape_of(old(g).nodes@, e.id())),
    ensures
        old(g).nodes@.len() <= final(g).nodes@.len(),
        forall|k: int| 0 <= k < old(g).nodes@.len() ==> final(g).nodes@[k] == old(g).nodes@[k],
        forall|i: int| #[trigger] wf_at(old(g).nodes@, i) ==> wf_at(final(g).nodes@, i)
            && shape_of(final(g).nodes@, i) == shape_of(old(g).nodes@, i) && view_of(
            final(g).nodes@,
            i,
        ) == view_of(old(g).nodes@, i),
        ms@.len() == applicable_rules(view_of(old(g).nodes@, e.id())).len(),
        forall|i: int| 0 <= i < ms@.len() ==> (#[trigger] ms@[i]).rule == applicable_rules(
            view_of(old(g).nodes@, e.id()),
        )[i] && ms@[i].valid_for(final(g).nodes@, e.id(), view_of(old(g).nodes@, e.id()))
            && ms@[i].rendered@ == render_plain(
            rule_proposal(ms@[i].rule, view_of(old(g).nodes@, e.id())),
        ),
{
    let ghost nodes0 = g.nodes@;
    let ghost t = view_of(nodes0, e.id());
    let ghost c = e.id();
    proof {
        crate::graph::lemma_mem_bounds(nodes0, shape_of(nodes0, c));
        assert(mem_idx(shape_of(nodes0, c), c)) by {
            match shape_of(nodes0, c) {
                IdxTree::Leaf(_) => {
                },
                IdxTree::Branch(_, _, _) => {
                },
            }
        }
        assert(0 <= c < nodes0.len());
    }
    let mut ms: Vec<Match> = Vec::new();
    match try_distributivity(g, e) {
        Some(m) => ms.push(m),
        Option::None => {
        },
    }
    let ghost nodes1 = g.nodes@;
    match try_const_evaluation(&*g, e) {
        Some(m) => ms.push(m),
        Option::None => {
        },
    }
    let ghost ms2 = ms@;
    match try_exponent_to_multiplication(g, e) {
        Some(m) => ms.push(m),
        Option::None => {
        },
    }
    let ghost nodes3 = g.nodes@;
    proof {
        assert forall|i: int| 0 <= i < ms2.len() implies ms2[i].valid_for(nodes3, c, t) by {
            lemma_valid_for_append(ms2[i], nodes1, nodes3, c, t);
        }
    }
    let ghost ms3 = ms@;
    match try_exponent_identity(g, e) {
        Some(m) => ms.push(m),
        Option::None => {
        },
    }
    let ghost nodes4 = g.nodes@;
    proof {
        assert forall|i: int| 0 <= i < ms3.len() implies ms3[i].valid_for(nodes4, c, t) by {
            lemma_valid_for_append(ms3[i], nodes3, nodes4, c, t);
        }
        assert(ms@.len() == applicable_rules(t).len());
    }
    ms
}

} // verus!
