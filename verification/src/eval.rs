//! Evaluation: `solve` recursively folds a subtree to a single value.
//!
//! A leaf solves to its own value; an operation solves both children and
//! applies the tier-aware operator.  Solving never mutates the graph:
//! where folding is impossible because a variable stands in the way, the
//! result is a deferred value that points back at the node itself, tagged
//! with the tier the operation would answer in.

use vstd::prelude::*;

use crate::values::{Expressions, Tier, TypeTrait, Types, ValModel};
use crate::graph::{ast_of, shape_ok, shape_of, view_of, wf_at, Ast, Graph, IdxTree, Node};
use crate::tower::{fold_constants, op_fold, op_tier, result_tier, widen, ArithmeticError};

verus! {

/// The model of a solved child: its constant value when it folded, or
/// only its tier when it stayed symbolic.
pub open spec fn solved_as_model(t: Tier, v: Option<int>) -> ValModel {
    match v {
        Option::Some(x) => ValModel::Cst(t, x),
        Option::None => ValModel::Var(t, Seq::empty()),
    }
}

/// What solving an expression yields: its tier, and its constant value
/// when every leaf below is a constant and every fold stays in range.
pub open spec fn solve_spec(t: Ast) -> Result<(Tier, Option<int>), ArithmeticError>
    decreases t,
{
    match t {
        Ast::Cst(tier, v) => Ok((tier, Some(v))),
        Ast::Var(tier, _) => Ok((tier, Option::None)),
        Ast::Op(tag, l, r) => match solve_spec(*l) {
            Err(e) => Err(e),
            Ok((ta, va)) => match solve_spec(*r) {
                Err(e) => Err(e),
                Ok((tb, vb)) => match op_fold(
                    tag,
                    solved_as_model(ta, va),
                    solved_as_model(tb, vb),
                ) {
                    Err(e) => Err(e),
                    Ok(Some((tt, v))) => Ok((tt, Some(v))),
                    Ok(Option::None) => Ok((op_tier(tag, ta, tb), Option::None)),
                },
            },
        },
    }
}

/// Apply one operator to two already-solved values, without a graph:
/// `Ok(Some(c))` when the pair folds to the constant `c`, `Ok(None)` when
/// at least one side is symbolic, and the widening or folding error
/// otherwise.
pub fn combine_values(tag: crate::graph::OpTag, a: &Types, b: &Types) -> (r: Result<
    Option<Types>,
    ArithmeticError,
>)
    ensures
        op_fold(tag, a@, b@) is Err ==> r is Err && r->Err_0 == op_fold(tag, a@, b@)->Err_0,
        (op_fold(tag, a@, b@) matches Ok(Some((t, v))) ==> r is Ok && r->Ok_0 is Some
            && r->Ok_0->Some_0@ == ValModel::Cst(t, v)),
        op_fold(tag, a@, b@) == Ok::<Option<(Tier, int)>, ArithmeticError>(Option::None) ==> r
            is Ok && r->Ok_0 is None,
{
    let t = result_tier(tag, a.tier(), b.tier());
    match widen(a, t) {
        Err(e) => Err(e),
        Ok(wa) => match widen(b, t) {
            Err(e) => Err(e),
            Ok(wb) => {
                if wa.is_value() && wb.is_value() {
                    match fold_constants(tag, &wa, &wb) {
                        Ok(c) => Ok(Some(c)),
                        Err(e) => Err(e),
                    }
                } else {
                    Ok(Option::None)
                }
            },
        },
    }
}

impl Types {
    /// A leaf value solves to itself.
    pub fn solve(&self) -> (r: Types)
        ensures
            r@ == self@,
    {
        self.duplicate()
    }

    /// A leaf value has no children.
    pub fn get_children(&self) -> (cs: Vec<Expressions>)
        ensures
            cs@.len() == 0,
    {
        Vec::new()
    }

    /// Re-embed this value as a fresh node: a plain value becomes a new
    /// leaf, a deferred value a deep copy of the subtree it points at.
    pub fn copy(&self, g: &mut Graph) -> (e: Expressions)
        requires
            self@ is Sym ==> wf_at(old(g).nodes@, self@->Sym_1),
        ensures
            old(g).nodes@.len() <= final(g).nodes@.len(),
            forall|k: int|
                0 <= k < old(g).nodes@.len() ==> final(g).nodes@[k] == old(g).nodes@[k],
            wf_at(final(g).nodes@, e.id()),
            view_of(final(g).nodes@, e.id()) == crate::tower::operand_view(
                old(g).nodes@,
                self@,
            ),
    {
        let sym_target: Option<Expressions> = match self {
            Types::Natural(crate::values::Wrapper::Expression(h)) => Some(*h),
            Types::Zahl(crate::values::Wrapper::Expression(h)) => Some(*h),
            Types::Real(crate::values::Wrapper::Expression(h)) => Some(*h),
            _ => Option::None,
        };
        match sym_target {
            Some(h) => g.deep_copy(h),
            Option::None => g.leaf(self.duplicate()),
        }
    }
}

impl Graph {
    /// The recursive worker behind `solve`.
    pub(crate) fn solve_at(&self, e: Expressions, sh: Ghost<IdxTree>) -> (r: Result<Types, ArithmeticError>)
        requires
            shape_ok(self.nodes@, sh@),
            crate::graph::root_of(sh@) == e.id(),
        ensures
            match solve_spec(ast_of(self.nodes@, sh@)) {
                Ok((t, v)) => r is Ok && (match v {
                    Option::Some(x) => r->Ok_0@ == ValModel::Cst(t, x),
                    Option::None => r->Ok_0.spec_tier() == t && !(r->Ok_0@ is Cst),
                }),
                Err(e2) => r is Err && r->Err_0 == e2,
            },
        decreases sh@,
    {
        match &self.nodes[e.0] {
            Node::Value(t) => Ok(t.solve()),
            Node::Operation(op) => {
                let kind = op.kind();
                let (l, rgt) = op.sides();
                let lv = match self.solve_at(l, Ghost(*sh@->Branch_1)) {
                    Ok(v) => v,
                    Err(err) => {
                        return Err(err);
                    },
                };
                let rv = match self.solve_at(rgt, Ghost(*sh@->Branch_2)) {
                    Ok(v) => v,
                    Err(err) => {
                        return Err(err);
                    },
                };
                proof {
                    let ml = lv@;
                    let mr = rv@;
                    let sl = solve_spec(ast_of(self.nodes@, *sh@->Branch_1))->Ok_0;
                    let sr = solve_spec(ast_of(self.nodes@, *sh@->Branch_2))->Ok_0;
                    assert(op_fold(kind, ml, mr) == op_fold(
                        kind,
                        solved_as_model(sl.0, sl.1),
                        solved_as_model(sr.0, sr.1),
                    ));
                }
                match combine_values(kind, &lv, &rv) {
                    Err(err) => Err(err),
                    Ok(Some(c)) => Ok(c),
                    Ok(Option::None) => {
                        let t = result_tier(kind, lv.tier(), rv.tier());
                        Ok(crate::tower::sym_value(t, e))
                    },
                }
            },
        }
    }

    /// Recursively evaluate the subtree at `e`.  This is a pure query: it
    /// never mutates the graph.  It answers the folded constant when
    /// everything below is constant, a deferred value carrying the
    /// result tier when a variable blocks folding, and the arithmetic
    /// error when widening or folding refuses.
    pub fn solve(&self, e: Expressions) -> (r: Result<Types, ArithmeticError>)
        requires
            wf_at(self.nodes@, e.id()),
        ensures
            match solve_spec(view_of(self.nodes@, e.id())) {
                Ok((t, v)) => r is Ok && (match v {
                    Option::Some(x) => r->Ok_0@ == ValModel::Cst(t, x),
                    Option::None => r->Ok_0.spec_tier() == t && !(r->Ok_0@ is Cst),
                }),
                Err(e2) => r is Err && r->Err_0 == e2,
            },
    {
        let ghost sh = shape_of(self.nodes@, e.id());
        proof {
            assert(shape_ok(self.nodes@, sh) && crate::graph::root_of(sh) == e.id());
        }
        self.solve_at(e, Ghost(sh))
    }
}

} // verus!
