//! The numeric tower: widening between tiers and the four operators.
//!
//! Applying an operator first widens both operands to the wider tier,
//! then either folds two constants into one constant — never touching the
//! graph — or builds exactly one new operation node wrapping the two
//! operands.  Folding is checked: a result outside the tier's range is an
//! arithmetic error, never a wrap-around and never a panic.

use vstd::prelude::*;

use crate::values::{cst_in_range, tier_le, tier_max, Expressions, InnerNatural, InnerReal,
    InnerZahl, Tier, TypeTrait, Types, ValModel, Wrapper};
use crate::graph::{leaf_ast, shape_of, view_of, wf_at, Ast, Graph, Node, OpTag};

verus! {

/// Why an arithmetic step refused to produce a number.
#[derive(Clone, Copy, PartialEq, Eq, Structural, Debug)]
pub enum ArithmeticError {
    /// The exact result does not fit the result tier's range.
    Overflow,
    /// A constant was raised to a negative exponent.
    NegativeExponent,
}

/// The lowest number a tier's constants can carry.
pub open spec fn tier_lo(t: Tier) -> int {
    match t {
        Tier::Natural => 0,
        Tier::Zahl => i32::MIN as int,
        Tier::Real => i64::MIN as int,
    }
}

/// The highest number a tier's constants can carry.
pub open spec fn tier_hi(t: Tier) -> int {
    match t {
        Tier::Natural => u32::MAX as int,
        Tier::Zahl => i32::MAX as int,
        Tier::Real => i64::MAX as int,
    }
}

/// Exponentiation by repeated multiplication, where every intermediate
/// product must stay inside `[lo, hi]`; the first that leaves the range
/// makes the whole power undefined.
pub open spec fn pow_checked(b: int, e: nat, lo: int, hi: int) -> Option<int>
    decreases e,
{
    if e == 0 {
        Some(1)
    } else {
        match pow_checked(b, (e - 1) as nat, lo, hi) {
            Option::None => Option::None,
            Option::Some(a) => if lo <= a * b <= hi {
                Some(a * b)
            } else {
                Option::None
            },
        }
    }
}

proof fn lemma_pow_zero(e: nat, lo: int, hi: int)
    requires
        lo <= 0,
        hi >= 1,
    ensures
        pow_checked(0, e, lo, hi) == Some(if e == 0 { 1int } else { 0int }),
    decreases e,
{
    if e > 0 {
        lemma_pow_zero((e - 1) as nat, lo, hi);
    }
}

proof fn lemma_pow_one(e: nat, lo: int, hi: int)
    requires
        lo <= 1 <= hi,
    ensures
        pow_checked(1, e, lo, hi) == Some(1int),
    decreases e,
{
    if e > 0 {
        lemma_pow_one((e - 1) as nat, lo, hi);
    }
}

proof fn lemma_pow_neg_one(e: nat, lo: int, hi: int)
    requires
        lo <= -1,
        1 <= hi,
    ensures
        pow_checked(-1, e, lo, hi) == Some(if e % 2 == 0 { 1int } else { -1int }),
    decreases e,
{
    if e > 0 {
        lemma_pow_neg_one((e - 1) as nat, lo, hi);
    }
}

proof fn lemma_pow_none_propagates(b: int, e1: nat, e2: nat, lo: int, hi: int)
    requires
        e1 <= e2,
        pow_checked(b, e1, lo, hi) is None,
    ensures
        pow_checked(b, e2, lo, hi) is None,
    decreases e2,
{
    if e2 > e1 {
        lemma_pow_none_propagates(b, e1, (e2 - 1) as nat, lo, hi);
    }
}

/// The checked power inside `[lo, hi]`, or `None` as `pow_checked` says.
fn pow_in_range(b: i64, e: u64, lo: i64, hi: i64) -> (r: Option<i64>)
    requires
        lo <= 0,
        1 <= hi,
        lo <= b <= hi,
    ensures
        r is Some <==> pow_checked(b as int, e as nat, lo as int, hi as int) is Some,
        r is Some ==> pow_checked(b as int, e as nat, lo as int, hi as int) == Some(
            r->Some_0 as int,
        ),
{
    if b == 0 && e > 0 {
        proof {
            lemma_pow_zero(e as nat, lo as int, hi as int);
        }
        Some(0)
    } else if b == 1 || e == 0 {
        proof {
            if b == 1 {
                lemma_pow_one(e as nat, lo as int, hi as int);
            }
        }
        Some(1)
    } else if b == -1 {
        proof {
            lemma_pow_neg_one(e as nat, lo as int, hi as int);
        }
        Some(if e % 2 == 0 { 1 } else { -1 })
    } else {
        let mut acc: i64 = 1;
        let mut i: u64 = 0;
        loop
            invariant
                0 <= i <= e,
                lo <= 0,
                1 <= hi,
                lo <= b <= hi,
                lo <= acc <= hi,
                pow_checked(b as int, i as nat, lo as int, hi as int) == Some(acc as int),
            decreases e - i,
        {
            if i == e {
                return Some(acc);
            }
            proof {
                assert((acc as int) * (b as int) <= 0x4000_0000_0000_0000_0000_0000_0000_0000int
                    && (acc as int) * (b as int) >= -0x4000_0000_0000_0000_0000_0000_0000_0000int)
                    by (nonlinear_arith)
                    requires
                        -0x8000_0000_0000_0000int <= acc as int <= 0x7fff_ffff_ffff_ffffint,
                        -0x8000_0000_0000_0000int <= b as int <= 0x7fff_ffff_ffff_ffffint,
                ;
            }
            let wide: i128 = (acc as i128) * (b as i128);
            if wide < lo as i128 || wide > hi as i128 {
                proof {
                    lemma_pow_none_propagates(b as int, (i + 1) as nat, e as nat, lo as int,
                        hi as int);
                }
                return Option::None;
            }
            acc = wide as i64;
            i = i + 1;
        }
    }
}

/// A constant's exact value as a signed 64-bit number, together with its
/// tier; every tier's range fits.
pub open spec fn cst_val(m: ValModel) -> int {
    m->Cst_1
}

/// Widening a value to a wider tier: a constant keeps its number when the
/// target range holds it, a variable or deferred value is relabeled.
pub open spec fn widen_model(m: ValModel, t: Tier) -> Result<ValModel, ArithmeticError> {
    match m {
        ValModel::Cst(_, v) => if cst_in_range(t, v) {
            Ok(ValModel::Cst(t, v))
        } else {
            Err(ArithmeticError::Overflow)
        },
        ValModel::Var(_, n) => Ok(ValModel::Var(t, n)),
        ValModel::Sym(_, h) => Ok(ValModel::Sym(t, h)),
    }
}

/// Widen a value to a tier at least as wide as its own.  A constant's
/// number converts exactly or reports `Overflow`; a variable or deferred
/// value is relabeled, its symbolic content has nothing to lose.
pub fn widen(v: &Types, target: Tier) -> (r: Result<Types, ArithmeticError>)
    requires
        tier_le(v.spec_tier(), target),
    ensures
        match widen_model(v@, target) {
            Ok(m) => r is Ok && r->Ok_0@ == m,
            Err(e) => r is Err && r->Err_0 == e,
        },
{
    match target {
        Tier::Natural => Ok(v.duplicate()),
        Tier::Zahl => match v {
            Types::Natural(w) => match w {
                Wrapper::Constant(c) => {
                    let n = c.get();
                    if n <= i32::MAX as u32 {
                        Ok(Types::Zahl(Wrapper::Constant(InnerZahl::new(n as i32))))
                    } else {
                        Err(ArithmeticError::Overflow)
                    }
                },
                Wrapper::Variable(name) => Ok(Types::Zahl(Wrapper::Variable(name.clone()))),
                Wrapper::Expression(e) => Ok(Types::Zahl(Wrapper::Expression(*e))),
            },
            _ => Ok(v.duplicate()),
        },
        Tier::Real => match v {
            Types::Natural(w) => match w {
                Wrapper::Constant(c) => Ok(
                    Types::Real(Wrapper::Constant(InnerReal::new(c.get() as i64))),
                ),
                Wrapper::Variable(name) => Ok(Types::Real(Wrapper::Variable(name.clone()))),
                Wrapper::Expression(e) => Ok(Types::Real(Wrapper::Expression(*e))),
            },
            Types::Zahl(w) => match w {
                Wrapper::Constant(c) => Ok(
                    Types::Real(Wrapper::Constant(InnerReal::new(c.get() as i64))),
                ),
                Wrapper::Variable(name) => Ok(Types::Real(Wrapper::Variable(name.clone()))),
                Wrapper::Expression(e) => Ok(Types::Real(Wrapper::Expression(*e))),
            },
            Types::Real(_) => Ok(v.duplicate()),
        },
    }
}

/// The tier an operator's result belongs to: the wider of the operand
/// tiers, except that subtraction never answers in `Natural` — taking a
/// difference leaves the naturals, so both operands are lifted at least
/// to `Zahl`.
pub open spec fn op_tier(tag: OpTag, a: Tier, b: Tier) -> Tier {
    if tag is Subtraction {
        tier_max(tier_max(a, b), Tier::Zahl)
    } else {
        tier_max(a, b)
    }
}

/// Folding two same-tier constants: the exact result when the tier's
/// range holds it, `Overflow` when it does not, and `NegativeExponent`
/// for a power with a negative exponent.
pub open spec fn fold_cst(tag: OpTag, t: Tier, va: int, vb: int) -> Result<
    int,
    ArithmeticError,
> {
    match tag {
        OpTag::Addition => if cst_in_range(t, va + vb) {
            Ok(va + vb)
        } else {
            Err(ArithmeticError::Overflow)
        },
        OpTag::Subtraction => if cst_in_range(t, va - vb) {
            Ok(va - vb)
        } else {
            Err(ArithmeticError::Overflow)
        },
        OpTag::Multiplication => if cst_in_range(t, va * vb) {
            Ok(va * vb)
        } else {
            Err(ArithmeticError::Overflow)
        },
        OpTag::Exponentiation => if vb < 0 {
            Err(ArithmeticError::NegativeExponent)
        } else {
            match pow_checked(va, vb as nat, tier_lo(t), tier_hi(t)) {
                Option::Some(v) => Ok(v),
                Option::None => Err(ArithmeticError::Overflow),
            }
        },
    }
}

/// What applying an operator to two values yields: `Ok(Some((t, v)))` for
/// a fold to the constant `v` at tier `t`, `Ok(None)` when at least one
/// operand is symbolic and a graph node must carry the result, or the
/// error of widening or folding.  Widening failures are reported for the
/// left operand first.
pub open spec fn op_fold(tag: OpTag, a: ValModel, b: ValModel) -> Result<
    Option<(Tier, int)>,
    ArithmeticError,
> {
    let t = op_tier(tag, a.tier(), b.tier());
    match widen_model(a, t) {
        Err(e) => Err(e),
        Ok(wa) => match widen_model(b, t) {
            Err(e) => Err(e),
            Ok(wb) => if wa is Cst && wb is Cst {
                match fold_cst(tag, t, cst_val(wa), cst_val(wb)) {
                    Ok(v) => Ok(Some((t, v))),
                    Err(e) => Err(e),
                }
            } else {
                Ok(Option::None)
            },
        },
    }
}

/// Addition of two same-tier payloads, folding to a constant of the
/// output tier or reporting why it cannot.
pub trait Add<Rhs = Self>: Sized {
    type Output;

    fn add(self, other: Rhs) -> Result<Self::Output, ArithmeticError>;
}

/// Subtraction of two same-tier payloads.
pub trait Sub<Rhs = Self>: Sized {
    type Output;

    fn sub(self, other: Rhs) -> Result<Self::Output, ArithmeticError>;
}

/// Multiplication of two same-tier payloads.
pub trait Mul<Rhs = Self>: Sized {
    type Output;

    fn mul(self, other: Rhs) -> Result<Self::Output, ArithmeticError>;
}

/// Exponentiation of two same-tier payloads.
pub trait Exp<Rhs = Self>: Sized {
    type Output;

    fn exp(self, other: Rhs) -> Result<Self::Output, ArithmeticError>;
}

impl Add for InnerNatural {
    type Output = crate::values::Natural;

    fn add(self, other: Self) -> (r: Result<crate::values::Natural, ArithmeticError>)
        ensures
            match fold_cst(
                OpTag::Addition,
                Tier::Natural,
                self.spec_value() as int,
                other.spec_value() as int,
            ) {
                Ok(v) => r is Ok && r->Ok_0 is Constant && r->Ok_0->Constant_0.spec_value() == v,
                Err(e) => r is Err && r->Err_0 == e,
            },
    {
        match self.get().checked_add(other.get()) {
            Option::Some(v) => Ok(Wrapper::Constant(InnerNatural::new(v))),
            Option::None => Err(ArithmeticError::Overflow),
        }
    }
}

impl Mul for InnerNatural {
    type Output = crate::values::Natural;

    fn mul(self, other: Self) -> (r: Result<crate::values::Natural, ArithmeticError>)
        ensures
            match fold_cst(
                OpTag::Multiplication,
                Tier::Natural,
                self.spec_value() as int,
                other.spec_value() as int,
            ) {
                Ok(v) => r is Ok && r->Ok_0 is Constant && r->Ok_0->Constant_0.spec_value() == v,
                Err(e) => r is Err && r->Err_0 == e,
            },
    {
        match self.get().checked_mul(other.get()) {
            Option::Some(v) => Ok(Wrapper::Constant(InnerNatural::new(v))),
            Option::None => Err(ArithmeticError::Overflow),
        }
    }
}

impl Exp for InnerNatural {
    type Output = crate::values::Natural;

    fn exp(self, other: Self) -> (r: Result<crate::values::Natural, ArithmeticError>)
        ensures
            match fold_cst(
                OpTag::Exponentiation,
                Tier::Natural,
                self.spec_value() as int,
                other.spec_value() as int,
            ) {
                Ok(v) => r is Ok && r->Ok_0 is Constant && r->Ok_0->Constant_0.spec_value() == v,
                Err(e) => r is Err && r->Err_0 == e,
            },
    {
        match pow_in_range(self.get() as i64, other.get() as u64, 0, u32::MAX as i64) {
            Option::Some(v) => Ok(Wrapper::Constant(InnerNatural::new(v as u32))),
            Option::None => Err(ArithmeticError::Overflow),
        }
    }
}

impl Add for InnerZahl {
    type Output = crate::values::Zahl;

    fn add(self, other: Self) -> (r: Result<crate::values::Zahl, ArithmeticError>)
        ensures
            match fold_cst(
                OpTag::Addition,
                Tier::Zahl,
                self.spec_value() as int,
                other.spec_value() as int,
            ) {
                Ok(v) => r is Ok && r->Ok_0 is Constant && r->Ok_0->Constant_0.spec_value() == v,
                Err(e) => r is Err && r->Err_0 == e,
            },
    {
        match self.get().checked_add(other.get()) {
            Option::Some(v) => Ok(Wrapper::Constant(InnerZahl::new(v))),
            Option::None => Err(ArithmeticError::Overflow),
        }
    }
}

impl Sub for InnerZahl {
    type Output = crate::values::Zahl;

    fn sub(self, other: Self) -> (r: Result<crate::values::Zahl, ArithmeticError>)
        ensures
            match fold_cst(
                OpTag::Subtraction,
                Tier::Zahl,
                self.spec_value() as int,
                other.spec_value() as int,
            ) {
                Ok(v) => r is Ok && r->Ok_0 is Constant && r->Ok_0->Constant_0.spec_value() == v,
                Err(e) => r is Err && r->Err_0 == e,
            },
    {
        match self.get().checked_sub(other.get()) {
            Option::Some(v) => Ok(Wrapper::Constant(InnerZahl::new(v))),
            Option::None => Err(ArithmeticError::Overflow),
        }
    }
}

impl Mul for InnerZahl {
    type Output = crate::values::Zahl;

    fn mul(self, other: Self) -> (r: Result<crate::values::Zahl, ArithmeticError>)
        ensures
            match fold_cst(
                OpTag::Multiplication,
                Tier::Zahl,
                self.spec_value() as int,
                other.spec_value() as int,
            ) {
                Ok(v) => r is Ok && r->Ok_0 is Constant && r->Ok_0->Constant_0.spec_value() == v,
                Err(e) => r is Err && r->Err_0 == e,
            },
    {
        match self.get().checked_mul(other.get()) {
            Option::Some(v) => Ok(Wrapper::Constant(InnerZahl::new(v))),
            Option::None => Err(ArithmeticError::Overflow),
        }
    }
}

impl Exp for InnerZahl {
    type Output = crate::values::Zahl;

    fn exp(self, other: Self) -> (r: Result<crate::values::Zahl, ArithmeticError>)
        ensures
            match fold_cst(
                OpTag::Exponentiation,
                Tier::Zahl,
                self.spec_value() as int,
                other.spec_value() as int,
            ) {
                Ok(v) => r is Ok && r->Ok_0 is Constant && r->Ok_0->Constant_0.spec_value() == v,
                Err(e) => r is Err && r->Err_0 == e,
            },
    {
        let e = other.get();
        if e < 0 {
            Err(ArithmeticError::NegativeExponent)
        } else {
            match pow_in_range(self.get() as i64, e as u64, i32::MIN as i64, i32::MAX as i64) {
                Option::Some(v) => Ok(Wrapper::Constant(InnerZahl::new(v as i32))),
                Option::None => Err(ArithmeticError::Overflow),
            }
        }
    }
}

impl Add for InnerReal {
    type Output = crate::values::WrappedReal;

    fn add(self, other: Self) -> (r: Result<crate::values::WrappedReal, ArithmeticError>)
        ensures
            match fold_cst(
                OpTag::Addition,
                Tier::Real,
                self.spec_value() as int,
                other.spec_value() as int,
            ) {
                Ok(v) => r is Ok && r->Ok_0 is Constant && r->Ok_0->Constant_0.spec_value() == v,
                Err(e) => r is Err && r->Err_0 == e,
            },
    {
        match self.get().checked_add(other.get()) {
            Option::Some(v) => Ok(Wrapper::Constant(InnerReal::new(v))),
            Option::None => Err(ArithmeticError::Overflow),
        }
    }
}

impl Sub for InnerReal {
    type Output = crate::values::WrappedReal;

    fn sub(self, other: Self) -> (r: Result<crate::values::WrappedReal, ArithmeticError>)
        ensures
            match fold_cst(
                OpTag::Subtraction,
                Tier::Real,
                self.spec_value() as int,
                other.spec_value() as int,
            ) {
                Ok(v) => r is Ok && r->Ok_0 is Constant && r->Ok_0->Constant_0.spec_value() == v,
                Err(e) => r is Err && r->Err_0 == e,
            },
    {
        match self.get().checked_sub(other.get()) {
            Option::Some(v) => Ok(Wrapper::Constant(InnerReal::new(v))),
            Option::None => Err(ArithmeticError::Overflow),
        }
    }
}

impl Mul for InnerReal {
    type Output = crate::values::WrappedReal;

    fn mul(self, other: Self) -> (r: Result<crate::values::WrappedReal, ArithmeticError>)
        ensures
            match fold_cst(
                OpTag::Multiplication,
                Tier::Real,
                self.spec_value() as int,
                other.spec_value() as int,
            ) {
                Ok(v) => r is Ok && r->Ok_0 is Constant && r->Ok_0->Constant_0.spec_value() == v,
                Err(e) => r is Err && r->Err_0 == e,
            },
    {
        match self.get().checked_mul(other.get()) {
            Option::Some(v) => Ok(Wrapper::Constant(InnerReal::new(v))),
            Option::None => Err(ArithmeticError::Overflow),
        }
    }
}

impl Exp for InnerReal {
    type Output = crate::values::WrappedReal;

    fn exp(self, other: Self) -> (r: Result<crate::values::WrappedReal, ArithmeticError>)
        ensures
            match fold_cst(
                OpTag::Exponentiation,
                Tier::Real,
                self.spec_value() as int,
                other.spec_value() as int,
            ) {
                Ok(v) => r is Ok && r->Ok_0 is Constant && r->Ok_0->Constant_0.spec_value() == v,
                Err(e) => r is Err && r->Err_0 == e,
            },
    {
        let e = other.get();
        if e < 0 {
            Err(ArithmeticError::NegativeExponent)
        } else {
            match pow_in_range(self.get(), e as u64, i64::MIN, i64::MAX) {
                Option::Some(v) => Ok(Wrapper::Constant(InnerReal::new(v))),
                Option::None => Err(ArithmeticError::Overflow),
            }
        }
    }
}

/// Fold two constants of one tier into one constant of that tier, or
/// report exactly why the tier's arithmetic refuses.
pub fn fold_constants(tag: OpTag, a: &Types, b: &Types) -> (r: Result<Types, ArithmeticError>)
    requires
        a@ is Cst,
        b@ is Cst,
        a.spec_tier() == b.spec_tier(),
        !(tag is Subtraction && a.spec_tier() is Natural),
    ensures
        match fold_cst(tag, a.spec_tier(), cst_val(a@), cst_val(b@)) {
            Ok(v) => r is Ok && r->Ok_0@ == ValModel::Cst(a.spec_tier(), v),
            Err(e) => r is Err && r->Err_0 == e,
        },
{
    match (a, b) {
        (Types::Natural(Wrapper::Constant(x)), Types::Natural(Wrapper::Constant(y))) => {
            let res = match tag {
                OpTag::Addition => (*x).add(*y),
                OpTag::Subtraction => {
                    proof {
                        assert(false);
                    }
                    Err(ArithmeticError::Overflow)
                },
                OpTag::Multiplication => (*x).mul(*y),
                OpTag::Exponentiation => (*x).exp(*y),
            };
            match res {
                Ok(w) => Ok(Types::Natural(w)),
                Err(e) => Err(e),
            }
        },
        (Types::Zahl(Wrapper::Constant(x)), Types::Zahl(Wrapper::Constant(y))) => {
            let res = match tag {
                OpTag::Addition => (*x).add(*y),
                OpTag::Subtraction => (*x).sub(*y),
                OpTag::Multiplication => (*x).mul(*y),
                OpTag::Exponentiation => (*x).exp(*y),
            };
            match res {
                Ok(w) => Ok(Types::Zahl(w)),
                Err(e) => Err(e),
            }
        },
        (Types::Real(Wrapper::Constant(x)), Types::Real(Wrapper::Constant(y))) => {
            let res = match tag {
                OpTag::Addition => (*x).add(*y),
                OpTag::Subtraction => (*x).sub(*y),
                OpTag::Multiplication => (*x).mul(*y),
                OpTag::Exponentiation => (*x).exp(*y),
            };
            match res {
                Ok(w) => Ok(Types::Real(w)),
                Err(e) => Err(e),
            }
        },
        _ => {
            proof {
                assert(false);
            }
            Err(ArithmeticError::Overflow)
        },
    }
}

/// The result tier of one operator application.
pub fn result_tier(tag: OpTag, a: Tier, b: Tier) -> (t: Tier)
    ensures
        t == op_tier(tag, a, b),
{
    let m = if matches!(a, Tier::Real) || matches!(b, Tier::Real) {
        Tier::Real
    } else if matches!(a, Tier::Zahl) || matches!(b, Tier::Zahl) {
        Tier::Zahl
    } else {
        Tier::Natural
    };
    if matches!(tag, OpTag::Subtraction) && matches!(m, Tier::Natural) {
        Tier::Zahl
    } else {
        m
    }
}

/// A value of tier `t` that defers to the node `e`.
pub fn sym_value(t: Tier, e: Expressions) -> (r: Types)
    ensures
        r@ == ValModel::Sym(t, e.id()),
{
    match t {
        Tier::Natural => Types::Natural(Wrapper::Expression(e)),
        Tier::Zahl => Types::Zahl(Wrapper::Expression(e)),
        Tier::Real => Types::Real(Wrapper::Expression(e)),
    }
}

/// What an operand means once it stands under a new operation node: a
/// deferred value means the subtree it points at, anything else is a
/// fresh leaf.
pub open spec fn operand_view(nodes: Seq<Node>, m: ValModel) -> Ast {
    match m {
        ValModel::Sym(_, h) => view_of(nodes, h),
        _ => leaf_ast(m),
    }
}

impl Graph {
    /// Convert an operand into a graph handle: a deferred value is
    /// already backed by a node and hands over its handle; a constant or
    /// variable becomes a fresh leaf.
    fn embed(&mut self, v: Types) -> (e: Expressions)
        requires
            v@ is Sym ==> wf_at(old(self).nodes@, v@->Sym_1),
        ensures
            v@ is Sym ==> final(self).nodes@ == old(self).nodes@ && e.id() == v@->Sym_1,
            !(v@ is Sym) ==> final(self).nodes@ == old(self).nodes@.push(Node::Value(v))
                && e.id() == old(self).nodes@.len(),
            wf_at(final(self).nodes@, e.id()),
            view_of(final(self).nodes@, e.id()) == operand_view(old(self).nodes@, v@),
            forall|i: int| #[trigger] wf_at(old(self).nodes@, i) ==> wf_at(final(self).nodes@, i)
                && shape_of(final(self).nodes@, i) == shape_of(old(self).nodes@, i) && view_of(
                final(self).nodes@,
                i,
            ) == view_of(old(self).nodes@, i),
    {
        let is_sym = matches!(
            v,
            Types::Natural(Wrapper::Expression(_)) | Types::Zahl(Wrapper::Expression(_))
                | Types::Real(Wrapper::Expression(_))
        );
        if is_sym {
            let e = match &v {
                Types::Natural(Wrapper::Expression(e)) => *e,
                Types::Zahl(Wrapper::Expression(e)) => *e,
                Types::Real(Wrapper::Expression(e)) => *e,
                _ => Expressions(0),
            };
            proof {
                lemma_append_preserves_all_same(self.nodes@);
            }
            e
        } else {
            self.leaf(v)
        }
    }

    /// One operator application, as the tower defines it: widen both
    /// operands to the result tier, fold two constants without touching
    /// the graph, and otherwise build exactly one new operation node that
    /// wraps the two (widened) operands.
    pub fn apply_op(&mut self, tag: OpTag, a: Types, b: Types) -> (r: Result<
        Types,
        ArithmeticError,
    >)
        requires
            a@ is Sym ==> wf_at(old(self).nodes@, a@->Sym_1),
            b@ is Sym ==> wf_at(old(self).nodes@, b@->Sym_1),
        ensures
            op_fold(tag, a@, b@) is Err ==> r is Err && r->Err_0 == op_fold(tag, a@, b@)->Err_0
                && final(self).nodes@ == old(self).nodes@,
            (op_fold(tag, a@, b@) matches Ok(Some((t, v))) ==> r is Ok && r->Ok_0@
                == ValModel::Cst(t, v) && final(self).nodes@ == old(self).nodes@),
            op_fold(tag, a@, b@) == Ok::<_, ArithmeticError>(Option::<(Tier, int)>::None) ==> {
                let t = op_tier(tag, a@.tier(), b@.tier());
                let n = final(self).nodes@.len() - 1;
                &&& r is Ok
                &&& r->Ok_0@ == ValModel::Sym(t, n)
                &&& final(self).nodes@.len() > old(self).nodes@.len()
                &&& (forall|k: int|
                    0 <= k < old(self).nodes@.len()
                        ==> final(self).nodes@[k] == old(self).nodes@[k])
                &&& final(self).nodes@.last() is Operation
                &&& (forall|j: int|
                    old(self).nodes@.len() <= j < final(self).nodes@.len() - 1
                        ==> final(self).nodes@[j] is Value)
                &&& wf_at(final(self).nodes@, n)
                &&& view_of(final(self).nodes@, n) == Ast::Op(
                    tag,
                    Box::new(operand_view(old(self).nodes@, widen_model(a@, t)->Ok_0)),
                    Box::new(operand_view(old(self).nodes@, widen_model(b@, t)->Ok_0)),
                )
            },
            forall|i: int| #[trigger] wf_at(old(self).nodes@, i) ==> wf_at(final(self).nodes@, i)
                && shape_of(final(self).nodes@, i) == shape_of(old(self).nodes@, i) && view_of(
                final(self).nodes@,
                i,
            ) == view_of(old(self).nodes@, i),
    {
        let t = result_tier(tag, a.tier(), b.tier());
        proof {
            lemma_append_preserves_all_same(self.nodes@);
        }
        let wa = match widen(&a, t) {
            Ok(w) => w,
            Err(e) => {
                return Err(e);
            },
        };
        let wb = match widen(&b, t) {
            Ok(w) => w,
            Err(e) => {
                return Err(e);
            },
        };
        if wa.is_value() && wb.is_value() {
            match fold_constants(tag, &wa, &wb) {
                Ok(c) => Ok(c),
                Err(e) => Err(e),
            }
        } else {
            let ghost nodes0 = self.nodes@;
            let ea = self.embed(wa);
            let ghost nodes1 = self.nodes@;
            let eb = self.embed(wb);
            let ghost nodes2 = self.nodes@;
            let n = self.operation(tag, ea, eb);
            proof {
                assert(view_of(nodes2, ea.id()) == view_of(nodes1, ea.id()));
            }
            Ok(sym_value(t, n))
        }
    }
}

/// The degenerate form of growth: nothing appended at all.
proof fn lemma_append_preserves_all_same(a: Seq<Node>)
    ensures
        forall|i: int| #[trigger] wf_at(a, i) ==> wf_at(a, i) && shape_of(a, i) == shape_of(a, i)
            && view_of(a, i) == view_of(a, i),
{
}

} // verus!
