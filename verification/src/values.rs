//! The tiered scalar values: each value belongs to a tier (`Natural`,
//! `Zahl` or `Real`, ordered by widening capability) and is either a
//! concrete constant, a named free variable, or a deferred result that
//! points at a graph node.

use vstd::prelude::*;

verus! {

/// A handle to one node of the expression graph: the index of its slot in
/// the graph's arena.  Two handles alias exactly when they hold the same
/// index.
#[derive(Clone, Copy, PartialEq, Eq, Structural, Debug)]
pub struct Expressions(pub usize);

impl Expressions {
    /// The slot index, as a mathematical integer.
    pub open spec fn id(self) -> int {
        self.0 as int
    }
}

/// One tier of the numeric tower, ordered `Natural < Zahl < Real`.
#[derive(Clone, Copy, PartialEq, Eq, Structural, Debug)]
pub enum Tier {
    Natural,
    Zahl,
    Real,
}

/// The position of a tier in the widening order.
pub open spec fn tier_rank(t: Tier) -> int {
    match t {
        Tier::Natural => 0,
        Tier::Zahl => 1,
        Tier::Real => 2,
    }
}

/// `a` widens to `b`.
pub open spec fn tier_le(a: Tier, b: Tier) -> bool {
    tier_rank(a) <= tier_rank(b)
}

/// The wider of two tiers.
pub open spec fn tier_max(a: Tier, b: Tier) -> Tier {
    if tier_le(a, b) {
        b
    } else {
        a
    }
}

/// The mathematical content of a typed value: a constant with its number,
/// a variable with its name, or a deferred value with the index of the
/// graph node it stands for.  The tier is part of the shape.
pub enum ValModel {
    Cst(Tier, int),
    Var(Tier, Seq<char>),
    Sym(Tier, int),
}

impl ValModel {
    pub open spec fn tier(self) -> Tier {
        match self {
            ValModel::Cst(t, _) => t,
            ValModel::Var(t, _) => t,
            ValModel::Sym(t, _) => t,
        }
    }

}

/// The range of numbers a tier's constants can carry.
pub open spec fn cst_in_range(t: Tier, v: int) -> bool {
    match t {
        Tier::Natural => 0 <= v <= u32::MAX,
        Tier::Zahl => i32::MIN <= v <= i32::MAX,
        Tier::Real => i64::MIN <= v <= i64::MAX,
    }
}

/// The payload of a `Natural` constant: an unsigned 32-bit number.
#[derive(Clone, Copy, Debug)]
pub struct InnerNatural(u32);

impl InnerNatural {
    pub closed spec fn spec_value(&self) -> u32 {
        self.0
    }

    pub fn new(value: u32) -> (r: Self)
        ensures
            r.spec_value() == value,
    {
        Self(value)
    }

    pub fn get(&self) -> (r: u32)
        ensures
            r == self.spec_value(),
    {
        self.0
    }
}

/// The payload of a `Zahl` constant: a signed 32-bit integer.
#[derive(Clone, Copy, Debug)]
pub struct InnerZahl(i32);

impl InnerZahl {
    pub closed spec fn spec_value(&self) -> i32 {
        self.0
    }

    pub fn new(value: i32) -> (r: Self)
        ensures
            r.spec_value() == value,
    {
        Self(value)
    }

    pub fn get(&self) -> (r: i32)
        ensures
            r == self.spec_value(),
    {
        self.0
    }
}

/// The payload of a `Real` constant.  The widest tier carries an exact
/// signed 64-bit value, so that widening from the narrower tiers is exact
/// and folding stays checkable.
#[derive(Clone, Copy, Debug)]
pub struct InnerReal(i64);

impl InnerReal {
    pub closed spec fn spec_value(&self) -> i64 {
        self.0
    }

    pub fn new(value: i64) -> (r: Self)
        ensures
            r.spec_value() == value,
    {
        Self(value)
    }

    pub fn get(&self) -> (r: i64)
        ensures
            r == self.spec_value(),
    {
        self.0
    }
}

/// A value of one tier: a concrete constant, a named variable, or a
/// deferred result referring to a graph node.
#[derive(Clone, Debug)]
pub enum Wrapper<T> {
    Constant(T),
    Variable(String),
    Expression(Expressions),
}

impl<T> Wrapper<T> {
    pub fn new_variable(name: &str) -> (r: Self)
        ensures
            r is Variable,
            r->Variable_0@ == name@,
    {
        Wrapper::Variable(name.to_owned())
    }
}

pub type Natural = Wrapper<InnerNatural>;

pub type Zahl = Wrapper<InnerZahl>;

pub type WrappedReal = Wrapper<InnerReal>;

/// What every tiered value can answer about its own form.
pub trait TypeTrait {
    fn is_value(&self) -> bool;

    fn is_variable(&self) -> bool;
}

impl<T> TypeTrait for Wrapper<T> {
    fn is_value(&self) -> (r: bool)
        ensures
            r == (self is Constant),
    {
        matches!(self, Wrapper::Constant(_))
    }

    fn is_variable(&self) -> (r: bool)
        ensures
            r == (self is Variable),
    {
        matches!(self, Wrapper::Variable(_))
    }
}

/// A value of any tier.
#[derive(Clone, Debug)]
pub enum Types {
    Natural(Natural),
    Zahl(Zahl),
    Real(WrappedReal),
}

impl Natural {
    pub fn new(value: u32) -> (r: Self)
        ensures
            r is Constant,
            r->Constant_0.spec_value() == value,
    {
        Self::Constant(InnerNatural::new(value))
    }

    pub fn get_type(&self) -> (r: &'static str)
        ensures
            r@ == "Natural"@,
    {
        "Natural"
    }
}

impl Zahl {
    pub fn new(value: i32) -> (r: Self)
        ensures
            r is Constant,
            r->Constant_0.spec_value() == value,
    {
        Self::Constant(InnerZahl::new(value))
    }

    pub fn get_type(&self) -> (r: &'static str)
        ensures
            r@ == "Zahl"@,
    {
        "Zahl"
    }
}

impl WrappedReal {
    pub fn new(value: i64) -> (r: Self)
        ensures
            r is Constant,
            r->Constant_0.spec_value() == value,
    {
        Self::Constant(InnerReal::new(value))
    }

    pub fn get_type(&self) -> (r: &'static str)
        ensures
            r@ == "Real"@,
    {
        "Real"
    }
}

impl View for Types {
    type V = ValModel;

    open spec fn view(&self) -> ValModel {
        match self {
            Types::Natural(w) => match w {
                Wrapper::Constant(c) => ValModel::Cst(Tier::Natural, c.spec_value() as int),
                Wrapper::Variable(n) => ValModel::Var(Tier::Natural, n@),
                Wrapper::Expression(e) => ValModel::Sym(Tier::Natural, e.id()),
            },
            Types::Zahl(w) => match w {
                Wrapper::Constant(c) => ValModel::Cst(Tier::Zahl, c.spec_value() as int),
                Wrapper::Variable(n) => ValModel::Var(Tier::Zahl, n@),
                Wrapper::Expression(e) => ValModel::Sym(Tier::Zahl, e.id()),
            },
            Types::Real(w) => match w {
                Wrapper::Constant(c) => ValModel::Cst(Tier::Real, c.spec_value() as int),
                Wrapper::Variable(n) => ValModel::Var(Tier::Real, n@),
                Wrapper::Expression(e) => ValModel::Sym(Tier::Real, e.id()),
            },
        }
    }
}

impl Types {
    /// The tier a value belongs to.
    pub open spec fn spec_tier(&self) -> Tier {
        self@.tier()
    }

    pub fn tier(&self) -> (t: Tier)
        ensures
            t == self.spec_tier(),
    {
        match self {
            Types::Natural(_) => Tier::Natural,
            Types::Zahl(_) => Tier::Zahl,
            Types::Real(_) => Tier::Real,
        }
    }

    /// The tier's display tag.
    pub fn get_type(&self) -> (r: &'static str)
        ensures
            self.spec_tier() == Tier::Natural ==> r@ == "Natural"@,
            self.spec_tier() == Tier::Zahl ==> r@ == "Zahl"@,
            self.spec_tier() == Tier::Real ==> r@ == "Real"@,
    {
        match self {
            Types::Natural(w) => w.get_type(),
            Types::Zahl(w) => w.get_type(),
            Types::Real(w) => w.get_type(),
        }
    }
}

impl Types {
    /// An exact copy: same tier, same payload.
    pub fn duplicate(&self) -> (r: Types)
        ensures
            r@ == self@,
    {
        match self {
            Types::Natural(w) => Types::Natural(
                match w {
                    Wrapper::Constant(c) => Wrapper::Constant(InnerNatural::new(c.get())),
                    Wrapper::Variable(n) => Wrapper::Variable(n.clone()),
                    Wrapper::Expression(e) => Wrapper::Expression(*e),
                },
            ),
            Types::Zahl(w) => Types::Zahl(
                match w {
                    Wrapper::Constant(c) => Wrapper::Constant(InnerZahl::new(c.get())),
                    Wrapper::Variable(n) => Wrapper::Variable(n.clone()),
                    Wrapper::Expression(e) => Wrapper::Expression(*e),
                },
            ),
            Types::Real(w) => Types::Real(
                match w {
                    Wrapper::Constant(c) => Wrapper::Constant(InnerReal::new(c.get())),
                    Wrapper::Variable(n) => Wrapper::Variable(n.clone()),
                    Wrapper::Expression(e) => Wrapper::Expression(*e),
                },
            ),
        }
    }
}

impl TypeTrait for Types {
    fn is_value(&self) -> (r: bool)
        ensures
            r == (self@ is Cst),
    {
        match self {
            Types::Natural(w) => w.is_value(),
            Types::Zahl(w) => w.is_value(),
            Types::Real(w) => w.is_value(),
        }
    }

    fn is_variable(&self) -> (r: bool)
        ensures
            r == (self@ is Var),
    {
        match self {
            Types::Natural(w) => w.is_variable(),
            Types::Zahl(w) => w.is_variable(),
            Types::Real(w) => w.is_variable(),
        }
    }
}

/// Conversion into `Self` from a narrower payload; the exact counterpart
/// of the widening order on tiers.
pub trait MyFrom<T>: Sized {
    fn my_from(from: T) -> Self;
}

/// Conversion of `self` into a wider payload.
pub trait MyInto<T>: Sized {
    fn my_into(self) -> T;
}

impl MyFrom<InnerNatural> for InnerZahl {
    fn my_from(from: InnerNatural) -> (r: Self)
        ensures
            from.spec_value() <= i32::MAX ==> r.spec_value() == from.spec_value(),
    {
        if from.0 <= i32::MAX as u32 {
            InnerZahl(from.0 as i32)
        } else {
            InnerZahl(i32::MAX)
        }
    }
}

impl MyFrom<InnerNatural> for InnerReal {
    fn my_from(from: InnerNatural) -> (r: Self)
        ensures
            r.spec_value() == from.spec_value(),
    {
        InnerReal(from.0 as i64)
    }
}

impl MyFrom<InnerZahl> for InnerReal {
    fn my_from(from: InnerZahl) -> (r: Self)
        ensures
            r.spec_value() == from.spec_value(),
    {
        InnerReal(from.0 as i64)
    }
}

impl<T, U> MyInto<U> for T where U: MyFrom<T> {
    fn my_into(self) -> U {
        U::my_from(self)
    }
}

impl<T, U> MyFrom<Wrapper<T>> for Wrapper<U> where T: MyInto<U> {
    fn my_from(from: Wrapper<T>) -> Self {
        match from {
            Wrapper::Constant(inner) => Wrapper::Constant(inner.my_into()),
            Wrapper::Variable(name) => Wrapper::Variable(name),
            Wrapper::Expression(expression) => Wrapper::Expression(expression),
        }
    }
}

} // verus!
