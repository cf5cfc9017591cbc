//! The expression graph: an arena of node slots addressed by index.
//!
//! A `Graph` owns a vector of `Node` slots; an `Expressions` handle is the
//! index of a slot.  Aliasing is index equality: every handle that holds
//! the same index observes an in-place overwrite of that slot at once.
//!
//! The mathematical view of a subtree is an `Ast`, a pure tree of
//! constants, variables and binary operations.  Between the arena and the
//! `Ast` stands the ghost `IdxTree`: the tree of slot indices a traversal
//! from one root visits.  `shape_ok` says that an `IdxTree` faithfully
//! describes the arena; it is the backbone of every contract here.

use vstd::prelude::*;

use crate::values::{Expressions, Tier, Types, ValModel};

verus! {

/// The four operation kinds.
#[derive(Clone, Copy, PartialEq, Eq, Structural, Debug)]
pub enum OpTag {
    Addition,
    Subtraction,
    Multiplication,
    Exponentiation,
}

/// A binary sum node: both fields alias whatever was passed in.
#[derive(Clone, Copy, Debug)]
pub struct Addition {
    pub left: Expressions,
    pub right: Expressions,
}

/// A binary difference node.
#[derive(Clone, Copy, Debug)]
pub struct Subtraction {
    pub left: Expressions,
    pub right: Expressions,
}

/// A binary product node.
#[derive(Clone, Copy, Debug)]
pub struct Multiplication {
    pub left: Expressions,
    pub right: Expressions,
}

/// A binary power node.
#[derive(Clone, Copy, Debug)]
pub struct Exponentiation {
    pub left: Expressions,
    pub right: Expressions,
}

impl Addition {
    pub fn new(left: Expressions, right: Expressions) -> (r: Self)
        ensures
            r.left == left,
            r.right == right,
    {
        Self { left, right }
    }
}

impl Subtraction {
    pub fn new(left: Expressions, right: Expressions) -> (r: Self)
        ensures
            r.left == left,
            r.right == right,
    {
        Self { left, right }
    }
}

impl Multiplication {
    pub fn new(left: Expressions, right: Expressions) -> (r: Self)
        ensures
            r.left == left,
            r.right == right,
    {
        Self { left, right }
    }
}

impl Exponentiation {
    pub fn new(left: Expressions, right: Expressions) -> (r: Self)
        ensures
            r.left == left,
            r.right == right,
    {
        Self { left, right }
    }
}

/// A binary operation of one of the four kinds.
#[derive(Clone, Copy, Debug)]
pub enum Operation {
    Addition(Addition),
    Subtraction(Subtraction),
    Multiplication(Multiplication),
    Exponentiation(Exponentiation),
}

impl Operation {
    pub open spec fn tag(self) -> OpTag {
        match self {
            Operation::Addition(_) => OpTag::Addition,
            Operation::Subtraction(_) => OpTag::Subtraction,
            Operation::Multiplication(_) => OpTag::Multiplication,
            Operation::Exponentiation(_) => OpTag::Exponentiation,
        }
    }

    pub open spec fn left(self) -> Expressions {
        match self {
            Operation::Addition(o) => o.left,
            Operation::Subtraction(o) => o.left,
            Operation::Multiplication(o) => o.left,
            Operation::Exponentiation(o) => o.left,
        }
    }

    pub open spec fn right(self) -> Expressions {
        match self {
            Operation::Addition(o) => o.right,
            Operation::Subtraction(o) => o.right,
            Operation::Multiplication(o) => o.right,
            Operation::Exponentiation(o) => o.right,
        }
    }

    /// The operation node of the given kind over the given sides.
    pub open spec fn make_spec(tag: OpTag, left: Expressions, right: Expressions) -> Operation {
        match tag {
            OpTag::Addition => Operation::Addition(Addition { left, right }),
            OpTag::Subtraction => Operation::Subtraction(Subtraction { left, right }),
            OpTag::Multiplication => Operation::Multiplication(Multiplication { left, right }),
            OpTag::Exponentiation => Operation::Exponentiation(Exponentiation { left, right }),
        }
    }

    /// Build an operation node of the given kind.
    pub fn make(tag: OpTag, left: Expressions, right: Expressions) -> (r: Self)
        ensures
            r == Operation::make_spec(tag, left, right),
            r.tag() == tag,
            r.left() == left,
            r.right() == right,
    {
        match tag {
            OpTag::Addition => Operation::Addition(Addition::new(left, right)),
            OpTag::Subtraction => Operation::Subtraction(Subtraction::new(left, right)),
            OpTag::Multiplication => Operation::Multiplication(Multiplication::new(left, right)),
            OpTag::Exponentiation => Operation::Exponentiation(Exponentiation::new(left, right)),
        }
    }

    /// The kind of this operation.
    pub fn kind(&self) -> (t: OpTag)
        ensures
            t == self.tag(),
    {
        match self {
            Operation::Addition(_) => OpTag::Addition,
            Operation::Subtraction(_) => OpTag::Subtraction,
            Operation::Multiplication(_) => OpTag::Multiplication,
            Operation::Exponentiation(_) => OpTag::Exponentiation,
        }
    }

    /// The two child handles, left first.
    pub fn sides(&self) -> (r: (Expressions, Expressions))
        ensures
            r.0 == self.left(),
            r.1 == self.right(),
    {
        match self {
            Operation::Addition(o) => (o.left, o.right),
            Operation::Subtraction(o) => (o.left, o.right),
            Operation::Multiplication(o) => (o.left, o.right),
            Operation::Exponentiation(o) => (o.left, o.right),
        }
    }
}

/// The content of one graph slot: a leaf value or a binary operation.
#[derive(Clone, Debug)]
pub enum Node {
    Value(Types),
    Operation(Operation),
}

impl Node {
    /// A copy of this content: a value keeps its meaning, an operation
    /// keeps its handles exactly.
    pub fn duplicate(&self) -> (r: Node)
        ensures
            self is Value ==> r is Value && r->Value_0@ == self->Value_0@,
            self is Operation ==> r == *self,
    {
        match self {
            Node::Value(t) => Node::Value(t.duplicate()),
            Node::Operation(o) => Node::Operation(*o),
        }
    }
}

/// The mathematical form of an expression: what a subtree means,
/// independent of which slots hold it.
pub enum Ast {
    Cst(Tier, int),
    Var(Tier, Seq<char>),
    Op(OpTag, Box<Ast>, Box<Ast>),
}

/// The `Ast` a leaf value denotes.  A deferred (`Sym`) payload is not a
/// graph value and never appears in a well-formed slot.
pub open spec fn leaf_ast(m: ValModel) -> Ast {
    match m {
        ValModel::Cst(t, v) => Ast::Cst(t, v),
        ValModel::Var(t, n) => Ast::Var(t, n),
        ValModel::Sym(_, _) => arbitrary(),
    }
}

/// The tree of slot indices one traversal from a root visits.
pub enum IdxTree {
    Leaf(int),
    Branch(int, Box<IdxTree>, Box<IdxTree>),
}

/// The index at the root of an index tree.
pub open spec fn root_of(sh: IdxTree) -> int {
    match sh {
        IdxTree::Leaf(i) => i,
        IdxTree::Branch(i, _, _) => i,
    }
}

/// `sh` faithfully describes the arena: every listed slot exists, leaves
/// hold plain values, and branches hold operations whose child handles are
/// the roots of the child trees.
pub open spec fn shape_ok(nodes: Seq<Node>, sh: IdxTree) -> bool
    decreases sh,
{
    match sh {
        IdxTree::Leaf(i) => {
            &&& 0 <= i < nodes.len()
            &&& nodes[i] is Value
            &&& !(nodes[i]->Value_0@ is Sym)
        },
        IdxTree::Branch(i, l, r) => {
            &&& 0 <= i < nodes.len()
            &&& nodes[i] is Operation
            &&& root_of(*l) == nodes[i]->Operation_0.left().id()
            &&& root_of(*r) == nodes[i]->Operation_0.right().id()
            &&& shape_ok(nodes, *l)
            &&& shape_ok(nodes, *r)
        },
    }
}

/// Whether slot `k` occurs in the index tree.
pub open spec fn mem_idx(sh: IdxTree, k: int) -> bool
    decreases sh,
{
    match sh {
        IdxTree::Leaf(i) => i == k,
        IdxTree::Branch(i, l, r) => i == k || mem_idx(*l, k) || mem_idx(*r, k),
    }
}

/// No slot occurs twice: the traversal is a proper tree, not a DAG.
pub open spec fn uniq(sh: IdxTree) -> bool
    decreases sh,
{
    match sh {
        IdxTree::Leaf(_) => true,
        IdxTree::Branch(i, l, r) => {
            &&& uniq(*l)
            &&& uniq(*r)
            &&& !mem_idx(*l, i)
            &&& !mem_idx(*r, i)
            &&& (forall|k: int| !(mem_idx(*l, k) && #[trigger] mem_idx(*r, k)))
        },
    }
}

/// The meaning of the subtree `sh` describes.
pub open spec fn ast_of(nodes: Seq<Node>, sh: IdxTree) -> Ast
    decreases sh,
{
    match sh {
        IdxTree::Leaf(i) => leaf_ast(nodes[i]->Value_0@),
        IdxTree::Branch(i, l, r) => Ast::Op(
            nodes[i]->Operation_0.tag(),
            Box::new(ast_of(nodes, *l)),
            Box::new(ast_of(nodes, *r)),
        ),
    }
}

/// Slot `i` roots a well-formed subtree.
pub open spec fn wf_at(nodes: Seq<Node>, i: int) -> bool {
    exists|sh: IdxTree| #[trigger] shape_ok(nodes, sh) && root_of(sh) == i
}

/// The (unique) index tree rooted at slot `i`.
pub open spec fn shape_of(nodes: Seq<Node>, i: int) -> IdxTree {
    choose|sh: IdxTree| #[trigger] shape_ok(nodes, sh) && root_of(sh) == i
}

/// The meaning of the subtree rooted at slot `i`.
pub open spec fn view_of(nodes: Seq<Node>, i: int) -> Ast {
    ast_of(nodes, shape_of(nodes, i))
}

/// Two traversals from the same root visit the same slots: the arena
/// determines the index tree.
pub proof fn lemma_shape_unique(nodes: Seq<Node>, a: IdxTree, b: IdxTree)
    requires
        shape_ok(nodes, a),
        shape_ok(nodes, b),
        root_of(a) == root_of(b),
    ensures
        a == b,
    decreases a,
{
    match a {
        IdxTree::Leaf(_) => {
        },
        IdxTree::Branch(i, al, ar) => {
            match b {
                IdxTree::Leaf(_) => {
                },
                IdxTree::Branch(j, bl, br) => {
                    lemma_shape_unique(nodes, *al, *bl);
                    lemma_shape_unique(nodes, *ar, *br);
                },
            }
        },
    }
}

/// A well-formed shape is the canonical one of its root.
pub proof fn lemma_canon(nodes: Seq<Node>, sh: IdxTree)
    requires
        shape_ok(nodes, sh),
    ensures
        wf_at(nodes, root_of(sh)),
        shape_of(nodes, root_of(sh)) == sh,
{
    assert(wf_at(nodes, root_of(sh)));
    lemma_shape_unique(nodes, shape_of(nodes, root_of(sh)), sh);
}

/// Every slot a well-formed shape lists is in bounds.
pub proof fn lemma_mem_bounds(nodes: Seq<Node>, sh: IdxTree)
    requires
        shape_ok(nodes, sh),
    ensures
        forall|k: int| #[trigger] mem_idx(sh, k) ==> 0 <= k < nodes.len(),
    decreases sh,
{
    match sh {
        IdxTree::Leaf(i) => {
            assert forall|k: int| #[trigger] mem_idx(sh, k) implies 0 <= k < nodes.len() by {
                assert(k == i);
            }
        },
        IdxTree::Branch(i, l, r) => {
            lemma_mem_bounds(nodes, *l);
            lemma_mem_bounds(nodes, *r);
            assert forall|k: int| #[trigger] mem_idx(sh, k) implies 0 <= k < nodes.len() by {
                assert(k == i || mem_idx(*l, k) || mem_idx(*r, k));
            }
        },
    }
}

/// Appending slots to the arena disturbs no existing subtree: its shape
/// and meaning stay as they were.
pub proof fn lemma_shape_append(nodes: Seq<Node>, bigger: Seq<Node>, sh: IdxTree)
    requires
        shape_ok(nodes, sh),
        nodes.len() <= bigger.len(),
        forall|k: int| 0 <= k < nodes.len() ==> bigger[k] == nodes[k],
    ensures
        shape_ok(bigger, sh),
        ast_of(bigger, sh) == ast_of(nodes, sh),
    decreases sh,
{
    match sh {
        IdxTree::Leaf(_) => {
        },
        IdxTree::Branch(_, l, r) => {
            lemma_shape_append(nodes, bigger, *l);
            lemma_shape_append(nodes, bigger, *r);
        },
    }
}

/// The index tree reached by following a path of child choices
/// (0 = left, 1 = right) from the root of `sh`.
pub open spec fn sub_shape_at(sh: IdxTree, p: Seq<int>) -> Option<IdxTree>
    decreases p.len(),
{
    if p.len() == 0 {
        Some(sh)
    } else {
        match sh {
            IdxTree::Leaf(_) => None,
            IdxTree::Branch(_, l, r) => {
                if p[0] == 0 {
                    sub_shape_at(*l, p.drop_first())
                } else if p[0] == 1 {
                    sub_shape_at(*r, p.drop_first())
                } else {
                    None
                }
            },
        }
    }
}

/// `sh` with the subtree at the end of `p` replaced by `s`.
pub open spec fn shape_replace(sh: IdxTree, p: Seq<int>, s: IdxTree) -> IdxTree
    decreases p.len(),
{
    if p.len() == 0 {
        s
    } else {
        match sh {
            IdxTree::Leaf(_) => sh,
            IdxTree::Branch(i, l, r) => {
                if p[0] == 0 {
                    IdxTree::Branch(i, Box::new(shape_replace(*l, p.drop_first(), s)), r)
                } else {
                    IdxTree::Branch(i, l, Box::new(shape_replace(*r, p.drop_first(), s)))
                }
            },
        }
    }
}

/// The subexpression reached by following a path of child choices.
pub open spec fn ast_at(t: Ast, p: Seq<int>) -> Option<Ast>
    decreases p.len(),
{
    if p.len() == 0 {
        Some(t)
    } else {
        match t {
            Ast::Op(_, l, r) => {
                if p[0] == 0 {
                    ast_at(*l, p.drop_first())
                } else if p[0] == 1 {
                    ast_at(*r, p.drop_first())
                } else {
                    None
                }
            },
            _ => None,
        }
    }
}

/// `t` with the subexpression at the end of `p` replaced by `s`.
pub open spec fn ast_replace(t: Ast, p: Seq<int>, s: Ast) -> Ast
    decreases p.len(),
{
    if p.len() == 0 {
        s
    } else {
        match t {
            Ast::Op(tag, l, r) => {
                if p[0] == 0 {
                    Ast::Op(tag, Box::new(ast_replace(*l, p.drop_first(), s)), r)
                } else {
                    Ast::Op(tag, l, Box::new(ast_replace(*r, p.drop_first(), s)))
                }
            },
            _ => t,
        }
    }
}

/// A subtree reached by a valid path is itself well formed, visits only
/// slots of the whole, inherits uniqueness, and means exactly the
/// subexpression at that path.
pub proof fn lemma_sub_shape(nodes: Seq<Node>, sh: IdxTree, p: Seq<int>)
    requires
        shape_ok(nodes, sh),
        sub_shape_at(sh, p) is Some,
    ensures
        shape_ok(nodes, sub_shape_at(sh, p)->Some_0),
        forall|k: int| #[trigger] mem_idx(sub_shape_at(sh, p)->Some_0, k) ==> mem_idx(sh, k),
        uniq(sh) ==> uniq(sub_shape_at(sh, p)->Some_0),
        ast_at(ast_of(nodes, sh), p) == Some(ast_of(nodes, sub_shape_at(sh, p)->Some_0)),
    decreases p.len(),
{
    if p.len() == 0 {
    } else {
        match sh {
            IdxTree::Leaf(_) => {
            },
            IdxTree::Branch(_, l, r) => {
                if p[0] == 0 {
                    lemma_sub_shape(nodes, *l, p.drop_first());
                } else {
                    lemma_sub_shape(nodes, *r, p.drop_first());
                }
            },
        }
    }
}

/// Extending a path by one child choice descends one level further.
pub proof fn lemma_sub_extend(sh: IdxTree, p: Seq<int>, j: int)
    requires
        sub_shape_at(sh, p) is Some,
        sub_shape_at(sh, p)->Some_0 is Branch,
        j == 0 || j == 1,
    ensures
        sub_shape_at(sh, p.push(j)) == Some(
            if j == 0 {
                *(sub_shape_at(sh, p)->Some_0->Branch_1)
            } else {
                *(sub_shape_at(sh, p)->Some_0->Branch_2)
            },
        ),
    decreases p.len(),
{
    if p.len() == 0 {
        assert(p.push(j)[0] == j);
        assert(p.push(j).drop_first() =~= Seq::<int>::empty());
        assert(sub_shape_at(sh, p) == Some(sh));
        match sh {
            IdxTree::Leaf(_) => {
            },
            IdxTree::Branch(_, l, r) => {
                assert(sub_shape_at(*l, p.push(j).drop_first()) == Some(*l));
                assert(sub_shape_at(*r, p.push(j).drop_first()) == Some(*r));
                if j == 0 {
                    assert(sub_shape_at(sh, p.push(j)) == Some(*l));
                } else {
                    assert(sub_shape_at(sh, p.push(j)) == Some(*r));
                }
            },
        }
    } else {
        match sh {
            IdxTree::Leaf(_) => {
            },
            IdxTree::Branch(_, l, r) => {
                assert(p.push(j)[0] == p[0]);
                assert(p.push(j).drop_first() =~= p.drop_first().push(j));
                if p[0] == 0 {
                    lemma_sub_extend(*l, p.drop_first(), j);
                } else {
                    lemma_sub_extend(*r, p.drop_first(), j);
                }
            },
        }
    }
}

/// The root of an index tree is one of its slots.
pub proof fn lemma_root_mem(sh: IdxTree)
    ensures
        mem_idx(sh, root_of(sh)),
{
}

/// Overwriting the single slot at the end of a path rewrites the whole
/// tree's meaning at exactly that path: the new subtree shows up there,
/// and everything off the path keeps its old meaning.  This is the
/// aliasing law: the slot is reached through its own handle, yet the
/// change is visible from every root whose traversal passes it.
pub proof fn lemma_replace_at_path(
    nodes: Seq<Node>,
    c: int,
    n: Node,
    sh: IdxTree,
    p: Seq<int>,
    shn: IdxTree,
)
    requires
        shape_ok(nodes, sh),
        uniq(sh),
        sub_shape_at(sh, p) is Some,
        root_of(sub_shape_at(sh, p)->Some_0) == c,
        shape_ok(nodes.update(c, n), shn),
        root_of(shn) == c,
        0 <= c < nodes.len(),
    ensures
        shape_ok(nodes.update(c, n), shape_replace(sh, p, shn)),
        root_of(shape_replace(sh, p, shn)) == root_of(sh),
        ast_of(nodes.update(c, n), shape_replace(sh, p, shn)) == ast_replace(
            ast_of(nodes, sh),
            p,
            ast_of(nodes.update(c, n), shn),
        ),
    decreases p.len(),
{
    if p.len() == 0 {
    } else {
        match sh {
            IdxTree::Leaf(_) => {
            },
            IdxTree::Branch(i, l, r) => {
                let pp = p.drop_first();
                if p[0] == 0 {
                    let shc = sub_shape_at(*l, pp)->Some_0;
                    lemma_sub_shape(nodes, *l, pp);
                    lemma_root_mem(shc);
                    assert(mem_idx(*l, c));
                    lemma_replace_at_path(nodes, c, n, *l, pp, shn);
                    lemma_shape_update_off(nodes, c, n, *r);
                } else {
                    let shc = sub_shape_at(*r, pp)->Some_0;
                    lemma_sub_shape(nodes, *r, pp);
                    lemma_root_mem(shc);
                    assert(mem_idx(*r, c));
                    lemma_replace_at_path(nodes, c, n, *r, pp, shn);
                    lemma_shape_update_off(nodes, c, n, *l);
                }
            },
        }
    }
}

/// Overwriting a slot that a subtree never visits disturbs neither its
/// shape nor its meaning.
pub proof fn lemma_shape_update_off(nodes: Seq<Node>, c: int, n: Node, sh: IdxTree)
    requires
        shape_ok(nodes, sh),
        !mem_idx(sh, c),
        0 <= c < nodes.len(),
    ensures
        shape_ok(nodes.update(c, n), sh),
        ast_of(nodes.update(c, n), sh) == ast_of(nodes, sh),
    decreases sh,
{
    match sh {
        IdxTree::Leaf(_) => {
        },
        IdxTree::Branch(_, l, r) => {
            lemma_shape_update_off(nodes, c, n, *l);
            lemma_shape_update_off(nodes, c, n, *r);
        },
    }
}

/// Mutating any slot that a subtree never visits leaves that subtree's
/// meaning untouched.  Together with `deep_copy`'s guarantee that a copy
/// occupies only fresh slots, this is deep-copy independence: an
/// in-place overwrite anywhere in the source tree (through whichever
/// alias) never changes the copy, and an overwrite inside the copy never
/// changes the source or any of its aliases.
pub proof fn lemma_update_outside_subtree(nodes: Seq<Node>, j: int, c: int, n: Node)
    requires
        wf_at(nodes, j),
        !mem_idx(shape_of(nodes, j), c),
        0 <= c < nodes.len(),
    ensures
        wf_at(nodes.update(c, n), j),
        view_of(nodes.update(c, n), j) == view_of(nodes, j),
{
    let sh = shape_of(nodes, j);
    assert(shape_ok(nodes, sh) && root_of(sh) == j);
    lemma_shape_update_off(nodes, c, n, sh);
    lemma_canon(nodes.update(c, n), sh);
}

/// Growing the arena disturbs no subtree that was already well formed:
/// shape and meaning stay as they were.
pub proof fn lemma_append_preserves_all(a: Seq<Node>, b: Seq<Node>)
    requires
        a.len() <= b.len(),
        forall|k: int| 0 <= k < a.len() ==> b[k] == a[k],
    ensures
        forall|i: int| #[trigger] wf_at(a, i) ==> wf_at(b, i) && shape_of(b, i) == shape_of(
            a,
            i,
        ) && view_of(b, i) == view_of(a, i),
{
    assert forall|i: int| #[trigger] wf_at(a, i) implies wf_at(b, i) && shape_of(b, i) == shape_of(
        a,
        i,
    ) && view_of(b, i) == view_of(a, i) by {
        let sh = shape_of(a, i);
        assert(shape_ok(a, sh) && root_of(sh) == i);
        lemma_shape_append(a, b, sh);
        lemma_canon(b, sh);
    }
}

/// The expression graph: an arena of slots that handles index into.
/// Slots are only ever appended or overwritten in place; they are never
/// removed, so a handle stays valid for the life of the graph.
pub struct Graph {
    pub nodes: Vec<Node>,
}

impl Graph {
    /// An empty graph.
    pub fn new() -> (g: Graph)
        ensures
            g.nodes@ == Seq::<Node>::empty(),
    {
        Graph { nodes: Vec::new() }
    }

    /// Wrap a plain value as a new leaf node.
    pub fn leaf(&mut self, value: Types) -> (e: Expressions)
        requires
            !(value@ is Sym),
        ensures
            final(self).nodes@ == old(self).nodes@.push(Node::Value(value)),
            e.id() == old(self).nodes@.len(),
            wf_at(final(self).nodes@, e.id()),
            shape_of(final(self).nodes@, e.id()) == IdxTree::Leaf(e.id()),
            view_of(final(self).nodes@, e.id()) == leaf_ast(value@),
            forall|i: int| #[trigger] wf_at(old(self).nodes@, i) ==> wf_at(final(self).nodes@, i)
                && shape_of(final(self).nodes@, i) == shape_of(old(self).nodes@, i) && view_of(
                final(self).nodes@,
                i,
            ) == view_of(old(self).nodes@, i),
    {
        let e = Expressions(self.nodes.len());
        self.nodes.push(Node::Value(value));
        proof {
            lemma_canon(self.nodes@, IdxTree::Leaf(e.id()));
            lemma_append_preserves_all(old(self).nodes@, self.nodes@);
        }
        e
    }

    /// Wrap two existing handles as a new binary node.  The children of
    /// the new node alias whatever was passed in; nothing is copied.
    pub fn operation(&mut self, kind: OpTag, left: Expressions, right: Expressions) -> (e:
        Expressions)
        requires
            wf_at(old(self).nodes@, left.id()),
            wf_at(old(self).nodes@, right.id()),
        ensures
            final(self).nodes@ == old(self).nodes@.push(
                Node::Operation(Operation::make_spec(kind, left, right)),
            ),
            e.id() == old(self).nodes@.len(),
            wf_at(final(self).nodes@, e.id()),
            shape_of(final(self).nodes@, e.id()) == IdxTree::Branch(
                e.id(),
                Box::new(shape_of(old(self).nodes@, left.id())),
                Box::new(shape_of(old(self).nodes@, right.id())),
            ),
            view_of(final(self).nodes@, e.id()) == Ast::Op(
                kind,
                Box::new(view_of(old(self).nodes@, left.id())),
                Box::new(view_of(old(self).nodes@, right.id())),
            ),
            forall|i: int| #[trigger] wf_at(old(self).nodes@, i) ==> wf_at(final(self).nodes@, i)
                && shape_of(final(self).nodes@, i) == shape_of(old(self).nodes@, i) && view_of(
                final(self).nodes@,
                i,
            ) == view_of(old(self).nodes@, i),
    {
        let e = Expressions(self.nodes.len());
        self.nodes.push(Node::Operation(Operation::make(kind, left, right)));
        proof {
            lemma_append_preserves_all(old(self).nodes@, self.nodes@);
            let shl = shape_of(old(self).nodes@, left.id());
            let shr = shape_of(old(self).nodes@, right.id());
            assert(shape_ok(old(self).nodes@, shl) && root_of(shl) == left.id());
            assert(shape_ok(old(self).nodes@, shr) && root_of(shr) == right.id());
            lemma_shape_append(old(self).nodes@, self.nodes@, shl);
            lemma_shape_append(old(self).nodes@, self.nodes@, shr);
            let sh = IdxTree::Branch(e.id(), Box::new(shl), Box::new(shr));
            lemma_canon(self.nodes@, sh);
        }
        e
    }

    /// The node's children, left first: empty for a leaf, the two sides
    /// for an operation.  Each returned handle aliases the live child.
    pub fn get_children(&self, e: Expressions) -> (cs: Vec<Expressions>)
        requires
            wf_at(self.nodes@, e.id()),
        ensures
            shape_of(self.nodes@, e.id()) is Leaf ==> cs@.len() == 0,
            shape_of(self.nodes@, e.id()) is Branch ==> {
                let sh = shape_of(self.nodes@, e.id());
                &&& cs@.len() == 2
                &&& cs@[0].id() == root_of(*sh->Branch_1)
                &&& cs@[1].id() == root_of(*sh->Branch_2)
                &&& wf_at(self.nodes@, cs@[0].id())
                &&& wf_at(self.nodes@, cs@[1].id())
                &&& shape_of(self.nodes@, cs@[0].id()) == *sh->Branch_1
                &&& shape_of(self.nodes@, cs@[1].id()) == *sh->Branch_2
            },
    {
        proof {
            let sh = shape_of(self.nodes@, e.id());
            assert(shape_ok(self.nodes@, sh) && root_of(sh) == e.id());
            if sh is Branch {
                lemma_canon(self.nodes@, *sh->Branch_1);
                lemma_canon(self.nodes@, *sh->Branch_2);
            }
        }
        match &self.nodes[e.0] {
            Node::Value(_) => Vec::new(),
            Node::Operation(op) => {
                let (l, r) = op.sides();
                let mut cs = Vec::new();
                cs.push(l);
                cs.push(r);
                cs
            },
        }
    }

    /// The recursive worker behind `deep_copy`: copies the subtree that
    /// `sh` describes, children before parents, into fresh slots.
    fn deep_copy_at(&mut self, e: Expressions, sh: Ghost<IdxTree>) -> (r: Expressions)
        requires
            shape_ok(old(self).nodes@, sh@),
            root_of(sh@) == e.id(),
        ensures
            old(self).nodes@.len() <= final(self).nodes@.len(),
            forall|k: int|
                0 <= k < old(self).nodes@.len() ==> final(self).nodes@[k] == old(self).nodes@[k],
            wf_at(final(self).nodes@, r.id()),
            uniq(shape_of(final(self).nodes@, r.id())),
            forall|k: int| #[trigger] mem_idx(shape_of(final(self).nodes@, r.id()), k)
                ==> old(self).nodes@.len() <= k < final(self).nodes@.len(),
            view_of(final(self).nodes@, r.id()) == ast_of(old(self).nodes@, sh@),
        decreases sh@,
    {
        let ghost nodes0 = self.nodes@;
        match &self.nodes[e.0] {
            Node::Value(t) => {
                let copied = t.duplicate();
                let r = self.leaf(copied);
                proof {
                    assert(ast_of(nodes0, sh@) == leaf_ast(nodes0[e.id()]->Value_0@));
                }
                r
            },
            Node::Operation(op) => {
                let kind = op.kind();
                let (l, rgt) = op.sides();
                let lc = self.deep_copy_at(l, Ghost(*sh@->Branch_1));
                let ghost nodes1 = self.nodes@;
                let ghost shl = shape_of(nodes1, lc.id());
                proof {
                    lemma_shape_append(nodes0, nodes1, *sh@->Branch_2);
                }
                let rc = self.deep_copy_at(rgt, Ghost(*sh@->Branch_2));
                let ghost nodes2 = self.nodes@;
                let ghost shr = shape_of(nodes2, rc.id());
                proof {
                    lemma_append_preserves_all(nodes1, nodes2);
                    lemma_shape_append(nodes1, nodes2, *sh@->Branch_2);
                }
                let r = self.operation(kind, lc, rc);
                let ghost nodes3 = self.nodes@;
                proof {
                    lemma_append_preserves_all(nodes2, nodes3);
                    let shb = IdxTree::Branch(r.id(), Box::new(shl), Box::new(shr));
                    assert(shape_of(nodes3, r.id()) == shb);
                    assert(shape_ok(nodes2, shl) && root_of(shl) == lc.id());
                    assert(shape_ok(nodes2, shr) && root_of(shr) == rc.id());
                    lemma_mem_bounds(nodes1, shl);
                    lemma_mem_bounds(nodes2, shr);
                    assert forall|k: int| !(mem_idx(shl, k) && #[trigger] mem_idx(shr, k)) by {
                        if mem_idx(shl, k) {
                            assert(k < nodes1.len());
                        }
                    }
                    assert(uniq(shb));
                    assert forall|k: int| #[trigger] mem_idx(shb, k) implies nodes0.len() <= k
                        < nodes3.len() by {
                        if mem_idx(shl, k) {
                            assert(k < nodes1.len());
                        } else if mem_idx(shr, k) {
                            assert(k < nodes2.len());
                        }
                    }
                    assert(ast_of(nodes3, shb) == ast_of(nodes0, sh@));
                }
                r
            },
        }
    }

    /// Recursively rebuild an entirely new, non-aliased tree with
    /// identical content: every slot of the result is fresh, so no handle
    /// into the source tree reaches any part of the copy.  This is the
    /// one operation that breaks aliasing.
    pub fn deep_copy(&mut self, e: Expressions) -> (r: Expressions)
        requires
            wf_at(old(self).nodes@, e.id()),
        ensures
            old(self).nodes@.len() <= final(self).nodes@.len(),
            forall|k: int|
                0 <= k < old(self).nodes@.len() ==> final(self).nodes@[k] == old(self).nodes@[k],
            wf_at(final(self).nodes@, r.id()),
            uniq(shape_of(final(self).nodes@, r.id())),
            forall|k: int| #[trigger] mem_idx(shape_of(final(self).nodes@, r.id()), k)
                ==> old(self).nodes@.len() <= k < final(self).nodes@.len(),
            view_of(final(self).nodes@, r.id()) == view_of(old(self).nodes@, e.id()),
            forall|i: int| #[trigger] wf_at(old(self).nodes@, i) ==> wf_at(final(self).nodes@, i)
                && shape_of(final(self).nodes@, i) == shape_of(old(self).nodes@, i) && view_of(
                final(self).nodes@,
                i,
            ) == view_of(old(self).nodes@, i),
    {
        let ghost sh = shape_of(old(self).nodes@, e.id());
        proof {
            assert(shape_ok(old(self).nodes@, sh) && root_of(sh) == e.id());
        }
        let r = self.deep_copy_at(e, Ghost(sh));
        proof {
            lemma_append_preserves_all(old(self).nodes@, self.nodes@);
        }
        r
    }

    /// Overwrite what the slot holds, in place.  Every handle that
    /// aliases `e` observes the new content immediately; handles to the
    /// former children stay valid, but `e` no longer reaches them.
    pub fn replace_content(&mut self, e: Expressions, content: Node)
        requires
            e.id() < old(self).nodes@.len(),
        ensures
            final(self).nodes@ == old(self).nodes@.update(e.id(), content),
    {
        self.nodes.set(e.0, content);
    }
}

} // verus!
