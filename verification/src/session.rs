//! The session: a root handle, a selection cursor, and an append-only
//! history of frozen snapshots.
//!
//! The cursor always aliases a node reachable from the root, so a rule
//! applied at the cursor is visible through the root at once.  Applying a
//! rule mutates the selected slot in place, pushes the (now rewritten)
//! root handle onto the history, and then rebinds root and cursor to a
//! fresh deep copy.  The entry just pushed is never reachable from the
//! live handles again, so every history entry keeps its rendered form
//! forever — immutability by rebinding, not by eager copying.

use vstd::prelude::*;

use crate::values::Expressions;
use crate::graph::{ast_at, ast_of, ast_replace, lemma_canon, lemma_mem_bounds,
    lemma_shape_update_off, lemma_sub_extend, lemma_sub_shape, mem_idx, root_of, shape_ok,
    shape_of, shape_replace, sub_shape_at, uniq, view_of, wf_at, Ast, Graph, IdxTree, Node};
use crate::rules::{applicable_rules, find_all_rules, rule_proposal, Match};
use crate::render::render_plain;
use crate::tower::ArithmeticError;

verus! {

/// Why a navigation request was refused.
#[derive(Clone, Copy, PartialEq, Eq, Structural, Debug)]
pub enum NavError {
    /// The child index is not in range for the selected node.
    IndexOutOfRange,
    /// The index token could not be read as a number at all.
    NotANumber,
}

/// Why a rule application was refused.
#[derive(Clone, Copy, PartialEq, Eq, Structural, Debug)]
pub enum RuleIndexError {
    /// The rule index is not in range for the current matches.
    OutOfRange,
}

/// How many children an expression offers for navigation.
pub open spec fn ast_child_count(t: Ast) -> int {
    if t is Op {
        2
    } else {
        0
    }
}

/// An interactive session over one equation.
pub struct Session {
    graph: Graph,
    root: Expressions,
    cursor: Expressions,
    history: Vec<Expressions>,
    path: Ghost<Seq<int>>,
    hist_views: Ghost<Seq<Ast>>,
}

impl Session {
    /// The session's arena.
    pub closed spec fn nodes(self) -> Seq<Node> {
        self.graph.nodes@
    }

    /// The child choices that lead from the root to the cursor.
    pub closed spec fn cursor_path(self) -> Seq<int> {
        self.path@
    }

    /// What the current equation means.
    pub closed spec fn root_view(self) -> Ast {
        view_of(self.graph.nodes@, self.root.id())
    }

    /// What the selected subtree means.
    pub closed spec fn cursor_view(self) -> Ast {
        view_of(self.graph.nodes@, self.cursor.id())
    }

    /// The meanings of the history entries, oldest first.
    pub closed spec fn history_views(self) -> Seq<Ast> {
        self.hist_views@
    }

    /// The session invariant: the root is a well-formed proper tree, the
    /// cursor sits at the end of a child path from the root, and every
    /// history entry is well formed, means what was recorded for it, and
    /// shares no slot with the live root — no future in-place mutation
    /// can reach it.
    pub closed spec fn well_formed(self) -> bool {
        let nodes = self.graph.nodes@;
        let rsh = shape_of(nodes, self.root.id());
        &&& wf_at(nodes, self.root.id())
        &&& uniq(rsh)
        &&& sub_shape_at(rsh, self.path@) is Some
        &&& root_of(sub_shape_at(rsh, self.path@)->Some_0) == self.cursor.id()
        &&& self.history@.len() == self.hist_views@.len()
        &&& (forall|i: int|
            0 <= i < self.history@.len() ==> wf_at(nodes, (#[trigger] self.history@[i]).id())
                && view_of(nodes, self.history@[i].id()) == self.hist_views@[i])
        &&& (forall|i: int, k: int|
            0 <= i < self.history@.len() && #[trigger] mem_idx(
                shape_of(nodes, self.history@[i].id()),
                k,
            ) ==> !mem_idx(rsh, k))
    }

    /// The cursor denotes exactly the subexpression at the end of its
    /// path: what the cursor shows is what the root holds there.
    pub proof fn lemma_cursor_at_path(self)
        requires
            self.well_formed(),
        ensures
            ast_at(self.root_view(), self.cursor_path()) == Some(self.cursor_view()),
    {
        let nodes = self.graph.nodes@;
        let rsh = shape_of(nodes, self.root.id());
        assert(shape_ok(nodes, rsh) && root_of(rsh) == self.root.id());
        lemma_sub_shape(nodes, rsh, self.path@);
        lemma_canon(nodes, sub_shape_at(rsh, self.path@)->Some_0);
    }

    /// Start a session on the given equation: root and cursor alias it,
    /// and the history holds one entry, a deep copy of the equation as it
    /// was handed in.
    pub fn new(graph: Graph, equation: Expressions) -> (s: Session)
        requires
            wf_at(graph.nodes@, equation.id()),
            uniq(shape_of(graph.nodes@, equation.id())),
        ensures
            s.well_formed(),
            s.root_view() == view_of(graph.nodes@, equation.id()),
            s.cursor_view() == s.root_view(),
            s.cursor_path() == Seq::<int>::empty(),
            s.history_views() == seq![s.root_view()],
    {
        let ghost nodes0 = graph.nodes@;
        let ghost v = view_of(nodes0, equation.id());
        let mut g = graph;
        let copy = g.deep_copy(equation);
        let mut history: Vec<Expressions> = Vec::new();
        history.push(copy);
        let ghost hv = seq![v];
        let s = Session {
            graph: g,
            root: equation,
            cursor: equation,
            history,
            path: Ghost(Seq::empty()),
            hist_views: Ghost(hv),
        };
        proof {
            let nodes = s.graph.nodes@;
            let rsh = shape_of(nodes, equation.id());
            assert(shape_ok(nodes, rsh) && root_of(rsh) == equation.id());
            lemma_mem_bounds(nodes0, shape_of(nodes0, equation.id()));
            assert forall|i: int, k: int|
                0 <= i < s.history@.len() && #[trigger] mem_idx(
                    shape_of(nodes, s.history@[i].id()),
                    k,
                ) implies !mem_idx(rsh, k) by {
                assert(nodes0.len() <= k);
            }
        }
        s
    }

    /// Move the cursor to the given child of the selected node.  Out of
    /// range — too large an index, or a leaf with no children — is
    /// reported and the session does not change.
    pub fn navigate(&mut self, index: usize) -> (r: Result<(), NavError>)
        requires
            old(self).well_formed(),
        ensures
            final(self).well_formed(),
            final(self).root_view() == old(self).root_view(),
            final(self).history_views() == old(self).history_views(),
            (r is Ok) <==> index < ast_child_count(old(self).cursor_view()),
            r is Ok ==> final(self).cursor_path() == old(self).cursor_path().push(index as int)
                && final(self).cursor_view() == (if index == 0 {
                *old(self).cursor_view()->Op_1
            } else {
                *old(self).cursor_view()->Op_2
            }),
            r is Err ==> r->Err_0 == NavError::IndexOutOfRange && *final(self) == *old(self),
    {
        let ghost nodes = self.graph.nodes@;
        let ghost rsh = shape_of(nodes, self.root.id());
        let ghost csh = sub_shape_at(rsh, self.path@)->Some_0;
        proof {
            assert(shape_ok(nodes, rsh) && root_of(rsh) == self.root.id());
            lemma_sub_shape(nodes, rsh, self.path@);
            lemma_canon(nodes, csh);
        }
        let cs = self.graph.get_children(self.cursor);
        if index < cs.len() {
            let child = cs[index];
            proof {
                lemma_sub_extend(rsh, self.path@, index as int);
                lemma_sub_shape(nodes, rsh, self.path@.push(index as int));
                lemma_canon(
                    nodes,
                    if index == 0 {
                        *csh->Branch_1
                    } else {
                        *csh->Branch_2
                    },
                );
            }
            self.cursor = child;
            proof {
                self.path@ = self.path@.push(index as int);
            }
            Ok(())
        } else {
            Err(NavError::IndexOutOfRange)
        }
    }

    /// Move the cursor back to the root.
    pub fn reset_to_top(&mut self)
        requires
            old(self).well_formed(),
        ensures
            final(self).well_formed(),
            final(self).root_view() == old(self).root_view(),
            final(self).history_views() == old(self).history_views(),
            final(self).cursor_view() == final(self).root_view(),
            final(self).cursor_path() == Seq::<int>::empty(),
    {
        self.cursor = self.root;
        proof {
            self.path@ = Seq::empty();
        }
    }

    /// The selected node's children, left first: empty for a leaf, the
    /// two sides for an operation.
    pub fn list_children(&self) -> (cs: Vec<Expressions>)
        requires
            self.well_formed(),
        ensures
            cs@.len() == ast_child_count(self.cursor_view()),
    {
        proof {
            let nodes = self.graph.nodes@;
            let rsh = shape_of(nodes, self.root.id());
            assert(shape_ok(nodes, rsh) && root_of(rsh) == self.root.id());
            lemma_sub_shape(nodes, rsh, self.path@);
            lemma_canon(nodes, sub_shape_at(rsh, self.path@)->Some_0);
        }
        self.graph.get_children(self.cursor)
    }

    /// The rendered plain forms of the selected node's children.
    pub fn render_children(&self) -> (rs: Vec<String>)
        requires
            self.well_formed(),
        ensures
            rs@.len() == ast_child_count(self.cursor_view()),
            self.cursor_view() is Op ==> rs@.len() == 2 && rs@[0]@ == render_plain(
                *self.cursor_view()->Op_1,
            ) && rs@[1]@ == render_plain(*self.cursor_view()->Op_2),
    {
        let ghost nodes = self.graph.nodes@;
        let ghost rsh = shape_of(nodes, self.root.id());
        let ghost csh = sub_shape_at(rsh, self.path@)->Some_0;
        proof {
            assert(shape_ok(nodes, rsh) && root_of(rsh) == self.root.id());
            lemma_sub_shape(nodes, rsh, self.path@);
            lemma_canon(nodes, csh);
            if csh is Branch {
                lemma_canon(nodes, *csh->Branch_1);
                lemma_canon(nodes, *csh->Branch_2);
            }
        }
        let cs = self.graph.get_children(self.cursor);
        let mut rs: Vec<String> = Vec::new();
        if cs.len() == 2 {
            rs.push(self.graph.render(cs[0]));
            rs.push(self.graph.render(cs[1]));
        }
        rs
    }

    /// The plain rendered form of the current equation.
    pub fn render_root(&self) -> (r: String)
        requires
            self.well_formed(),
        ensures
            r@ == render_plain(self.root_view()),
    {
        self.graph.render(self.root)
    }

    /// The plain rendered form of the selected subtree.
    pub fn render_cursor(&self) -> (r: String)
        requires
            self.well_formed(),
        ensures
            r@ == render_plain(self.cursor_view()),
    {
        proof {
            let nodes = self.graph.nodes@;
            let rsh = shape_of(nodes, self.root.id());
            assert(shape_ok(nodes, rsh) && root_of(rsh) == self.root.id());
            lemma_sub_shape(nodes, rsh, self.path@);
            lemma_canon(nodes, sub_shape_at(rsh, self.path@)->Some_0);
        }
        self.graph.render(self.cursor)
    }

    /// The typed rendered form of the selected subtree, or the
    /// arithmetic error that solving below it reports.
    pub fn render_cursor_typed(&self) -> (r: Result<String, ArithmeticError>)
        requires
            self.well_formed(),
        ensures
            match crate::render::render_typed_spec(self.cursor_view()) {
                Ok(s) => r is Ok && r->Ok_0@ == s,
                Err(err) => r is Err && r->Err_0 == err,
            },
    {
        proof {
            let nodes = self.graph.nodes@;
            let rsh = shape_of(nodes, self.root.id());
            assert(shape_ok(nodes, rsh) && root_of(rsh) == self.root.id());
            lemma_sub_shape(nodes, rsh, self.path@);
            lemma_canon(nodes, sub_shape_at(rsh, self.path@)->Some_0);
        }
        self.graph.render_typed(self.cursor)
    }

    /// The rendered plain forms of the history entries, oldest first.
    /// Each entry renders exactly its recorded meaning, however many
    /// rules have been applied since it was pushed.
    pub fn render_history(&self) -> (rs: Vec<String>)
        requires
            self.well_formed(),
        ensures
            rs@.len() == self.history_views().len(),
            forall|i: int|
                0 <= i < rs@.len() ==> (#[trigger] rs@[i])@ == render_plain(
                    self.history_views()[i],
                ),
    {
        let mut rs: Vec<String> = Vec::new();
        let mut i: usize = 0;
        while i < self.history.len()
            invariant
                self.well_formed(),
                0 <= i <= self.history@.len(),
                rs@.len() == i,
                forall|j: int|
                    0 <= j < i ==> (#[trigger] rs@[j])@ == render_plain(self.history_views()[j]),
            decreases self.history@.len() - i,
        {
            rs.push(self.graph.render(self.history[i]));
            i = i + 1;
        }
        rs
    }

    /// The number of history entries.
    pub fn history_len(&self) -> (n: usize)
        requires
            self.well_formed(),
        ensures
            n == self.history_views().len(),
    {
        self.history.len()
    }

    /// The applicable rules for the selected node, in catalog order,
    /// each with its proposed replacement.  Listing allocates the
    /// proposals' inner nodes; nothing already in the session changes.
    pub fn list_applicable_rules(&mut self) -> (ms: Vec<Match>)
        requires
            old(self).well_formed(),
        ensures
            final(self).well_formed(),
            final(self).root_view() == old(self).root_view(),
            final(self).cursor_view() == old(self).cursor_view(),
            final(self).cursor_path() == old(self).cursor_path(),
            final(self).history_views() == old(self).history_views(),
            ms@.len() == applicable_rules(old(self).cursor_view()).len(),
            forall|i: int| 0 <= i < ms@.len() ==> (#[trigger] ms@[i]).rule == applicable_rules(
                old(self).cursor_view(),
            )[i] && ms@[i].rendered@ == render_plain(
                rule_proposal(ms@[i].rule, old(self).cursor_view()),
            ),
    {
        let ghost nodes = self.graph.nodes@;
        let ghost rsh = shape_of(nodes, self.root.id());
        let ghost csh = sub_shape_at(rsh, self.path@)->Some_0;
        proof {
            assert(shape_ok(nodes, rsh) && root_of(rsh) == self.root.id());
            lemma_sub_shape(nodes, rsh, self.path@);
            lemma_canon(nodes, csh);
        }
        let ms = find_all_rules(&mut self.graph, self.cursor);
        proof {
            let nodes2 = self.graph.nodes@;
            assert(shape_of(nodes2, self.root.id()) == rsh);
        }
        ms
    }

    /// Apply the chosen match for the selected node, in this exact
    /// order: overwrite the selected slot with the proposal — the live
    /// aliased cell, so the change shows through the root — then push the
    /// current root handle onto the history, then rebind the root to a
    /// fresh deep copy and the cursor to the new root.  The entry just
    /// pushed can never again be reached by a mutation, because nothing
    /// live still points into it.  An out-of-range index is reported and
    /// nothing observable changes.
    pub fn apply_rule(&mut self, index: usize) -> (r: Result<(), RuleIndexError>)
        requires
            old(self).well_formed(),
        ensures
            final(self).well_formed(),
            (r is Ok) <==> index < applicable_rules(old(self).cursor_view()).len(),
            r is Err ==> r->Err_0 == RuleIndexError::OutOfRange
                && final(self).root_view() == old(self).root_view()
                && final(self).cursor_view() == old(self).cursor_view()
                && final(self).cursor_path() == old(self).cursor_path()
                && final(self).history_views() == old(self).history_views(),
            r is Ok ==> {
                let rule = applicable_rules(old(self).cursor_view())[index as int];
                let mutated = ast_replace(
                    old(self).root_view(),
                    old(self).cursor_path(),
                    rule_proposal(rule, old(self).cursor_view()),
                );
                &&& final(self).root_view() == mutated
                &&& final(self).cursor_view() == mutated
                &&& final(self).cursor_path() == Seq::<int>::empty()
                &&& final(self).history_views() == old(self).history_views().push(mutated)
            },
    {
        let ghost nodes0 = self.graph.nodes@;
        let ghost rsh = shape_of(nodes0, self.root.id());
        let ghost csh = sub_shape_at(rsh, self.path@)->Some_0;
        let ghost t = view_of(nodes0, self.cursor.id());
        proof {
            assert(shape_ok(nodes0, rsh) && root_of(rsh) == self.root.id());
            lemma_sub_shape(nodes0, rsh, self.path@);
            lemma_canon(nodes0, csh);
        }
        let mut ms = find_all_rules(&mut self.graph, self.cursor);
        let ghost nodes1 = self.graph.nodes@;
        proof {
            assert(shape_of(nodes1, self.root.id()) == rsh);
        }
        if index >= ms.len() {
            return Err(RuleIndexError::OutOfRange);
        }
        let m = ms.remove(index);
        let ghost c = self.cursor.id();
        let ghost prop = rule_proposal(m.rule, t);
        proof {
            assert(m.valid_for(nodes1, c, t));
            crate::graph::lemma_root_mem(csh);
            lemma_mem_bounds(nodes1, rsh);
            assert(mem_idx(rsh, c)) by {
                lemma_sub_shape(nodes1, rsh, self.path@);
            }
            assert(0 <= c < nodes1.len());
        }
        self.graph.replace_content(self.cursor, m.result);
        let ghost nodes2 = self.graph.nodes@;
        let ghost newsh = shape_replace(rsh, self.path@, m.shape@);
        let ghost mutated = ast_replace(view_of(nodes1, self.root.id()), self.path@, prop);
        proof {
            crate::graph::lemma_replace_at_path(nodes1, c, m.result, rsh, self.path@, m.shape@);
            lemma_canon(nodes2, newsh);
            assert(view_of(nodes2, self.root.id()) == mutated);
            // the old history entries never visit the mutated slot
            assert forall|i: int| 0 <= i < self.history@.len() implies wf_at(
                nodes2,
                (#[trigger] self.history@[i]).id(),
            ) && view_of(nodes2, self.history@[i].id()) == self.hist_views@[i] && shape_of(
                nodes2,
                self.history@[i].id(),
            ) == shape_of(nodes1, self.history@[i].id()) by {
                let hsh = shape_of(nodes1, self.history@[i].id());
                assert(shape_ok(nodes1, hsh));
                assert(!mem_idx(hsh, c));
                lemma_shape_update_off(nodes1, c, m.result, hsh);
                lemma_canon(nodes2, hsh);
            }
        }
        self.history.push(self.root);
        let copy = self.graph.deep_copy(self.root);
        let ghost nodes3 = self.graph.nodes@;
        self.root = copy;
        self.cursor = copy;
        proof {
            self.path@ = Seq::empty();
            self.hist_views@ = self.hist_views@.push(mutated);
        }
        proof {
            let nodes = self.graph.nodes@;
            let nrsh = shape_of(nodes, copy.id());
            assert(shape_ok(nodes, nrsh) && root_of(nrsh) == copy.id());
            lemma_mem_bounds(nodes2, newsh);
            assert forall|i: int, k: int|
                0 <= i < self.history@.len() && #[trigger] mem_idx(
                    shape_of(nodes, self.history@[i].id()),
                    k,
                ) implies !mem_idx(nrsh, k) by {
                let hsh = shape_of(nodes, self.history@[i].id());
                lemma_mem_bounds(nodes, hsh);
                if i < self.history@.len() - 1 {
                    let hsh2 = shape_of(nodes2, self.history@[i].id());
                    assert(hsh == hsh2);
                    lemma_mem_bounds(nodes2, hsh2);
                    assert(k < nodes2.len());
                } else {
                    assert(self.history@[i] == old(self).root);
                    assert(shape_of(nodes2, self.history@[i].id()) == newsh);
                    assert(k < nodes2.len());
                }
                assert(!mem_idx(nrsh, k));
            }
        }
        Ok(())
    }

    /// The history entries, oldest first: a read-only view.
    pub fn history(&self) -> (h: &Vec<Expressions>)
        requires
            self.well_formed(),
        ensures
            h@.len() == self.history_views().len(),
            forall|i: int|
                0 <= i < h@.len() ==> wf_at(self.nodes(), (#[trigger] h@[i]).id()) && view_of(
                    self.nodes(),
                    h@[i].id(),
                ) == self.history_views()[i],
    {
        &self.history
    }

    /// The graph that backs the session, for read-only queries.
    pub fn graph(&self) -> (g: &Graph)
        ensures
            g.nodes@ == self.nodes(),
    {
        &self.graph
    }
}

} // verus!
