//! The element tree: the persistent per-widget state that survives redraws.
//!
//! An application describes its view afresh on every redraw. The runner keeps a
//! [`Tree`] alongside it, one node per element, holding the element's internal
//! state (a list's selection, a paragraph's scroll offset, ...). After each new
//! view is built, [`Tree::diff`] reconciles the tree with the view's [`Node`]
//! description: nodes whose element kind is unchanged keep their state, the others
//! are rebuilt from the element's fresh state.
use std::any::TypeId;
use vstd::prelude::*;

pub mod list;
pub mod paragraph;
pub mod table;

verus! {

/// `TypeId` is carried through as an opaque value.
#[verifier::external_type_specification]
#[verifier::external_body]
pub struct ExTypeId(TypeId);

/// Compares two `TypeId`s with `TypeId`'s own `==`.
/// Claimed: the result is `true` exactly when the two values are the same value,
/// which holds because `TypeId` equality is equality of the type identity it stores.
#[verifier::external_body]
fn same_kind(a: &TypeId, b: &TypeId) -> (r: bool)
    ensures
        r == (*a == *b),
{
    a == b
}

/// What the tree needs to know of an element of a view: the element's kind, the
/// fresh state that a new node for it starts from, and its children in order.
pub struct Node<S> {
    pub id: TypeId,
    pub state: Option<S>,
    pub children: Vec<Node<S>>,
}

/// The persistent state of a view: one node per element.
pub struct Tree<S> {
    id: TypeId,
    state: Option<S>,
    children: Vec<Tree<S>>,
}

impl<S> Tree<S> {
    /// Builds the tree of a view from scratch: every node starts from its
    /// element's fresh state.
    pub fn init(node: Node<S>) -> (t: Tree<S>)
        ensures
            built(t, node),
        decreases node,
    {
        let ghost orig = node;
        let Node { id, state, children } = node;
        let mut rest = children;
        let mut out: Vec<Tree<S>> = Vec::new();
        #[verifier::loop_isolation(false)]
        while rest.len() > 0
            invariant
                out.len() + rest.len() == orig.children.len(),
                forall|i: int| 0 <= i < rest.len() ==> rest@[i] == orig.children@[out.len() + i],
                forall|i: int| 0 <= i < out.len() ==> #[trigger] built(out@[i], orig.children@[i]),
            decreases rest.len(),
        {
            let c = rest.remove(0);
            assert(decreases_to!(orig => c));
            let t = Tree::init(c);
            out.push(t);
        }
        proof {
            lemma_all_built(out@, orig.children@);
        }
        Tree { id, state, children: out }
    }

    /// Reconciles the tree with a new view. A node whose element is of another kind
    /// is rebuilt; a node of the same kind keeps its state and its children are
    /// reconciled in order: children beyond the new count are dropped, children the
    /// view adds are built from scratch.
    pub fn diff(&mut self, node: Node<S>)
        ensures
            diffed(*old(self), node, *final(self)),
        decreases node,
    {
        if !same_kind(&self.id, &node.id) {
            *self = Tree::init(node);
            return;
        }
        let ghost orig = node;
        let mut olds: Vec<Tree<S>> = Vec::new();
        std::mem::swap(&mut olds, &mut self.children);
        let ghost os = olds@;
        let Node { id: _, state: _, children } = node;
        let mut rest = children;
        let mut out: Vec<Tree<S>> = Vec::new();
        #[verifier::loop_isolation(false)]
        while rest.len() > 0
            invariant
                out.len() + rest.len() == orig.children.len(),
                forall|i: int| 0 <= i < rest.len() ==> rest@[i] == orig.children@[out.len() + i],
                out.len() <= os.len() ==> olds.len() == os.len() - out.len(),
                out.len() > os.len() ==> olds.len() == 0,
                forall|i: int| 0 <= i < olds.len() ==> olds@[i] == os[out.len() + i],
                forall|i: int| 0 <= i < out.len() ==> #[trigger] child_diffed(os, orig.children@, out@, i),
            decreases rest.len(),
        {
            let c = rest.remove(0);
            assert(decreases_to!(orig => c));
            let ghost k = out.len() as int;
            let ghost prev = out@;
            if olds.len() > 0 {
                let mut t = olds.remove(0);
                t.diff(c);
                out.push(t);
                assert(child_diffed(os, orig.children@, out@, k));
            } else {
                let t = Tree::init(c);
                out.push(t);
                assert(child_diffed(os, orig.children@, out@, k));
            }
            assert forall|i: int| 0 <= i < k implies #[trigger] child_diffed(os, orig.children@, out@, i) by {
                assert(out@[i] == prev[i]);
                assert(child_diffed(os, orig.children@, prev, i));
            }
        }
        self.children = out;
        proof {
            lemma_all_diffed(os, orig.children@, self.children@);
        }
    }

    /// Whether the node has a state.
    pub fn has_state(&self) -> (r: bool)
        ensures
            r == self.spec_state() is Some,
    {
        self.state.is_some()
    }

    /// Runs `f` on the node's state; the node must have one.
    pub fn state<O, F: FnOnce(&S) -> O>(&self, f: F) -> (r: O)
        requires
            self.spec_state() is Some,
            f.requires((&self.spec_state()->0,)),
        ensures
            f.ensures((&self.spec_state()->0,), r),
    {
        match &self.state {
            Some(s) => f(s),
            None => f(vstd::pervasive::unreached()),
        }
    }

    /// Runs `f` on the node's state, which `f` may change; the node must have one.
    /// The result is `f`'s, for a call on the node's state whose final value is the
    /// node's new state. The node's kind and children stay as they were.
    pub fn state_mut<O, F: FnOnce(&mut S) -> O>(&mut self, f: F) -> (r: O)
        requires
            old(self).spec_state() is Some,
            forall|x: &mut S| f.requires((x,)),
        ensures
            final(self).kind() == old(self).kind(),
            final(self).spec_state() is Some,
            final(self).spec_children() == old(self).spec_children(),
            exists|x: &mut S|
                *x == old(self).spec_state()->0 && *final(x) == final(self).spec_state()->0
                    && f.ensures((x,), r),
    {
        let s = self.state.as_mut().unwrap();
        f(s)
    }

    /// The kind of element the node belongs to.
    pub fn id(&self) -> (r: TypeId)
        ensures
            r == self.kind(),
    {
        self.id
    }

    /// The node's children, for an element to adjust before the tree is reconciled
    /// with it; the node's kind and state stay as they are.
    pub fn children_mut(&mut self) -> (r: &mut Vec<Tree<S>>)
        ensures
            r@ == old(self).spec_children(),
            final(self).spec_children() == final(r)@,
            final(self).kind() == old(self).kind(),
            final(self).spec_state() == old(self).spec_state(),
    {
        &mut self.children
    }

    /// The node's children, in order.
    pub fn children(&self) -> (r: &Vec<Tree<S>>)
        ensures
            r@ == self.spec_children(),
    {
        &self.children
    }

    /// The kind of element this node belongs to.
    pub closed spec fn kind(self) -> TypeId {
        self.id
    }

    /// The node's state.
    pub closed spec fn spec_state(self) -> Option<S> {
        self.state
    }

    /// The node's children, in order.
    pub closed spec fn spec_children(self) -> Seq<Tree<S>> {
        self.children@
    }
}

/// `t` is the tree that [`Tree::init`] builds from `n`: the same kinds, the nodes'
/// fresh states, and the same children, recursively.
pub open spec fn built<S>(t: Tree<S>, n: Node<S>) -> bool
    decreases n, 1nat,
{
    &&& t.kind() == n.id
    &&& t.spec_state() == n.state
    &&& all_built(t.spec_children(), n.children@)
}

/// `built` for each pair of two sequences of the same length.
pub open spec fn all_built<S>(ts: Seq<Tree<S>>, ns: Seq<Node<S>>) -> bool
    decreases ns, 0nat,
{
    &&& ts.len() == ns.len()
    &&& (ns.len() > 0 ==> {
        &&& all_built(ts.drop_last(), ns.drop_last())
        &&& built(ts.last(), ns.last())
    })
}

/// `new` is what [`Tree::diff`] makes of `old` against `n`: a node of another kind
/// is rebuilt from `n`; a node of the same kind keeps its state, keeps its first
/// children diffed against `n`'s, drops the children `n` no longer has and builds
/// the ones `n` adds.
pub open spec fn diffed<S>(old: Tree<S>, n: Node<S>, new: Tree<S>) -> bool
    decreases n, 1nat,
{
    if old.kind() != n.id {
        built(new, n)
    } else {
        &&& new.kind() == old.kind()
        &&& new.spec_state() == old.spec_state()
        &&& all_diffed(old.spec_children(), n.children@, new.spec_children())
    }
}

/// Child `i` of `ws` is `os[i]` diffed against `ns[i]` where `os` has a child `i`,
/// and built from `ns[i]` where it has not; `ws` has as many children as `ns`.
pub open spec fn all_diffed<S>(os: Seq<Tree<S>>, ns: Seq<Node<S>>, ws: Seq<Tree<S>>) -> bool
    decreases ns, 0nat,
{
    &&& ws.len() == ns.len()
    &&& (ns.len() > 0 ==> {
        &&& all_diffed(os, ns.drop_last(), ws.drop_last())
        &&& if ns.len() - 1 < os.len() {
            diffed(os[ns.len() - 1], ns.last(), ws.last())
        } else {
            built(ws.last(), ns.last())
        }
    })
}

/// `t` has the shape of `n`: the same kinds, with as many children, recursively.
pub open spec fn same_shape<S>(t: Tree<S>, n: Node<S>) -> bool
    decreases n, 1nat,
{
    &&& t.kind() == n.id
    &&& all_same_shape(t.spec_children(), n.children@)
}

/// `same_shape` for each pair of two sequences of the same length.
pub open spec fn all_same_shape<S>(ts: Seq<Tree<S>>, ns: Seq<Node<S>>) -> bool
    decreases ns, 0nat,
{
    &&& ts.len() == ns.len()
    &&& (ns.len() > 0 ==> {
        &&& all_same_shape(ts.drop_last(), ns.drop_last())
        &&& same_shape(ts.last(), ns.last())
    })
}

/// `a` and `b` hold the same kinds and the same states, recursively.
pub open spec fn same_states<S>(a: Tree<S>, b: Tree<S>) -> bool
    decreases a, 1nat,
{
    &&& a.kind() == b.kind()
    &&& a.spec_state() == b.spec_state()
    &&& all_same_states(a.spec_children(), b.spec_children())
}

/// `same_states` for each pair of two sequences of the same length.
pub open spec fn all_same_states<S>(xs: Seq<Tree<S>>, ys: Seq<Tree<S>>) -> bool
    decreases xs, 0nat,
{
    &&& xs.len() == ys.len()
    &&& (xs.len() > 0 ==> {
        &&& all_same_states(xs.drop_last(), ys.drop_last())
        &&& same_states(xs.last(), ys.last())
    })
}


/// Child `i` of the result of a diff, as `all_diffed` describes it.
pub open spec fn child_diffed<S>(os: Seq<Tree<S>>, ns: Seq<Node<S>>, ws: Seq<Tree<S>>, i: int) -> bool {
    if i < os.len() {
        diffed(os[i], ns[i], ws[i])
    } else {
        built(ws[i], ns[i])
    }
}

proof fn lemma_all_built<S>(ts: Seq<Tree<S>>, ns: Seq<Node<S>>)
    ensures
        all_built(ts, ns) <==> (ts.len() == ns.len() && forall|i: int|
            0 <= i < ns.len() ==> #[trigger] built(ts[i], ns[i])),
    decreases ns.len(),
{
    if ns.len() > 0 && ts.len() == ns.len() {
        lemma_all_built(ts.drop_last(), ns.drop_last());
        assert(forall|i: int| 0 <= i < ns.len() - 1 ==> ts.drop_last()[i] == ts[i] && ns.drop_last()[i] == ns[i]);
        assert(ts.last() == ts[ns.len() - 1]);
        assert(ns.last() == ns[ns.len() - 1]);
        if forall|i: int| 0 <= i < ns.len() ==> #[trigger] built(ts[i], ns[i]) {
            assert(built(ts[ns.len() - 1], ns[ns.len() - 1]));
            assert(built(ts.last(), ns.last()));
            assert(all_built(ts, ns));
        }
    }
}

proof fn lemma_all_same_shape<S>(ts: Seq<Tree<S>>, ns: Seq<Node<S>>)
    ensures
        all_same_shape(ts, ns) <==> (ts.len() == ns.len() && forall|i: int|
            0 <= i < ns.len() ==> #[trigger] same_shape(ts[i], ns[i])),
    decreases ns.len(),
{
    if ns.len() > 0 && ts.len() == ns.len() {
        lemma_all_same_shape(ts.drop_last(), ns.drop_last());
        assert(forall|i: int| 0 <= i < ns.len() - 1 ==> ts.drop_last()[i] == ts[i] && ns.drop_last()[i] == ns[i]);
        assert(ts.last() == ts[ns.len() - 1]);
        assert(ns.last() == ns[ns.len() - 1]);
        if forall|i: int| 0 <= i < ns.len() ==> #[trigger] same_shape(ts[i], ns[i]) {
            assert(same_shape(ts[ns.len() - 1], ns[ns.len() - 1]));
            assert(same_shape(ts.last(), ns.last()));
            assert(all_same_shape(ts, ns));
        }
    }
}

proof fn lemma_all_same_states<S>(xs: Seq<Tree<S>>, ys: Seq<Tree<S>>)
    ensures
        all_same_states(xs, ys) <==> (xs.len() == ys.len() && forall|i: int|
            0 <= i < xs.len() ==> #[trigger] same_states(xs[i], ys[i])),
    decreases xs.len(),
{
    if xs.len() > 0 && xs.len() == ys.len() {
        lemma_all_same_states(xs.drop_last(), ys.drop_last());
        assert(forall|i: int| 0 <= i < xs.len() - 1 ==> xs.drop_last()[i] == xs[i] && ys.drop_last()[i] == ys[i]);
        assert(xs.last() == xs[xs.len() - 1]);
        assert(ys.last() == ys[xs.len() - 1]);
        if forall|i: int| 0 <= i < xs.len() ==> #[trigger] same_states(xs[i], ys[i]) {
            assert(same_states(xs[xs.len() - 1], ys[xs.len() - 1]));
            assert(same_states(xs.last(), ys.last()));
            assert(all_same_states(xs, ys));
        }
    }
}

proof fn lemma_all_diffed<S>(os: Seq<Tree<S>>, ns: Seq<Node<S>>, ws: Seq<Tree<S>>)
    ensures
        all_diffed(os, ns, ws) <==> (ws.len() == ns.len() && forall|i: int|
            0 <= i < ns.len() ==> #[trigger] child_diffed(os, ns, ws, i)),
    decreases ns.len(),
{
    if ns.len() > 0 && ws.len() == ns.len() {
        lemma_all_diffed(os, ns.drop_last(), ws.drop_last());
        assert forall|i: int| 0 <= i < ns.len() - 1 implies
            child_diffed(os, ns.drop_last(), ws.drop_last(), i) == child_diffed(os, ns, ws, i) by {
            assert(ns.drop_last()[i] == ns[i]);
            assert(ws.drop_last()[i] == ws[i]);
        }
        let k = ns.len() - 1;
        assert(ns.last() == ns[k]);
        assert(ws.last() == ws[k]);
        if forall|i: int| 0 <= i < ns.len() ==> #[trigger] child_diffed(os, ns, ws, i) {
            assert(child_diffed(os, ns, ws, k));
            if k < os.len() {
                assert(diffed(os[k], ns[k], ws[k]));
                assert(diffed(os[k], ns.last(), ws.last()));
            } else {
                assert(built(ws[k], ns[k]));
                assert(built(ws.last(), ns.last()));
            }
            assert forall|i: int| 0 <= i < ns.len() - 1 implies #[trigger] child_diffed(os, ns.drop_last(), ws.drop_last(), i) by {
                assert(ns.drop_last()[i] == ns[i]);
                assert(ws.drop_last()[i] == ws[i]);
                assert(child_diffed(os, ns, ws, i));
            }
            assert(all_diffed(os, ns.drop_last(), ws.drop_last()));
            assert(all_diffed(os, ns, ws));
        }
        if all_diffed(os, ns, ws) {
            if k < os.len() {
                assert(diffed(os[k], ns.last(), ws.last()));
                assert(diffed(os[k], ns[k], ws[k]));
            } else {
                assert(built(ws.last(), ns.last()));
                assert(built(ws[k], ns[k]));
            }
            assert(child_diffed(os, ns, ws, k));
        }
    }
}

/// A freshly built tree has the shape of the view it was built from.
pub proof fn lemma_init_has_shape_of_view<S>(t: Tree<S>, n: Node<S>)
    requires
        built(t, n),
    ensures
        same_shape(t, n),
    decreases n,
{
    let ts = t.spec_children();
    let ns = n.children@;
    lemma_all_built(ts, ns);
    assert forall|i: int| 0 <= i < ns.len() implies #[trigger] same_shape(ts[i], ns[i]) by {
        assert(decreases_to!(n => n.children@[i]));
        lemma_init_has_shape_of_view(ts[i], ns[i]);
    }
    lemma_all_same_shape(ts, ns);
}

/// After a diff, the tree has the shape of the new view, whatever it had before.
pub proof fn lemma_diff_has_shape_of_view<S>(old: Tree<S>, n: Node<S>, new: Tree<S>)
    requires
        diffed(old, n, new),
    ensures
        same_shape(new, n),
    decreases n,
{
    if old.kind() != n.id {
        lemma_init_has_shape_of_view(new, n);
    } else {
        let os = old.spec_children();
        let ns = n.children@;
        let ws = new.spec_children();
        lemma_all_diffed(os, ns, ws);
        assert forall|i: int| 0 <= i < ns.len() implies #[trigger] same_shape(ws[i], ns[i]) by {
            assert(child_diffed(os, ns, ws, i));
            assert(decreases_to!(n => n.children@[i]));
            if i < os.len() {
                lemma_diff_has_shape_of_view(os[i], ns[i], ws[i]);
            } else {
                lemma_init_has_shape_of_view(ws[i], ns[i]);
            }
        }
        lemma_all_same_shape(ws, ns);
    }
}

/// Diffing a tree against a view of the same shape changes nothing: every node
/// keeps its kind and its state. Redrawing an unchanged layout keeps all widget
/// state (selections, scroll offsets).
pub proof fn lemma_diff_same_shape_keeps_states<S>(old: Tree<S>, n: Node<S>, new: Tree<S>)
    requires
        same_shape(old, n),
        diffed(old, n, new),
    ensures
        same_states(new, old),
    decreases n,
{
    let os = old.spec_children();
    let ns = n.children@;
    let ws = new.spec_children();
    lemma_all_same_shape(os, ns);
    lemma_all_diffed(os, ns, ws);
    assert forall|i: int| 0 <= i < ws.len() implies #[trigger] same_states(ws[i], os[i]) by {
        assert(child_diffed(os, ns, ws, i));
        assert(same_shape(os[i], ns[i]));
        assert(decreases_to!(n => n.children@[i]));
        lemma_diff_same_shape_keeps_states(os[i], ns[i], ws[i]);
    }
    lemma_all_same_states(ws, os);
}

/// A freshly built tree starts from the view's fresh states: the node and each of
/// its children have the kind and the state of the view's element at that place,
/// and the node has as many children as the view.
pub proof fn lemma_init_starts_from_fresh_states<S>(t: Tree<S>, n: Node<S>, i: int)
    requires
        built(t, n),
    ensures
        t.kind() == n.id,
        t.spec_state() == n.state,
        t.spec_children().len() == n.children@.len(),
        0 <= i < n.children@.len() ==> t.spec_children()[i].kind() == n.children@[i].id
            && t.spec_children()[i].spec_state() == n.children@[i].state,
{
    lemma_all_built(t.spec_children(), n.children@);
    if 0 <= i < n.children@.len() {
        assert(built(t.spec_children()[i], n.children@[i]));
    }
}

/// A diff gives the node the view's kind, and as many children as the view has;
/// the node keeps its state exactly when its kind is the view's, and otherwise
/// starts from the view's fresh state.
pub proof fn lemma_diff_node_keeps_state_of_same_kind<S>(old: Tree<S>, n: Node<S>, new: Tree<S>)
    requires
        diffed(old, n, new),
    ensures
        new.kind() == n.id,
        new.spec_state() == (if old.kind() == n.id { old.spec_state() } else { n.state }),
        new.spec_children().len() == n.children@.len(),
{
}

/// After a diff, child `i` of the node is of the kind of the view's child `i`. It
/// keeps the state of the old child `i` whenever the node kept its kind, the old
/// node had a child `i` and that child is of the same kind as the view's, however
/// many children the old node and the view have; every other child starts from the
/// view's fresh state.
pub proof fn lemma_diff_children_keep_states_of_same_kind<S>(old: Tree<S>, n: Node<S>, new: Tree<S>, i: int)
    requires
        diffed(old, n, new),
        0 <= i < n.children@.len(),
    ensures
        new.spec_children()[i].kind() == n.children@[i].id,
        new.spec_children()[i].spec_state() == (if old.kind() == n.id && i < old.spec_children().len()
            && old.spec_children()[i].kind() == n.children@[i].id {
            old.spec_children()[i].spec_state()
        } else {
            n.children@[i].state
        }),
{
    let os = old.spec_children();
    let ns = n.children@;
    let ws = new.spec_children();
    if old.kind() != n.id {
        lemma_all_built(ws, ns);
        assert(built(ws[i], ns[i]));
    } else {
        lemma_all_diffed(os, ns, ws);
        assert(child_diffed(os, ns, ws, i));
        if i < os.len() {
            lemma_diff_node_keeps_state_of_same_kind(os[i], ns[i], ws[i]);
        } else {
            assert(built(ws[i], ns[i]));
        }
    }
}

/// A change made through `state_mut` persists: a later `state` call sees the value
/// that `state_mut`'s closure left in the node, and `state_mut`'s result is that
/// closure's result on the state the node had before.
pub proof fn lemma_state_mut_change_persists<S, O, F: FnOnce(&mut S) -> O, P, G: FnOnce(&S) -> P>(
    before: Tree<S>,
    after: Tree<S>,
    f: F,
    r: O,
    g: G,
    seen: P,
)
    requires
        before.spec_state() is Some,
        exists|x: &mut S|
            *x == before.spec_state()->0 && *final(x) == after.spec_state()->0 && #[trigger] f.ensures((x,), r),
        after.spec_state() is Some,
        g.ensures((&after.spec_state()->0,), seen),
    ensures
        exists|x: &mut S|
            *x == before.spec_state()->0 && #[trigger] f.ensures((x,), r) && g.ensures((&*final(x),), seen),
{
    let x = choose|x: &mut S|
        *x == before.spec_state()->0 && *final(x) == after.spec_state()->0 && #[trigger] f.ensures((x,), r);
    assert(g.ensures((&*final(x),), seen));
}

/// Redrawing the same view twice in a row leaves the second diff nothing to do:
/// after the first diff, a second one against a view of the same shape keeps every
/// kind and state the first one produced.
pub proof fn lemma_diff_twice_is_stable<S>(t0: Tree<S>, n1: Node<S>, t1: Tree<S>, n2: Node<S>, t2: Tree<S>)
    requires
        diffed(t0, n1, t1),
        same_shape_nodes(n1, n2),
        diffed(t1, n2, t2),
    ensures
        same_states(t2, t1),
{
    lemma_diff_has_shape_of_view(t0, n1, t1);
    lemma_same_shape_transfers(t1, n1, n2);
    lemma_diff_same_shape_keeps_states(t1, n2, t2);
}

/// Two views have the same shape: the same kinds, with as many children, recursively.
pub open spec fn same_shape_nodes<S>(a: Node<S>, b: Node<S>) -> bool
    decreases a, 1nat,
{
    &&& a.id == b.id
    &&& all_same_shape_nodes(a.children@, b.children@)
}

/// `same_shape_nodes` for each pair of two sequences of the same length.
pub open spec fn all_same_shape_nodes<S>(xs: Seq<Node<S>>, ys: Seq<Node<S>>) -> bool
    decreases xs, 0nat,
{
    &&& xs.len() == ys.len()
    &&& (xs.len() > 0 ==> {
        &&& all_same_shape_nodes(xs.drop_last(), ys.drop_last())
        &&& same_shape_nodes(xs.last(), ys.last())
    })
}

proof fn lemma_all_same_shape_nodes<S>(xs: Seq<Node<S>>, ys: Seq<Node<S>>)
    ensures
        all_same_shape_nodes(xs, ys) <==> (xs.len() == ys.len() && forall|i: int|
            0 <= i < xs.len() ==> #[trigger] same_shape_nodes(xs[i], ys[i])),
    decreases xs.len(),
{
    if xs.len() > 0 && xs.len() == ys.len() {
        lemma_all_same_shape_nodes(xs.drop_last(), ys.drop_last());
        assert(forall|i: int| 0 <= i < xs.len() - 1 ==> xs.drop_last()[i] == xs[i] && ys.drop_last()[i] == ys[i]);
        assert(xs.last() == xs[xs.len() - 1]);
        assert(ys.last() == ys[xs.len() - 1]);
        if forall|i: int| 0 <= i < xs.len() ==> #[trigger] same_shape_nodes(xs[i], ys[i]) {
            assert(same_shape_nodes(xs[xs.len() - 1], ys[xs.len() - 1]));
            assert(same_shape_nodes(xs.last(), ys.last()));
            assert(all_same_shape_nodes(xs, ys));
        }
    }
}

proof fn lemma_same_shape_transfers<S>(t: Tree<S>, a: Node<S>, b: Node<S>)
    requires
        same_shape(t, a),
        same_shape_nodes(a, b),
    ensures
        same_shape(t, b),
    decreases a,
{
    let ts = t.spec_children();
    lemma_all_same_shape(ts, a.children@);
    lemma_all_same_shape_nodes(a.children@, b.children@);
    assert forall|i: int| 0 <= i < ts.len() implies #[trigger] same_shape(ts[i], b.children@[i]) by {
        assert(same_shape(ts[i], a.children@[i]));
        assert(same_shape_nodes(a.children@[i], b.children@[i]));
        assert(decreases_to!(a => a.children@[i]));
        lemma_same_shape_transfers(ts[i], a.children@[i], b.children@[i]);
    }
    lemma_all_same_shape(ts, b.children@);
}

} // verus!
