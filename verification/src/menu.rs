//! The catalogue tree: an arena of menu nodes addressed by index.
//!
//! A node is either a selectable `Item` carrying a script payload, or a
//! `Menu` holding the arena indices of its children.  Children always sit
//! at lower indices than their parent, so every index chain down the tree
//! strictly decreases; that ordering is the well-formedness invariant and
//! the termination measure of every traversal.
//!
//! The structure is fixed after construction; the only mutable state is the
//! `selected` flag of each item.

use vstd::prelude::*;

verus! {

/// Mathematical model of one arena slot.
#[verifier::ext_equal]
pub enum NodeView {
    Item { name: Seq<char>, payload: Seq<char>, selected: bool },
    Menu { name: Seq<char>, children: Seq<usize> },
}

/// A node of the menu tree.  `Menu` children are arena indices.
pub enum MenuNode {
    Item { name: String, payload: String, selected: bool },
    Menu { name: String, children: Vec<usize> },
}

impl View for MenuNode {
    type V = NodeView;

    open spec fn view(&self) -> NodeView {
        match self {
            MenuNode::Item { name, payload, selected } => NodeView::Item {
                name: name@,
                payload: payload@,
                selected: *selected,
            },
            MenuNode::Menu { name, children } => NodeView::Menu {
                name: name@,
                children: children@,
            },
        }
    }
}

/// All indices in `cs` lie strictly below `bound`.
pub open spec fn children_below(cs: Seq<usize>, bound: int) -> bool {
    forall|j: int| 0 <= j < cs.len() ==> (cs[j] as int) < bound
}

/// A menu node's children sit strictly below it in the arena.
pub open spec fn node_wf(ns: Seq<NodeView>, i: int) -> bool {
    match ns[i] {
        NodeView::Menu { children, .. } => children_below(children, i),
        NodeView::Item { .. } => true,
    }
}

/// Every node of the arena is well-formed.
pub open spec fn arena_wf(ns: Seq<NodeView>) -> bool {
    forall|i: int| 0 <= i < ns.len() ==> #[trigger] node_wf(ns, i)
}

/// The selected leaves of the subtree rooted at `i`, in depth-first
/// pre-order; groups contribute nothing themselves.
pub open spec fn selected_leaves(ns: Seq<NodeView>, i: int) -> Seq<NodeView>
    decreases i, 1int, 0int,
        when arena_wf(ns) && 0 <= i < ns.len()
{
    match ns[i] {
        NodeView::Item { selected, .. } => if selected {
            seq![ns[i]]
        } else {
            Seq::empty()
        },
        NodeView::Menu { children, .. } => {
            proof {
                assert(node_wf(ns, i));
            }
            selected_leaves_list(ns, children, i)
        },
    }
}

/// The selected leaves below each index of `cs`, concatenated in order.
pub open spec fn selected_leaves_list(ns: Seq<NodeView>, cs: Seq<usize>, bound: int) -> Seq<
    NodeView,
>
    decreases bound, 0int, cs.len(),
        when arena_wf(ns) && 0 <= bound <= ns.len() && children_below(cs, bound)
{
    if cs.len() == 0 {
        Seq::empty()
    } else {
        selected_leaves(ns, cs[0] as int) + selected_leaves_list(ns, cs.drop_first(), bound)
    }
}

/// The payload of an item view; groups carry none.
pub open spec fn payload_of(n: NodeView) -> Seq<char> {
    match n {
        NodeView::Item { payload, .. } => payload,
        NodeView::Menu { .. } => Seq::empty(),
    }
}

/// The name of a node view.
pub open spec fn name_of(n: NodeView) -> Seq<char> {
    match n {
        NodeView::Item { name, .. } => name,
        NodeView::Menu { name, .. } => name,
    }
}

/// The payloads of the selected leaves under `i`, in catalogue order.
pub open spec fn selected_payloads(ns: Seq<NodeView>, i: int) -> Seq<Seq<char>> {
    selected_leaves(ns, i).map_values(|n: NodeView| payload_of(n))
}

/// The names of the selected leaves under `i`, in catalogue order.
pub open spec fn selected_names(ns: Seq<NodeView>, i: int) -> Seq<Seq<char>> {
    selected_leaves(ns, i).map_values(|n: NodeView| name_of(n))
}

/// What one arena slot contributes to the selected-leaf traversal: the
/// node itself when it is a selected item, nothing otherwise.
pub open spec fn leaf_contrib(ns: Seq<NodeView>, i: int) -> Seq<NodeView> {
    match ns[i] {
        NodeView::Item { selected, .. } => if selected {
            seq![ns[i]]
        } else {
            Seq::empty()
        },
        NodeView::Menu { .. } => Seq::empty(),
    }
}

/// The children of the node at `i`; an item has none.
pub open spec fn children_of(ns: Seq<NodeView>, i: int) -> Seq<usize> {
    match ns[i] {
        NodeView::Menu { children, .. } => children,
        NodeView::Item { .. } => Seq::empty(),
    }
}

/// No item of the arena is selected.
pub open spec fn no_selection(ns: Seq<NodeView>) -> bool {
    forall|i: int| 0 <= i < ns.len() ==> !(#[trigger] ns[i] matches NodeView::Item {
        selected: true,
        ..
    })
}

/// A tree without a selected item yields no selected leaves at all.
pub proof fn lemma_no_selection_leaves(ns: Seq<NodeView>, i: int)
    requires
        arena_wf(ns),
        no_selection(ns),
        0 <= i < ns.len(),
    ensures
        selected_leaves(ns, i) == Seq::<NodeView>::empty(),
    decreases i, 1int, 0int,
{
    match ns[i] {
        NodeView::Item { .. } => {
            assert(!(ns[i] matches NodeView::Item { selected: true, .. }));
        },
        NodeView::Menu { children, .. } => {
            assert(node_wf(ns, i));
            lemma_no_selection_leaves_list(ns, children, i);
        },
    }
}

proof fn lemma_no_selection_leaves_list(ns: Seq<NodeView>, cs: Seq<usize>, bound: int)
    requires
        arena_wf(ns),
        no_selection(ns),
        0 <= bound <= ns.len(),
        children_below(cs, bound),
    ensures
        selected_leaves_list(ns, cs, bound) == Seq::<NodeView>::empty(),
    decreases bound, 0int, cs.len(),
{
    if cs.len() == 0 {
    } else {
        lemma_no_selection_leaves(ns, cs[0] as int);
        assert(children_below(cs.drop_first(), bound)) by {
            assert forall|j: int| 0 <= j < cs.drop_first().len() implies (cs.drop_first()[j]
                as int) < bound by {
                assert(cs.drop_first()[j] == cs[j + 1]);
            }
        }
        lemma_no_selection_leaves_list(ns, cs.drop_first(), bound);
        assert(selected_leaves_list(ns, cs, bound) =~= Seq::<NodeView>::empty());
    }
}

/// Toggling flips an item's `selected` flag and leaves a group unchanged.
pub open spec fn spec_toggle(n: NodeView) -> NodeView {
    match n {
        NodeView::Item { name, payload, selected } => NodeView::Item {
            name,
            payload,
            selected: !selected,
        },
        NodeView::Menu { .. } => n,
    }
}

/// Toggling a node twice restores it: `activate` on an item is its own
/// inverse at the level of a single node.
pub proof fn lemma_toggle_involutive(n: NodeView)
    ensures
        spec_toggle(spec_toggle(n)) == n,
{
}

/// Toggling an item twice restores the whole arena.
pub proof fn lemma_arena_toggle_involutive(ns: Seq<NodeView>, i: int)
    requires
        0 <= i < ns.len(),
    ensures
        ns.update(i, spec_toggle(ns[i])).update(i, spec_toggle(ns.update(i, spec_toggle(ns[i]))[i]))
            =~= ns,
{
}

/// The menu tree: the node arena and the index of the root group.
pub struct MenuTree {
    pub nodes: Vec<MenuNode>,
    pub root: usize,
}

impl View for MenuTree {
    type V = Seq<NodeView>;

    open spec fn view(&self) -> Seq<NodeView> {
        self.nodes@.map_values(|n: MenuNode| n@)
    }
}

impl MenuTree {
    /// The structural invariant: children below parents, root in range,
    /// root a group.
    pub open spec fn wf(&self) -> bool {
        &&& arena_wf(self@)
        &&& (self.root as int) < self@.len()
        &&& self@[self.root as int] is Menu
    }

    /// The selected payloads of the whole tree, in catalogue order.
    pub open spec fn spec_selected_payloads(&self) -> Seq<Seq<char>> {
        selected_payloads(self@, self.root as int)
    }

    /// The selected names of the whole tree, in catalogue order.
    pub open spec fn spec_selected_names(&self) -> Seq<Seq<char>> {
        selected_names(self@, self.root as int)
    }

    /// Depth-first, pre-order traversal yielding the payload of every
    /// selected item, in catalogue order.
    pub fn visit_selected_leaves(&self) -> (r: Vec<String>)
        requires
            self.wf(),
        ensures
            r.deep_view() == self.spec_selected_payloads(),
    {
        let mut out: Vec<String> = Vec::new();
        push_selected_payloads(&self.nodes, self.root, &mut out);
        proof {
            assert(out.deep_view() =~= self.spec_selected_payloads());
        }
        out
    }

    /// Same traversal, yielding the names of the selected items.
    pub fn collect_selected_names(&self) -> (r: Vec<String>)
        requires
            self.wf(),
        ensures
            r.deep_view() == self.spec_selected_names(),
    {
        let mut out: Vec<String> = Vec::new();
        push_selected_names(&self.nodes, self.root, &mut out);
        proof {
            assert(out.deep_view() =~= self.spec_selected_names());
        }
        out
    }

    /// Flips the `selected` flag of the item at arena index `i`; a group
    /// index is left untouched.  No other node changes.
    pub fn toggle(&mut self, i: usize)
        requires
            old(self).wf(),
            (i as int) < old(self)@.len(),
        ensures
            final(self).wf(),
            final(self).root == old(self).root,
            final(self)@ == old(self)@.update(i as int, spec_toggle(old(self)@[i as int])),
    {
        let replacement: Option<MenuNode> = match &self.nodes[i] {
            MenuNode::Item { name, payload, selected } => Some(
                MenuNode::Item { name: name.clone(), payload: payload.clone(), selected: !*selected },
            ),
            MenuNode::Menu { .. } => None,
        };
        match replacement {
            Some(n) => {
                proof {
                    assert(n@ == spec_toggle(old(self)@[i as int]));
                }
                self.nodes[i] = n;
            },
            None => {
                proof {
                    assert(old(self)@[i as int] == spec_toggle(old(self)@[i as int]));
                }
            },
        }
        proof {
            assert(final(self)@ =~= old(self)@.update(i as int, spec_toggle(old(self)@[i as int])));
            assert forall|k: int| 0 <= k < final(self)@.len() implies #[trigger] node_wf(
                final(self)@,
                k,
            ) by {
                assert(node_wf(old(self)@, k));
            }
        }
    }
}

/// Appends the selected payloads under arena index `i` to `out`.
fn push_selected_payloads(nodes: &Vec<MenuNode>, i: usize, out: &mut Vec<String>)
    requires
        arena_wf(nodes@.map_values(|n: MenuNode| n@)),
        (i as int) < nodes@.len(),
    ensures
        final(out).deep_view() == old(out).deep_view() + selected_payloads(
            nodes@.map_values(|n: MenuNode| n@),
            i as int,
        ),
    decreases i,
{
    let ghost ns = nodes@.map_values(|n: MenuNode| n@);
    match &nodes[i] {
        MenuNode::Item { payload, selected, .. } => {
            if *selected {
                out.push(payload.clone());
            }
            proof {
                assert(final(out).deep_view() =~= old(out).deep_view() + selected_payloads(
                    ns,
                    i as int,
                ));
            }
        },
        MenuNode::Menu { children, .. } => {
            proof {
                assert(node_wf(ns, i as int));
            }
            let ghost cs = children@;
            proof {
                assert(cs.skip(0) =~= cs);
            }
            let mut k: usize = 0;
            while k < children.len()
                invariant
                    arena_wf(ns),
                    ns == nodes@.map_values(|n: MenuNode| n@),
                    (i as int) < ns.len(),
                    cs == children@,
                    ns[i as int] == (NodeView::Menu { name: name_of(ns[i as int]), children: cs }),
                    children_below(cs, i as int),
                    k <= cs.len(),
                    out.deep_view() + selected_payloads_list(ns, cs.skip(k as int), i as int)
                        =~= old(out).deep_view() + selected_payloads_list(ns, cs, i as int),
                decreases cs.len() - k,
            {
                proof {
                    lemma_children_below_skip(cs, i as int, k as int);
                    assert(cs.skip(k as int)[0] == cs[k as int]);
                    assert(cs.skip(k as int).drop_first() =~= cs.skip(k as int + 1));
                    lemma_selected_payloads_list_unfold(ns, cs.skip(k as int), i as int);
                }
                let child = children[k];
                push_selected_payloads(nodes, child, out);
                k = k + 1;
            }
            proof {
                assert(cs.skip(cs.len() as int) =~= Seq::<usize>::empty());
                assert(selected_payloads_list(ns, cs.skip(cs.len() as int), i as int)
                    =~= Seq::<Seq<char>>::empty());
                assert(selected_payloads(ns, i as int) == selected_payloads_list(
                    ns,
                    cs,
                    i as int,
                ));
                assert(final(out).deep_view() =~= old(out).deep_view() + selected_payloads(
                    ns,
                    i as int,
                ));
            }
        },
    }
}

/// The payloads of the selected leaves below each index of `cs`.
pub open spec fn selected_payloads_list(ns: Seq<NodeView>, cs: Seq<usize>, bound: int) -> Seq<
    Seq<char>,
> {
    selected_leaves_list(ns, cs, bound).map_values(|n: NodeView| payload_of(n))
}

/// The names of the selected leaves below each index of `cs`.
pub open spec fn selected_names_list(ns: Seq<NodeView>, cs: Seq<usize>, bound: int) -> Seq<
    Seq<char>,
> {
    selected_leaves_list(ns, cs, bound).map_values(|n: NodeView| name_of(n))
}

proof fn lemma_children_below_skip(cs: Seq<usize>, bound: int, k: int)
    requires
        children_below(cs, bound),
        0 <= k <= cs.len(),
    ensures
        children_below(cs.skip(k), bound),
{
    assert forall|j: int| 0 <= j < cs.skip(k).len() implies (cs.skip(k)[j] as int) < bound by {
        assert(cs.skip(k)[j] == cs[j + k]);
    }
}

/// One unfolding step of the list traversal, at the level of payloads.
proof fn lemma_selected_payloads_list_unfold(ns: Seq<NodeView>, cs: Seq<usize>, bound: int)
    requires
        arena_wf(ns),
        0 <= bound <= ns.len(),
        children_below(cs, bound),
        cs.len() > 0,
    ensures
        selected_payloads_list(ns, cs, bound) =~= selected_payloads(ns, cs[0] as int)
            + selected_payloads_list(ns, cs.drop_first(), bound),
{
    assert(selected_leaves_list(ns, cs, bound) == selected_leaves(ns, cs[0] as int)
        + selected_leaves_list(ns, cs.drop_first(), bound));
}

/// Appends the names of the selected leaves under arena index `i` to `out`.
fn push_selected_names(nodes: &Vec<MenuNode>, i: usize, out: &mut Vec<String>)
    requires
        arena_wf(nodes@.map_values(|n: MenuNode| n@)),
        (i as int) < nodes@.len(),
    ensures
        final(out).deep_view() == old(out).deep_view() + selected_names(
            nodes@.map_values(|n: MenuNode| n@),
            i as int,
        ),
    decreases i,
{
    let ghost ns = nodes@.map_values(|n: MenuNode| n@);
    match &nodes[i] {
        MenuNode::Item { name, selected, .. } => {
            if *selected {
                out.push(name.clone());
            }
            proof {
                assert(final(out).deep_view() =~= old(out).deep_view() + selected_names(
                    ns,
                    i as int,
                ));
            }
        },
        MenuNode::Menu { children, .. } => {
            proof {
                assert(node_wf(ns, i as int));
            }
            let ghost cs = children@;
            proof {
                assert(cs.skip(0) =~= cs);
            }
            let mut k: usize = 0;
            while k < children.len()
                invariant
                    arena_wf(ns),
                    ns == nodes@.map_values(|n: MenuNode| n@),
                    (i as int) < ns.len(),
                    cs == children@,
                    ns[i as int] == (NodeView::Menu { name: name_of(ns[i as int]), children: cs }),
                    children_below(cs, i as int),
                    k <= cs.len(),
                    out.deep_view() + selected_names_list(ns, cs.skip(k as int), i as int)
                        =~= old(out).deep_view() + selected_names_list(ns, cs, i as int),
                decreases cs.len() - k,
            {
                proof {
                    lemma_children_below_skip(cs, i as int, k as int);
                    assert(cs.skip(k as int)[0] == cs[k as int]);
                    assert(cs.skip(k as int).drop_first() =~= cs.skip(k as int + 1));
                    lemma_selected_names_list_unfold(ns, cs.skip(k as int), i as int);
                }
                let child = children[k];
                push_selected_names(nodes, child, out);
                k = k + 1;
            }
            proof {
                assert(cs.skip(cs.len() as int) =~= Seq::<usize>::empty());
                assert(selected_names_list(ns, cs.skip(cs.len() as int), i as int)
                    =~= Seq::<Seq<char>>::empty());
                assert(selected_names(ns, i as int) == selected_names_list(ns, cs, i as int));
                assert(final(out).deep_view() =~= old(out).deep_view() + selected_names(
                    ns,
                    i as int,
                ));
            }
        },
    }
}

/// One unfolding step of the list traversal, at the level of names.
proof fn lemma_selected_names_list_unfold(ns: Seq<NodeView>, cs: Seq<usize>, bound: int)
    requires
        arena_wf(ns),
        0 <= bound <= ns.len(),
        children_below(cs, bound),
        cs.len() > 0,
    ensures
        selected_names_list(ns, cs, bound) =~= selected_names(ns, cs[0] as int)
            + selected_names_list(ns, cs.drop_first(), bound),
{
    assert(selected_leaves_list(ns, cs, bound) == selected_leaves(ns, cs[0] as int)
        + selected_leaves_list(ns, cs.drop_first(), bound));
}

} // verus!
