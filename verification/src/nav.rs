//! Navigation over the catalogue tree: the flattened visible view, cursor
//! movement with wrap-around, entering and leaving groups, and toggling
//! items.
//!
//! The view rule is deliberately asymmetric: at the root, every top-level
//! child is shown and a group child is eagerly followed by its own
//! immediate children (depth-tagged, one extra level and no deeper); inside
//! a submenu only that group's immediate children are shown.

use vstd::prelude::*;

use crate::app::App;
use crate::menu::{arena_wf, children_below, children_of, node_wf, spec_toggle, MenuNode, NodeView};

verus! {

/// One row of the visible view: an arena index and its display depth.
#[derive(Debug, PartialEq, Eq, Structural, Clone, Copy)]
pub struct ViewRow {
    pub node: usize,
    pub depth: usize,
}

/// The rows of the given indices, all at one depth.
pub open spec fn child_rows(cs: Seq<usize>, depth: usize) -> Seq<ViewRow> {
    cs.map_values(|c: usize| ViewRow { node: c, depth })
}

/// The root view of the children `cs`: each child, and, when the child is
/// itself a group, its own immediate children right after it at depth 1.
pub open spec fn root_view_list(ns: Seq<NodeView>, cs: Seq<usize>) -> Seq<ViewRow>
    decreases cs.len(),
{
    if cs.len() == 0 {
        Seq::empty()
    } else {
        seq![ViewRow { node: cs[0], depth: 0 }] + (match ns[cs[0] as int] {
            NodeView::Menu { children, .. } => child_rows(children, 1),
            NodeView::Item { .. } => Seq::empty(),
        }) + root_view_list(ns, cs.drop_first())
    }
}

/// The visible view for a navigation path: one level of eager expansion at
/// the root, exactly the open group's children anywhere deeper.
pub open spec fn spec_visible_view(ns: Seq<NodeView>, path: Seq<usize>) -> Seq<ViewRow> {
    let cs = children_of(ns, path.last() as int);
    if path.len() == 1 {
        root_view_list(ns, cs)
    } else {
        child_rows(cs, 0)
    }
}

/// Every row of a root view points into the arena, below the bound of its
/// child list.
pub proof fn lemma_root_view_list_in_range(ns: Seq<NodeView>, cs: Seq<usize>, bound: int)
    requires
        arena_wf(ns),
        0 <= bound <= ns.len(),
        children_below(cs, bound),
    ensures
        forall|j: int|
            0 <= j < root_view_list(ns, cs).len() ==> ((#[trigger] root_view_list(ns, cs)[j]).node
                as int) < bound,
    decreases cs.len(),
{
    if cs.len() == 0 {
    } else {
        let c = cs[0] as int;
        assert(node_wf(ns, c));
        assert(children_below(cs.drop_first(), bound)) by {
            assert forall|j: int| 0 <= j < cs.drop_first().len() implies ((cs.drop_first()[j])
                as int) < bound by {
                assert(cs.drop_first()[j] == cs[j + 1]);
            }
        }
        lemma_root_view_list_in_range(ns, cs.drop_first(), bound);
        let head = seq![ViewRow { node: cs[0], depth: 0 }];
        let mid = match ns[c] {
            NodeView::Menu { children, .. } => child_rows(children, 1),
            NodeView::Item { .. } => Seq::<ViewRow>::empty(),
        };
        let tail = root_view_list(ns, cs.drop_first());
        let full = root_view_list(ns, cs);
        assert(full == head + mid + tail);
        assert forall|j: int| 0 <= j < full.len() implies ((#[trigger] full[j]).node as int)
            < bound by {
            if j == 0 {
                assert(full[j] == head[0]);
            } else if j < 1 + mid.len() {
                assert(full[j] == mid[j - 1]);
                match ns[c] {
                    NodeView::Menu { children, .. } => {
                        assert(mid[j - 1].node == children[j - 1]);
                        assert((children[j - 1] as int) < c);
                    },
                    NodeView::Item { .. } => {},
                }
            } else {
                assert(full[j] == tail[j - 1 - mid.len()]);
            }
        }
    }
}

/// Every row of the visible view points into the arena.
pub proof fn lemma_view_in_range(app: App)
    requires
        app.wf(),
    ensures
        forall|j: int|
            0 <= j < app.spec_view().len() ==> ((#[trigger] app.spec_view()[j]).node as int)
                < app.tree@.len(),
{
    let ns = app.tree@;
    let path = app.nav_path@;
    let cur = path.last() as int;
    assert(node_wf(ns, cur));
    if path.len() == 1 {
        lemma_root_view_list_in_range(ns, children_of(ns, cur), cur);
    }
}

/// A root view does not change when an item of the arena is toggled: the
/// view reads only the shape of the tree, never the selection flags.
proof fn lemma_root_view_list_toggle(ns: Seq<NodeView>, cs: Seq<usize>, t: int)
    requires
        arena_wf(ns),
        0 <= t < ns.len(),
        ns[t] is Item,
        children_below(cs, ns.len() as int),
    ensures
        root_view_list(ns.update(t, spec_toggle(ns[t])), cs) =~= root_view_list(ns, cs),
    decreases cs.len(),
{
    if cs.len() == 0 {
    } else {
        let c = cs[0] as int;
        assert(children_below(cs.drop_first(), ns.len() as int)) by {
            assert forall|j: int| 0 <= j < cs.drop_first().len() implies ((cs.drop_first()[j])
                as int) < ns.len() by {
                assert(cs.drop_first()[j] == cs[j + 1]);
            }
        }
        lemma_root_view_list_toggle(ns, cs.drop_first(), t);
        if c == t {
            assert(ns.update(t, spec_toggle(ns[t]))[c] is Item);
        } else {
            assert(ns.update(t, spec_toggle(ns[t]))[c] == ns[c]);
        }
    }
}

/// The visible view is untouched by toggling an item: only the shape of
/// the tree and the navigation path determine it.
pub proof fn lemma_view_toggle(ns: Seq<NodeView>, path: Seq<usize>, t: int)
    requires
        arena_wf(ns),
        path.len() >= 1,
        forall|k: int|
            0 <= k < path.len() ==> ((#[trigger] path[k]) as int) < ns.len() && ns[path[k] as int]
                is Menu,
        0 <= t < ns.len(),
        ns[t] is Item,
    ensures
        spec_visible_view(ns.update(t, spec_toggle(ns[t])), path) == spec_visible_view(ns, path),
{
    let ns2 = ns.update(t, spec_toggle(ns[t]));
    let cur = path.last() as int;
    assert(path.last() == path[path.len() - 1]);
    assert(cur != t);
    assert(children_of(ns2, cur) == children_of(ns, cur));
    if path.len() == 1 {
        assert(node_wf(ns, cur));
        let cs = children_of(ns, cur);
        assert(children_below(cs, ns.len() as int)) by {
            assert forall|j: int| 0 <= j < cs.len() implies ((cs[j]) as int) < ns.len() by {
                assert((cs[j] as int) < cur);
            }
        }
        lemma_root_view_list_toggle(ns, cs, t);
    }
}

impl App {
    /// The current visible view as a mathematical sequence of rows.
    pub open spec fn spec_view(&self) -> Seq<ViewRow> {
        spec_visible_view(self.tree@, self.nav_path@)
    }

    /// Computes the visible view: at the root, every top-level node with
    /// any group's immediate children inlined one level deep; inside a
    /// submenu, only that group's immediate children.
    pub fn visible_nodes(&self) -> (v: Vec<ViewRow>)
        requires
            self.wf(),
        ensures
            v@ == self.spec_view(),
    {
        let ghost ns = self.tree@;
        let cur: usize = self.nav_path[self.nav_path.len() - 1];
        proof {
            assert(cur == self.nav_path@.last());
            assert(node_wf(ns, cur as int));
        }
        let mut v: Vec<ViewRow> = Vec::new();
        if self.nav_path.len() == 1 {
            match &self.tree.nodes[cur] {
                MenuNode::Menu { children, .. } => {
                    let ghost cs = children@;
                    proof {
                        assert(cs.skip(0) =~= cs);
                    }
                    let mut k: usize = 0;
                    while k < children.len()
                        invariant
                            arena_wf(ns),
                            ns == self.tree@,
                            (cur as int) < ns.len(),
                            cs == children_of(ns, cur as int),
                            cs == children@,
                            children_below(cs, cur as int),
                            k <= cs.len(),
                            v@ + root_view_list(ns, cs.skip(k as int)) =~= root_view_list(ns, cs),
                        decreases cs.len() - k,
                    {
                        proof {
                            assert(cs.skip(k as int)[0] == cs[k as int]);
                            assert(cs.skip(k as int).drop_first() =~= cs.skip(k as int + 1));
                        }
                        let ghost v_entry = v@;
                        let c = children[k];
                        v.push(ViewRow { node: c, depth: 0 });
                        proof {
                            assert(node_wf(ns, c as int));
                        }
                        match &self.tree.nodes[c] {
                            MenuNode::Menu { children: grandchildren, .. } => {
                                let ghost gcs = grandchildren@;
                                let ghost v_base = v@;
                                proof {
                                    assert(gcs.take(0) =~= Seq::<usize>::empty());
                                    assert(child_rows(gcs.take(0), 1) =~= Seq::<ViewRow>::empty());
                                }
                                let mut m: usize = 0;
                                while m < grandchildren.len()
                                    invariant
                                        gcs == grandchildren@,
                                        m <= gcs.len(),
                                        v@ =~= v_base + child_rows(gcs.take(m as int), 1),
                                    decreases gcs.len() - m,
                                {
                                    let g = grandchildren[m];
                                    v.push(ViewRow { node: g, depth: 1 });
                                    proof {
                                        assert(child_rows(gcs.take(m as int + 1), 1) =~= child_rows(
                                            gcs.take(m as int),
                                            1,
                                        ).push(ViewRow { node: gcs[m as int], depth: 1 }));
                                    }
                                    m = m + 1;
                                }
                                proof {
                                    assert(gcs.take(gcs.len() as int) =~= gcs);
                                    assert(v@ =~= v_entry + seq![
                                        ViewRow { node: cs[k as int], depth: 0 },
                                    ] + child_rows(gcs, 1));
                                }
                            },
                            MenuNode::Item { .. } => {
                            },
                        }
                        proof {
                            assert(v@ + root_view_list(ns, cs.skip(k as int + 1)) =~= root_view_list(
                                ns,
                                cs,
                            ));
                        }
                        k = k + 1;
                    }
                    proof {
                        assert(cs.skip(cs.len() as int) =~= Seq::<usize>::empty());
                        assert(root_view_list(ns, cs.skip(cs.len() as int)) =~= Seq::<
                            ViewRow,
                        >::empty());
                        assert(v@ =~= self.spec_view());
                    }
                },
                MenuNode::Item { .. } => {
                    proof {
                        assert(false);
                    }
                },
            }
        } else {
            match &self.tree.nodes[cur] {
                MenuNode::Menu { children, .. } => {
                    let ghost cs = children@;
                    proof {
                        assert(cs.take(0) =~= Seq::<usize>::empty());
                        assert(child_rows(cs.take(0), 0) =~= Seq::<ViewRow>::empty());
                    }
                    let mut k: usize = 0;
                    while k < children.len()
                        invariant
                            cs == children@,
                            k <= cs.len(),
                            v@ =~= child_rows(cs.take(k as int), 0),
                        decreases cs.len() - k,
                    {
                        let c = children[k];
                        v.push(ViewRow { node: c, depth: 0 });
                        proof {
                            assert(child_rows(cs.take(k as int + 1), 0) =~= child_rows(
                                cs.take(k as int),
                                0,
                            ).push(ViewRow { node: cs[k as int], depth: 0 }));
                        }
                        k = k + 1;
                    }
                    proof {
                        assert(cs.take(cs.len() as int) =~= cs);
                        assert(v@ =~= self.spec_view());
                    }
                },
                MenuNode::Item { .. } => {
                    proof {
                        assert(false);
                    }
                },
            }
        }
        v
    }

    /// Advances the cursor one row down, wrapping from the last row to the
    /// first; a no-op on an empty view.
    pub fn move_next(&mut self)
        requires
            old(self).wf(),
        ensures
            final(self).wf(),
            final(self).state == old(self).state,
            final(self).tree == old(self).tree,
            final(self).nav_path == old(self).nav_path,
            final(self).os_distro == old(self).os_distro,
            final(self).reboot_requested == old(self).reboot_requested,
            final(self).filename_input == old(self).filename_input,
            final(self).save_status_message == old(self).save_status_message,
            ({
                let n = old(self).spec_view().len();
                if n == 0 {
                    final(self).selected_index == old(self).selected_index
                } else if old(self).selected_index + 1 == n {
                    final(self).selected_index == 0
                } else {
                    final(self).selected_index == old(self).selected_index + 1
                }
            }),
            old(self).spec_view().len() > 0 ==> final(self).selected_index < old(
                self,
            ).spec_view().len(),
    {
        let v = self.visible_nodes();
        if v.len() > 0 {
            let i = self.selected_index;
            self.selected_index = (i + 1) % v.len();
            proof {
                if i + 1 == v.len() {
                    vstd::arithmetic::div_mod::lemma_mod_self_0(v.len() as int);
                } else {
                    vstd::arithmetic::div_mod::lemma_small_mod((i + 1) as nat, v.len() as nat);
                }
            }
        }
    }

    /// Moves the cursor one row up, wrapping from the first row to the
    /// last; a no-op on an empty view.
    pub fn move_prev(&mut self)
        requires
            old(self).wf(),
        ensures
            final(self).wf(),
            final(self).state == old(self).state,
            final(self).tree == old(self).tree,
            final(self).nav_path == old(self).nav_path,
            final(self).os_distro == old(self).os_distro,
            final(self).reboot_requested == old(self).reboot_requested,
            final(self).filename_input == old(self).filename_input,
            final(self).save_status_message == old(self).save_status_message,
            ({
                let n = old(self).spec_view().len();
                if n == 0 {
                    final(self).selected_index == old(self).selected_index
                } else if old(self).selected_index == 0 {
                    final(self).selected_index == n - 1
                } else {
                    final(self).selected_index == old(self).selected_index - 1
                }
            }),
            old(self).spec_view().len() > 0 ==> final(self).selected_index < old(
                self,
            ).spec_view().len(),
    {
        let v = self.visible_nodes();
        if v.len() > 0 {
            if self.selected_index == 0 {
                self.selected_index = v.len() - 1;
            } else {
                self.selected_index = self.selected_index - 1;
            }
        }
    }

    /// Acts on the row under the cursor: entering a group pushes it onto
    /// the navigation path and resets the cursor; an item has its
    /// `selected` flag toggled in place, with path and cursor untouched.
    /// Out of range, nothing happens.
    pub fn activate(&mut self)
        requires
            old(self).wf(),
        ensures
            final(self).wf(),
            final(self).state == old(self).state,
            final(self).os_distro == old(self).os_distro,
            final(self).reboot_requested == old(self).reboot_requested,
            final(self).filename_input == old(self).filename_input,
            final(self).save_status_message == old(self).save_status_message,
            final(self).tree.root == old(self).tree.root,
            ({
                let v = old(self).spec_view();
                let i = old(self).selected_index as int;
                if i < v.len() {
                    let n = v[i].node;
                    if old(self).tree@[n as int] is Menu {
                        &&& final(self).tree@ == old(self).tree@
                        &&& final(self).nav_path@ == old(self).nav_path@.push(n)
                        &&& final(self).selected_index == 0
                    } else {
                        &&& final(self).tree@ == old(self).tree@.update(
                            n as int,
                            spec_toggle(old(self).tree@[n as int]),
                        )
                        &&& final(self).nav_path@ == old(self).nav_path@
                        &&& final(self).selected_index == old(self).selected_index
                    }
                } else {
                    *final(self) == *old(self)
                }
            }),
    {
        proof {
            lemma_view_in_range(*old(self));
        }
        let v = self.visible_nodes();
        if self.selected_index < v.len() {
            let row = v[self.selected_index];
            let is_menu = match &self.tree.nodes[row.node] {
                MenuNode::Menu { .. } => true,
                MenuNode::Item { .. } => false,
            };
            if is_menu {
                self.nav_path.push(row.node);
                self.selected_index = 0;
                proof {
                    assert(final(self).nav_wf());
                }
            } else {
                self.tree.toggle(row.node);
                proof {
                    assert forall|k: int| 0 <= k < final(self).nav_path@.len() implies ((
                    #[trigger] final(self).nav_path@[k]) as int) < final(self).tree@.len()
                        && final(self).tree@[final(self).nav_path@[k] as int] is Menu by {
                        assert(old(self).tree@[old(self).nav_path@[k] as int] is Menu);
                    }
                    lemma_view_toggle(old(self).tree@, old(self).nav_path@, row.node as int);
                }
            }
        }
    }

    /// Leaves the current group: pops the navigation path and resets the
    /// cursor, unless already at the root, where it is a no-op.
    pub fn back(&mut self)
        requires
            old(self).wf(),
        ensures
            final(self).wf(),
            final(self).state == old(self).state,
            final(self).tree == old(self).tree,
            final(self).os_distro == old(self).os_distro,
            final(self).reboot_requested == old(self).reboot_requested,
            final(self).filename_input == old(self).filename_input,
            final(self).save_status_message == old(self).save_status_message,
            old(self).nav_path@.len() > 1 ==> final(self).nav_path@ == old(
                self,
            ).nav_path@.drop_last() && final(self).selected_index == 0,
            old(self).nav_path@.len() <= 1 ==> *final(self) == *old(self),
    {
        if self.nav_path.len() > 1 {
            self.nav_path.pop();
            self.selected_index = 0;
            proof {
                assert(final(self).nav_path@ =~= old(self).nav_path@.drop_last());
            }
        }
    }

    /// Re-clamps the cursor to the current view after a structural change:
    /// to the last row when it ran past the end, to zero on an empty view.
    pub fn clamp_index(&mut self)
        requires
            old(self).wf(),
        ensures
            final(self).wf(),
            final(self).state == old(self).state,
            final(self).tree == old(self).tree,
            final(self).nav_path == old(self).nav_path,
            final(self).os_distro == old(self).os_distro,
            final(self).reboot_requested == old(self).reboot_requested,
            final(self).filename_input == old(self).filename_input,
            final(self).save_status_message == old(self).save_status_message,
            ({
                let n = old(self).spec_view().len();
                if n == 0 {
                    final(self).selected_index == 0
                } else if old(self).selected_index < n {
                    final(self).selected_index == old(self).selected_index
                } else {
                    final(self).selected_index == n - 1
                }
            }),
            old(self).spec_view().len() > 0 ==> final(self).selected_index < old(
                self,
            ).spec_view().len(),
    {
        let v = self.visible_nodes();
        if v.len() > 0 {
            if self.selected_index > v.len() - 1 {
                self.selected_index = v.len() - 1;
            }
        } else {
            self.selected_index = 0;
        }
    }
}

} // verus!
